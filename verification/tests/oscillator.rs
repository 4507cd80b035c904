use squarekeys::oscillator::{
    default_pitch_table, ConfigError, OscillatorBank, ACTIVE_VOLUME, NUM_OSCILLATORS, PHASE_SCALE,
};

fn configured_bank(rate: u32) -> OscillatorBank {
    let mut bank = OscillatorBank::new(default_pitch_table());
    bank.configure(rate).expect("nonzero sample rate");
    bank
}

#[test]
fn phase_inc_is_pitch_over_rate() {
    let bank = configured_bank(44_100);
    let pitches = default_pitch_table();
    for (i, pitch) in pitches.iter().enumerate() {
        assert_eq!(
            bank.oscs[i].phase_inc,
            pitch * 1_000_000_000 / (44_100 * 100),
        );
    }
    // 440 Hz at 44100 Hz: 0.00997732... cycles per sample in billionths.
    assert_eq!(bank.oscs[2].phase_inc, 9_977_324);
    // 493.92 Hz divides evenly: exactly 0.0112 cycles per sample.
    assert_eq!(bank.oscs[3].phase_inc, 11_200_000);
}

#[test]
fn slots_past_the_pitch_table_stay_silent() {
    let bank = configured_bank(44_100);
    for i in 9..NUM_OSCILLATORS {
        assert_eq!(bank.oscs[i].phase_inc, 0);
        assert_eq!(bank.oscs[i].gain, 0);
    }
}

#[test]
fn zero_sample_rate_is_rejected() {
    let mut bank = OscillatorBank::new(default_pitch_table());
    assert_eq!(bank.configure(0), Err(ConfigError::ZeroSampleRate));
    assert!(!bank.configured);
    for i in 0..NUM_OSCILLATORS {
        assert_eq!(bank.oscs[i].phase_inc, 0);
    }
    // The rejection leaves the bank usable: a later valid rate succeeds.
    assert_eq!(bank.configure(44_100), Ok(()));
}

#[test]
fn silent_bank_renders_zero_at_every_phase() {
    let mut bank = configured_bank(44_100);
    let mut buffer = vec![7i64; 256];
    bank.render(&mut buffer);
    // All gains are zero, so every sample is exactly zero even though the
    // phases sweep through both halves of the cycle.
    assert!(buffer.iter().all(|&s| s == 0));
    assert!(bank.oscs[2].phase > 0);
}

#[test]
fn sounding_oscillator_is_bipolar_in_gain() {
    let mut bank = configured_bank(44_100);
    bank.set_gain(2, ACTIVE_VOLUME);
    let mut buffer = vec![0i64; 128];
    bank.render(&mut buffer);
    let mut phase: u64 = 0;
    let inc = 9_977_324u64;
    for &sample in buffer.iter() {
        let expected = if phase <= 500_000_000 {
            ACTIVE_VOLUME
        } else {
            -ACTIVE_VOLUME
        };
        assert_eq!(sample, expected);
        phase = (phase + inc) % PHASE_SCALE;
    }
}

#[test]
fn phase_advances_modulo_one_cycle() {
    let mut bank = configured_bank(44_100);
    let mut buffer = vec![0i64; 52];
    bank.render(&mut buffer);
    // 52 advances of 0.009977324 cycles: past the half-cycle mark, no wrap yet.
    assert_eq!(bank.oscs[2].phase, 52 * 9_977_324);
    // Renders compose: 100 more samples land where 152 at once would.
    let mut more = vec![0i64; 100];
    bank.render(&mut more);
    assert_eq!(bank.oscs[2].phase, 152 * 9_977_324 % PHASE_SCALE);
}

#[test]
fn half_cycle_flip_at_44100_and_440() {
    // Pitch 440 Hz at 44100 Hz: phase_inc 0.00997732; from phase 0 the
    // phase after 50 samples is 0.4988662, still in the +gain half, and the
    // next advance crosses 0.5, flipping the output to -gain.
    let mut bank = configured_bank(44_100);
    bank.set_gain(2, ACTIVE_VOLUME);
    let mut buffer = vec![0i64; 52];
    bank.render(&mut buffer);
    assert_eq!(50 * 9_977_324u64, 498_866_200);
    assert_eq!(buffer[49], ACTIVE_VOLUME);
    assert_eq!(buffer[50], ACTIVE_VOLUME);
    assert_eq!(51 * 9_977_324u64, 508_843_524);
    assert_eq!(buffer[51], -ACTIVE_VOLUME);
}

#[test]
fn gains_mix_additively() {
    let mut bank = configured_bank(44_100);
    bank.set_gain(0, ACTIVE_VOLUME);
    bank.set_gain(5, ACTIVE_VOLUME);
    let mut buffer = vec![0i64; 1];
    bank.render(&mut buffer);
    // Both oscillators start at phase 0, the +gain half.
    assert_eq!(buffer[0], 2 * ACTIVE_VOLUME);
}

#[test]
fn phase_keeps_running_while_silent() {
    let mut bank = configured_bank(44_100);
    let mut buffer = vec![0i64; 10];
    bank.render(&mut buffer);
    let moved = bank.oscs[2].phase;
    assert_eq!(moved, 10 * 9_977_324);
    // Re-activating after a silent stretch finds the phase advanced, not
    // reset: timbre continuity survives the silence.
    bank.set_gain(2, ACTIVE_VOLUME);
    assert_eq!(bank.oscs[2].phase, moved);
}
