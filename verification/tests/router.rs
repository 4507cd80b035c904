use squarekeys::oscillator::{default_pitch_table, OscillatorBank, ACTIVE_VOLUME};
use squarekeys::router::{default_router, NoteRouter};

fn fresh_bank() -> OscillatorBank {
    let mut bank = OscillatorBank::new(default_pitch_table());
    bank.configure(44_100).expect("nonzero sample rate");
    bank
}

#[test]
fn key_down_sets_the_fixed_volume() {
    let router = default_router();
    let mut bank = fresh_bank();
    router.on_key_down(&mut bank, 3, false);
    assert_eq!(bank.oscs[2].gain, ACTIVE_VOLUME);
    // Every other oscillator stays silent.
    for i in 0..12 {
        if i != 2 {
            assert_eq!(bank.oscs[i].gain, 0);
        }
    }
}

#[test]
fn key_up_restores_exact_silence() {
    let router = default_router();
    let mut bank = fresh_bank();
    router.on_key_down(&mut bank, 7, false);
    assert_eq!(bank.oscs[6].gain, ACTIVE_VOLUME);
    router.on_key_up(&mut bank, 7, false);
    assert_eq!(bank.oscs[6].gain, 0);
}

#[test]
fn repeat_events_change_nothing() {
    let router = default_router();
    let mut bank = fresh_bank();
    router.on_key_down(&mut bank, 5, true);
    assert_eq!(bank.oscs[4].gain, 0);
    router.on_key_down(&mut bank, 5, false);
    router.on_key_up(&mut bank, 5, true);
    assert_eq!(bank.oscs[4].gain, ACTIVE_VOLUME);
}

#[test]
fn unmapped_keys_are_ignored() {
    let router = default_router();
    let mut bank = fresh_bank();
    router.on_key_down(&mut bank, 0, false);
    router.on_key_down(&mut bank, 10, false);
    router.on_key_up(&mut bank, 42, false);
    for i in 0..12 {
        assert_eq!(bank.oscs[i].gain, 0);
    }
}

#[test]
fn default_table_is_bijective_onto_first_nine() {
    let router = default_router();
    assert_eq!(router.entries.len(), 9);
    for (i, &(key, idx)) in router.entries.iter().enumerate() {
        assert_eq!(key, (i + 1) as u32);
        assert_eq!(idx, i);
    }
    assert_eq!(router.lookup(1), Some(0));
    assert_eq!(router.lookup(9), Some(8));
    assert_eq!(router.lookup(10), None);
}

#[test]
fn trigger_does_not_reset_phase() {
    let router = default_router();
    let mut bank = fresh_bank();
    let mut buffer = vec![0i64; 25];
    bank.render(&mut buffer);
    let phase_before = bank.oscs[2].phase;
    assert!(phase_before > 0);
    router.on_key_down(&mut bank, 3, false);
    assert_eq!(bank.oscs[2].phase, phase_before);
    router.on_key_up(&mut bank, 3, false);
    assert_eq!(bank.oscs[2].phase, phase_before);
}

#[test]
fn custom_table_routes_where_it_points() {
    let entries = vec![(100u32, 11usize), (200u32, 0usize)];
    let router = NoteRouter::new(entries, 500);
    let mut bank = fresh_bank();
    router.on_key_down(&mut bank, 100, false);
    assert_eq!(bank.oscs[11].gain, 500);
    assert_eq!(bank.oscs[0].gain, 0);
}
