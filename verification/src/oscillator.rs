//! A fixed-size bank of square-wave oscillators rendered in fixed-point
//! arithmetic.
//!
//! A phase is a count of billionths of one waveform cycle, so it lives in
//! `[0, PHASE_SCALE)` and wraps modulo `PHASE_SCALE`. A gain is a count of
//! millionths of full scale. A pitch is given in centihertz, so `44000`
//! stands for 440 Hz. With the device's sample rate `r` (Hz), a pitch `f`
//! (centihertz) yields the per-sample phase increment
//! `f * PHASE_SCALE / (r * 100)`, the fixed-point value of `f / (100 * r)`
//! cycles per sample.

use vstd::prelude::*;
use vstd::arithmetic::div_mod::{
    lemma_add_mod_noop_right, lemma_div_is_ordered, lemma_div_is_ordered_by_denominator,
};
use vstd::arithmetic::mul::lemma_mul_is_distributive_add_other_way;

verus! {

/// Number of oscillator slots in the bank. The pitch table may address
/// fewer; the remaining slots stay silent and never advance.
pub const NUM_OSCILLATORS: usize = 12;

/// One full waveform cycle in phase units (billionths of a cycle).
pub const PHASE_SCALE: u64 = 1_000_000_000;

/// Half a cycle: the square wave is high while `phase <= HALF_PHASE`.
pub const HALF_PHASE: u64 = 500_000_000;

/// Full-scale amplitude in gain units (millionths of full scale).
pub const GAIN_SCALE: i64 = 1_000_000;

/// The fixed gain of a sounding oscillator: 0.01 of full scale.
pub const ACTIVE_VOLUME: i64 = 10_000;

/// Largest pitch the bank accepts, in centihertz (100 kHz).
pub const MAX_PITCH_CENTIHZ: u64 = 10_000_000;

/// Largest phase increment a configuration can produce:
/// `MAX_PITCH_CENTIHZ * PHASE_SCALE / 100`, reached at a sample rate of 1 Hz.
pub const MAX_PHASE_INC: u64 = 100_000_000_000_000;

/// One oscillator: its position in the cycle, its per-sample advance, and
/// its output amplitude.
#[derive(Clone, Copy, PartialEq, Eq, Structural, Debug)]
pub struct Oscillator {
    /// Position within the waveform cycle, in `[0, PHASE_SCALE)`.
    pub phase: u64,
    /// Per-sample phase advance; fixed at configuration time.
    pub phase_inc: u64,
    /// Output amplitude: `0` (silent) or `ACTIVE_VOLUME` in this design,
    /// though the bank accepts any value in `[0, GAIN_SCALE]`.
    pub gain: i64,
}

/// Errors detected when the bank is configured.
#[derive(Clone, Copy, PartialEq, Eq, Structural, Debug)]
pub enum ConfigError {
    /// The reported sample rate was zero, which would leave the phase
    /// increments undefined.
    ZeroSampleRate,
}

/// The fixed-point phase increment for `pitch` centihertz at `rate` Hz.
pub open spec fn phase_inc_of(pitch: int, rate: int) -> int {
    (pitch * PHASE_SCALE as int) / (rate * 100)
}

/// The phase reached from `p0` after `n` advances by `inc`, wrapped to one
/// cycle.
pub open spec fn phase_after(p0: int, inc: int, n: nat) -> int {
    (p0 + n * inc) % (PHASE_SCALE as int)
}

/// One oscillator's bipolar contribution: `+gain` through the first half of
/// the cycle, `-gain` through the second. A silent oscillator (`gain == 0`)
/// contributes exactly `0` whatever its phase.
pub open spec fn square_sample(phase: int, gain: int) -> int {
    if phase <= HALF_PHASE as int {
        gain
    } else {
        -gain
    }
}

/// Sum of the contributions of the first `count` oscillators at the `step`th
/// sample of a render that started from the state `oscs`.
pub open spec fn mix_prefix(oscs: Seq<Oscillator>, step: nat, count: nat) -> int
    decreases count,
{
    if count == 0 {
        0
    } else {
        mix_prefix(oscs, step, (count - 1) as nat) + square_sample(
            phase_after(
                oscs[count - 1].phase as int,
                oscs[count - 1].phase_inc as int,
                step,
            ),
            oscs[count - 1].gain as int,
        )
    }
}

/// The `step`th output sample of a render that started from the state
/// `oscs`: the sum of every oscillator's contribution.
pub open spec fn mixed_sample(oscs: Seq<Oscillator>, step: nat) -> int {
    mix_prefix(oscs, step, oscs.len())
}

/// The bank: a fixed number of oscillators plus the pitch table they were
/// built from.
pub struct OscillatorBank {
    /// The oscillator slots; always exactly `NUM_OSCILLATORS` of them.
    pub oscs: Vec<Oscillator>,
    /// Pitch table in centihertz; entry `i` drives oscillator `i`.
    pub pitches: Vec<u64>,
    /// Whether `configure` has run; rendering requires it.
    pub configured: bool,
}

impl OscillatorBank {
    /// Every phase lies in one cycle, every increment and gain is bounded,
    /// and the pitch table fits the bank.
    pub open spec fn wf(self) -> bool {
        &&& self.oscs@.len() == NUM_OSCILLATORS
        &&& self.pitches@.len() <= NUM_OSCILLATORS
        &&& (forall|i: int| 0 <= i < self.oscs@.len() ==> (#[trigger] self.oscs@[i]).phase
            < PHASE_SCALE)
        &&& (forall|i: int| 0 <= i < self.oscs@.len() ==> (#[trigger] self.oscs@[i]).phase_inc
            <= MAX_PHASE_INC)
        &&& (forall|i: int| 0 <= i < self.oscs@.len() ==> 0 <= (#[trigger] self.oscs@[i]).gain
            <= GAIN_SCALE)
        &&& (forall|i: int| 0 <= i < self.pitches@.len() ==> #[trigger] self.pitches@[i]
            <= MAX_PITCH_CENTIHZ)
    }

    /// A silent, unconfigured bank over the given pitch table: all phases,
    /// increments and gains are zero.
    pub fn new(pitches_centihz: Vec<u64>) -> (bank: OscillatorBank)
        requires
            pitches_centihz@.len() <= NUM_OSCILLATORS,
            forall|i: int| 0 <= i < pitches_centihz@.len() ==> #[trigger] pitches_centihz@[i]
                <= MAX_PITCH_CENTIHZ,
        ensures
            bank.wf(),
            !bank.configured,
            bank.pitches@ == pitches_centihz@,
            forall|i: int| 0 <= i < NUM_OSCILLATORS ==> #[trigger] bank.oscs@[i] == (Oscillator {
                phase: 0u64,
                phase_inc: 0u64,
                gain: 0i64,
            }),
    {
        let mut oscs: Vec<Oscillator> = Vec::new();
        let mut i: usize = 0;
        while i < NUM_OSCILLATORS
            invariant
                i <= NUM_OSCILLATORS,
                oscs@.len() == i,
                forall|t: int| 0 <= t < i ==> #[trigger] oscs@[t] == (Oscillator {
                    phase: 0u64,
                    phase_inc: 0u64,
                    gain: 0i64,
                }),
            decreases NUM_OSCILLATORS - i,
        {
            oscs.push(Oscillator { phase: 0, phase_inc: 0, gain: 0 });
            i = i + 1;
        }
        OscillatorBank { oscs, pitches: pitches_centihz, configured: false }
    }

    /// Derive every phase increment from the pitch table and the device's
    /// actual sample rate. Called exactly once, before the first render.
    ///
    /// Fails exactly when `sample_rate == 0`, leaving the bank untouched.
    /// Otherwise oscillator `i` gets `phase_inc_of(pitches[i], sample_rate)`
    /// for each table entry; slots past the table keep their (zero)
    /// increment, and no phase or gain changes.
    pub fn configure(&mut self, sample_rate: u32) -> (r: Result<(), ConfigError>)
        requires
            old(self).wf(),
            !old(self).configured,
        ensures
            final(self).wf(),
            sample_rate == 0 ==> r == Err::<(), ConfigError>(ConfigError::ZeroSampleRate)
                && *final(self) == *old(self),
            sample_rate > 0 ==> ({
                &&& r == Ok::<(), ConfigError>(())
                &&& final(self).configured
                &&& final(self).pitches@ == old(self).pitches@
                &&& final(self).oscs@.len() == NUM_OSCILLATORS
                &&& forall|i: int| 0 <= i < old(self).pitches@.len()
                    ==> (#[trigger] final(self).oscs@[i]).phase_inc
                        == phase_inc_of(old(self).pitches@[i] as int, sample_rate as int)
                &&& forall|i: int| old(self).pitches@.len() <= i < NUM_OSCILLATORS
                    ==> (#[trigger] final(self).oscs@[i]).phase_inc == old(self).oscs@[i].phase_inc
                &&& forall|i: int| 0 <= i < NUM_OSCILLATORS
                    ==> (#[trigger] final(self).oscs@[i]).phase == old(self).oscs@[i].phase
                        && final(self).oscs@[i].gain == old(self).oscs@[i].gain
            }),
    {
        if sample_rate == 0 {
            return Err(ConfigError::ZeroSampleRate);
        }
        let ghost orig = *old(self);
        let denom: u64 = (sample_rate as u64) * 100;
        let mut i: usize = 0;
        while i < self.pitches.len()
            invariant
                i <= self.pitches@.len(),
                self.wf(),
                !self.configured,
                self.pitches@ == orig.pitches@,
                orig.wf(),
                denom == (sample_rate as u64) * 100,
                sample_rate > 0,
                forall|t: int| 0 <= t < i ==> (#[trigger] self.oscs@[t]).phase_inc == phase_inc_of(
                    orig.pitches@[t] as int,
                    sample_rate as int,
                ),
                forall|t: int| i <= t < NUM_OSCILLATORS ==> (#[trigger] self.oscs@[t]).phase_inc
                    == orig.oscs@[t].phase_inc,
                forall|t: int| 0 <= t < NUM_OSCILLATORS ==> (#[trigger] self.oscs@[t]).phase
                    == orig.oscs@[t].phase && self.oscs@[t].gain == orig.oscs@[t].gain,
            decreases self.pitches@.len() - i,
        {
            let pitch = self.pitches[i];
            let inc = pitch * PHASE_SCALE / denom;
            proof {
                lemma_div_is_ordered_by_denominator(
                    (pitch * PHASE_SCALE) as int,
                    100,
                    denom as int,
                );
                lemma_div_is_ordered(
                    (pitch * PHASE_SCALE) as int,
                    (MAX_PITCH_CENTIHZ * PHASE_SCALE) as int,
                    100,
                );
            }
            let osc = self.oscs[i];
            self.oscs.set(i, Oscillator { phase: osc.phase, phase_inc: inc, gain: osc.gain });
            i = i + 1;
        }
        self.configured = true;
        Ok(())
    }

    /// Set one oscillator's gain, leaving its phase and increment and every
    /// other oscillator untouched. Callable at any time, including between
    /// renders.
    pub fn set_gain(&mut self, index: usize, value: i64)
        requires
            old(self).wf(),
            index < NUM_OSCILLATORS,
            0 <= value <= GAIN_SCALE,
        ensures
            final(self).wf(),
            final(self).configured == old(self).configured,
            final(self).pitches@ == old(self).pitches@,
            final(self).oscs@ == old(self).oscs@.update(index as int, (Oscillator {
                phase: old(self).oscs@[index as int].phase,
                phase_inc: old(self).oscs@[index as int].phase_inc,
                gain: value,
            })),
    {
        let osc = self.oscs[index];
        self.oscs.set(index, Oscillator { phase: osc.phase, phase_inc: osc.phase_inc, gain: value });
    }

    /// Render one buffer of mixed samples.
    ///
    /// Sample `j` is the sum over all oscillators of `+gain` where the
    /// oscillator's phase after `j` advances is in the first half of the
    /// cycle and `-gain` otherwise; after writing a sample every phase
    /// advances by its increment, modulo one cycle, sounding or not. Gains
    /// and increments never change, and the body allocates nothing.
    pub fn render(&mut self, buffer: &mut Vec<i64>)
        requires
            old(self).wf(),
            old(self).configured,
        ensures
            final(self).wf(),
            final(self).configured == old(self).configured,
            final(self).pitches@ == old(self).pitches@,
            final(buffer)@.len() == old(buffer)@.len(),
            forall|j: int| 0 <= j < final(buffer)@.len() ==> #[trigger] final(buffer)@[j]
                == mixed_sample(old(self).oscs@, j as nat),
            final(self).oscs@.len() == NUM_OSCILLATORS,
            forall|i: int| 0 <= i < NUM_OSCILLATORS ==> ({
                let osc0 = old(self).oscs@[i];
                &&& (#[trigger] final(self).oscs@[i]).phase_inc == osc0.phase_inc
                &&& final(self).oscs@[i].gain == osc0.gain
                &&& final(self).oscs@[i].phase == phase_after(
                    osc0.phase as int,
                    osc0.phase_inc as int,
                    old(buffer)@.len() as nat,
                )
            }),
    {
        let ghost orig = *old(self);
        let n = buffer.len();
        let mut j: usize = 0;
        while j < n
            invariant
                j <= n,
                n == buffer@.len(),
                self.wf(),
                orig.wf(),
                self.configured == orig.configured,
                self.pitches@ == orig.pitches@,
                forall|t: int| 0 <= t < j ==> #[trigger] buffer@[t] == mixed_sample(
                    orig.oscs@,
                    t as nat,
                ),
                forall|i: int| 0 <= i < NUM_OSCILLATORS ==> ({
                    let osc0 = orig.oscs@[i];
                    &&& (#[trigger] self.oscs@[i]).phase_inc == osc0.phase_inc
                    &&& self.oscs@[i].gain == osc0.gain
                    &&& self.oscs@[i].phase == phase_after(
                        osc0.phase as int,
                        osc0.phase_inc as int,
                        j as nat,
                    )
                }),
            decreases n - j,
        {
            let mut acc: i64 = 0;
            let mut k: usize = 0;
            while k < NUM_OSCILLATORS
                invariant
                    k <= NUM_OSCILLATORS,
                    j < n,
                    self.wf(),
                    orig.wf(),
                    self.configured == orig.configured,
                    self.pitches@ == orig.pitches@,
                    acc == mix_prefix(orig.oscs@, j as nat, k as nat),
                    -(k as int) * (GAIN_SCALE as int) <= acc <= (k as int) * (GAIN_SCALE as int),
                    forall|i: int| 0 <= i < k ==> ({
                        let osc0 = orig.oscs@[i];
                        &&& (#[trigger] self.oscs@[i]).phase_inc == osc0.phase_inc
                        &&& self.oscs@[i].gain == osc0.gain
                        &&& self.oscs@[i].phase == phase_after(
                            osc0.phase as int,
                            osc0.phase_inc as int,
                            (j + 1) as nat,
                        )
                    }),
                    forall|i: int| k <= i < NUM_OSCILLATORS ==> ({
                        let osc0 = orig.oscs@[i];
                        &&& (#[trigger] self.oscs@[i]).phase_inc == osc0.phase_inc
                        &&& self.oscs@[i].gain == osc0.gain
                        &&& self.oscs@[i].phase == phase_after(
                            osc0.phase as int,
                            osc0.phase_inc as int,
                            j as nat,
                        )
                    }),
                decreases NUM_OSCILLATORS - k,
            {
                let osc = self.oscs[k];
                let part = if osc.phase <= HALF_PHASE {
                    osc.gain
                } else {
                    -osc.gain
                };
                proof {
                    assert(part as int == square_sample(
                        phase_after(
                            orig.oscs@[k as int].phase as int,
                            orig.oscs@[k as int].phase_inc as int,
                            j as nat,
                        ),
                        orig.oscs@[k as int].gain as int,
                    ));
                }
                acc = acc + part;
                let new_phase = (osc.phase + osc.phase_inc) % PHASE_SCALE;
                proof {
                    let p0 = orig.oscs@[k as int].phase as int;
                    let inc = orig.oscs@[k as int].phase_inc as int;
                    let s = PHASE_SCALE as int;
                    lemma_add_mod_noop_right(inc, p0 + (j as int) * inc, s);
                    lemma_mul_is_distributive_add_other_way(inc, j as int, 1);
                    assert(new_phase as int == phase_after(p0, inc, (j + 1) as nat));
                }
                self.oscs.set(
                    k,
                    Oscillator { phase: new_phase, phase_inc: osc.phase_inc, gain: osc.gain },
                );
                k = k + 1;
            }
            proof {
                assert(mixed_sample(orig.oscs@, j as nat) == mix_prefix(
                    orig.oscs@,
                    j as nat,
                    NUM_OSCILLATORS as nat,
                ));
            }
            buffer.set(j, acc);
            j = j + 1;
        }
    }
}

/// Advancing a phase `m` samples and then `n` more lands exactly where one
/// advance of `m + n` samples does: successive renders compose, so timbre
/// continuity survives any split of the stream into buffers.
pub proof fn lemma_phase_advance_compose(p0: int, inc: int, m: nat, n: nat)
    ensures
        phase_after(phase_after(p0, inc, m), inc, n) == phase_after(p0, inc, (m + n) as nat),
{
    let s = PHASE_SCALE as int;
    lemma_add_mod_noop_right(n as int * inc, p0 + m as int * inc, s);
    lemma_mul_is_distributive_add_other_way(inc, m as int, n as int);
}

/// The square wave's shape: a sounding oscillator puts out `+gain` through
/// the first half of the cycle and `-gain` through the second, and a silent
/// one puts out exactly `0` at every phase.
pub proof fn lemma_square_wave_shape(phase: int, gain: int)
    ensures
        gain == 0 ==> square_sample(phase, gain) == 0,
        phase <= HALF_PHASE as int ==> square_sample(phase, gain) == gain,
        phase > HALF_PHASE as int ==> square_sample(phase, gain) == -gain,
{
}

/// The spec of the fixed pitch table: F4 G4 A4 B4 C5 D5 E5 F5 G5, in
/// centihertz.
pub open spec fn default_pitch_seq() -> Seq<u64> {
    seq![34924u64, 39200u64, 44000u64, 49392u64, 52328u64, 58736u64, 65928u64, 69848u64, 78400u64]
}

/// The fixed nine-note pitch table, in centihertz.
pub fn default_pitch_table() -> (t: Vec<u64>)
    ensures
        t@ == default_pitch_seq(),
        t@.len() <= NUM_OSCILLATORS,
        forall|i: int| 0 <= i < t@.len() ==> #[trigger] t@[i] <= MAX_PITCH_CENTIHZ,
{
    let mut t: Vec<u64> = Vec::new();
    t.push(34924);
    t.push(39200);
    t.push(44000);
    t.push(49392);
    t.push(52328);
    t.push(58736);
    t.push(65928);
    t.push(69848);
    t.push(78400);
    proof {
        assert(t@ =~= default_pitch_seq());
    }
    t
}

} // verus!
