//! Translation of discrete key events into oscillator gain changes.
//!
//! Keys are small integer identifiers of the library's own; the surrounding
//! program converts whatever its input layer delivers. The router holds a
//! bijective table from keys to oscillator indices and the fixed volume a
//! sounding note gets. Auto-repeated events change nothing, and phase is
//! never reset on a trigger, so re-activating a note keeps its timbre
//! continuous.

use vstd::prelude::*;
use crate::oscillator::{OscillatorBank, Oscillator, NUM_OSCILLATORS, GAIN_SCALE, ACTIVE_VOLUME};

verus! {

/// The oscillator index a key addresses: the first table entry carrying the
/// key, if any.
pub open spec fn lookup_spec(entries: Seq<(u32, usize)>, key: u32) -> Option<usize>
    decreases entries.len(),
{
    if entries.len() == 0 {
        None
    } else if entries[0].0 == key {
        Some(entries[0].1)
    } else {
        lookup_spec(entries.drop_first(), key)
    }
}

/// Routes key-down and key-up events to oscillator gains.
pub struct NoteRouter {
    /// Key-to-oscillator table; keys and indices are each distinct.
    pub entries: Vec<(u32, usize)>,
    /// The gain a sounding oscillator gets.
    pub volume: i64,
}

/// The gain column of a bank's oscillators.
pub open spec fn gains_of(oscs: Seq<Oscillator>) -> Seq<i64> {
    oscs.map(|i: int, o: Oscillator| o.gain)
}

impl NoteRouter {
    /// Every index addresses the bank, the table is bijective (distinct
    /// keys, distinct indices), and the volume is positive and in range.
    pub open spec fn wf(self) -> bool {
        &&& forall|i: int| 0 <= i < self.entries@.len() ==> (#[trigger] self.entries@[i]).1
            < NUM_OSCILLATORS
        &&& forall|i: int, j: int| 0 <= i < j < self.entries@.len() ==> (#[trigger] self.entries@[i]).0
            != (#[trigger] self.entries@[j]).0
        &&& forall|i: int, j: int| 0 <= i < j < self.entries@.len() ==> (#[trigger] self.entries@[i]).1
            != (#[trigger] self.entries@[j]).1
        &&& 0 < self.volume <= GAIN_SCALE
    }

    /// The bank's gains after a non-repeat key-down of `key`: the addressed
    /// oscillator's gain becomes the router's volume; an unmapped key
    /// changes nothing.
    pub open spec fn gains_after_key_down(self, gains: Seq<i64>, key: u32, is_repeat: bool) -> Seq<
        i64,
    > {
        if is_repeat {
            gains
        } else {
            match lookup_spec(self.entries@, key) {
                Some(idx) => gains.update(idx as int, self.volume),
                None => gains,
            }
        }
    }

    /// The bank's gains after a key-up of `key`: the addressed oscillator
    /// falls silent; repeats and unmapped keys change nothing.
    pub open spec fn gains_after_key_up(self, gains: Seq<i64>, key: u32, is_repeat: bool) -> Seq<
        i64,
    > {
        if is_repeat {
            gains
        } else {
            match lookup_spec(self.entries@, key) {
                Some(idx) => gains.update(idx as int, 0i64),
                None => gains,
            }
        }
    }

    /// A router over the given table and volume.
    pub fn new(entries: Vec<(u32, usize)>, volume: i64) -> (r: NoteRouter)
        requires
            forall|i: int| 0 <= i < entries@.len() ==> (#[trigger] entries@[i]).1
                < NUM_OSCILLATORS,
            forall|i: int, j: int| 0 <= i < j < entries@.len() ==> (#[trigger] entries@[i]).0 != (
            #[trigger] entries@[j]).0,
            forall|i: int, j: int| 0 <= i < j < entries@.len() ==> (#[trigger] entries@[i]).1 != (
            #[trigger] entries@[j]).1,
            0 < volume <= GAIN_SCALE,
        ensures
            r.wf(),
            r.entries@ == entries@,
            r.volume == volume,
    {
        NoteRouter { entries, volume }
    }

    /// The oscillator index `key` addresses, if any.
    pub fn lookup(&self, key: u32) -> (r: Option<usize>)
        ensures
            r == lookup_spec(self.entries@, key),
    {
        let mut i: usize = 0;
        proof {
            assert(self.entries@.skip(0) =~= self.entries@);
        }
        while i < self.entries.len()
            invariant
                i <= self.entries@.len(),
                lookup_spec(self.entries@, key) == lookup_spec(
                    self.entries@.skip(i as int),
                    key,
                ),
                forall|t: int| 0 <= t < i ==> (#[trigger] self.entries@[t]).0 != key,
            decreases self.entries@.len() - i,
        {
            let entry = self.entries[i];
            proof {
                assert(self.entries@.skip(i as int)[0] == self.entries@[i as int]);
                assert(self.entries@.skip(i as int).drop_first() =~= self.entries@.skip(
                    i as int + 1,
                ));
            }
            if entry.0 == key {
                return Some(entry.1);
            }
            i = i + 1;
        }
        None
    }

    /// A non-repeat key-down on a mapped key sets that oscillator's gain to
    /// the fixed volume; a repeat or an unmapped key changes nothing. No
    /// phase or increment ever changes.
    pub fn on_key_down(&self, bank: &mut OscillatorBank, key: u32, is_repeat: bool)
        requires
            self.wf(),
            old(bank).wf(),
        ensures
            final(bank).wf(),
            final(bank).configured == old(bank).configured,
            final(bank).pitches@ == old(bank).pitches@,
            gains_of(final(bank).oscs@) == self.gains_after_key_down(
                gains_of(old(bank).oscs@),
                key,
                is_repeat,
            ),
            final(bank).oscs@.len() == old(bank).oscs@.len(),
            forall|i: int| 0 <= i < old(bank).oscs@.len() ==> (#[trigger] final(bank).oscs@[i]).phase
                == old(bank).oscs@[i].phase && final(bank).oscs@[i].phase_inc
                == old(bank).oscs@[i].phase_inc,
    {
        if is_repeat {
            return ;
        }
        match self.lookup(key) {
            Some(idx) => {
                proof {
                    lemma_lookup_in_entries(self.entries@, key);
                }
                bank.set_gain(idx, self.volume);
                proof {
                    lemma_gains_of_update(
                        old(bank).oscs@,
                        idx as int,
                        bank.oscs@[idx as int],
                    );
                    assert(gains_of(bank.oscs@) =~= self.gains_after_key_down(
                        gains_of(old(bank).oscs@),
                        key,
                        is_repeat,
                    ));
                }
            },
            None => {
            },
        }
    }

    /// A non-repeat key-up on a mapped key silences that oscillator; a
    /// repeat or an unmapped key changes nothing. No phase or increment
    /// ever changes.
    pub fn on_key_up(&self, bank: &mut OscillatorBank, key: u32, is_repeat: bool)
        requires
            self.wf(),
            old(bank).wf(),
        ensures
            final(bank).wf(),
            final(bank).configured == old(bank).configured,
            final(bank).pitches@ == old(bank).pitches@,
            gains_of(final(bank).oscs@) == self.gains_after_key_up(
                gains_of(old(bank).oscs@),
                key,
                is_repeat,
            ),
            final(bank).oscs@.len() == old(bank).oscs@.len(),
            forall|i: int| 0 <= i < old(bank).oscs@.len() ==> (#[trigger] final(bank).oscs@[i]).phase
                == old(bank).oscs@[i].phase && final(bank).oscs@[i].phase_inc
                == old(bank).oscs@[i].phase_inc,
    {
        if is_repeat {
            return ;
        }
        match self.lookup(key) {
            Some(idx) => {
                proof {
                    lemma_lookup_in_entries(self.entries@, key);
                }
                bank.set_gain(idx, 0);
                proof {
                    lemma_gains_of_update(
                        old(bank).oscs@,
                        idx as int,
                        bank.oscs@[idx as int],
                    );
                    assert(gains_of(bank.oscs@) =~= self.gains_after_key_up(
                        gains_of(old(bank).oscs@),
                        key,
                        is_repeat,
                    ));
                }
            },
            None => {
            },
        }
    }
}

/// Updating one oscillator changes exactly that entry of the gain column.
proof fn lemma_gains_of_update(oscs: Seq<Oscillator>, idx: int, osc: Oscillator)
    requires
        0 <= idx < oscs.len(),
    ensures
        gains_of(oscs.update(idx, osc)) =~= gains_of(oscs).update(idx, osc.gain),
{
    assert forall|j: int| 0 <= j < oscs.len() implies gains_of(oscs.update(idx, osc))[j]
        == gains_of(oscs).update(idx, osc.gain)[j] by {}
}

/// A non-repeat key-down followed by a non-repeat key-up of the same mapped
/// key leaves that oscillator's gain at exactly zero and every other gain as
/// it was; with an unmapped key neither event changes anything; and a
/// repeat-flagged event of either kind changes nothing.
pub proof fn lemma_key_down_then_up(r: NoteRouter, gains: Seq<i64>, key: u32)
    requires
        r.wf(),
        forall|i: int| 0 <= i < r.entries@.len() ==> (#[trigger] r.entries@[i]).1 < gains.len(),
    ensures
        lookup_spec(r.entries@, key) matches Some(idx) ==> ({
            let down = r.gains_after_key_down(gains, key, false);
            let up = r.gains_after_key_up(down, key, false);
            &&& down[idx as int] == r.volume
            &&& up[idx as int] == 0
            &&& forall|j: int| 0 <= j < gains.len() && j != idx ==> up[j] == gains[j]
        }),
        lookup_spec(r.entries@, key) is None ==> r.gains_after_key_down(gains, key, false)
            == gains && r.gains_after_key_up(gains, key, false) == gains,
        r.gains_after_key_down(gains, key, true) == gains,
        r.gains_after_key_up(gains, key, true) == gains,
{
    if lookup_spec(r.entries@, key) is Some {
        lemma_lookup_in_entries(r.entries@, key);
    }
}

/// A successful lookup returns an index that stands in the table, so a
/// well-formed router only ever addresses oscillators the bank has.
pub proof fn lemma_lookup_in_entries(entries: Seq<(u32, usize)>, key: u32)
    ensures
        lookup_spec(entries, key) matches Some(idx) ==> exists|i: int|
            0 <= i < entries.len() && #[trigger] entries[i] == (key, idx),
    decreases entries.len(),
{
    if entries.len() > 0 && entries[0].0 != key {
        lemma_lookup_in_entries(entries.drop_first(), key);
        match lookup_spec(entries, key) {
            Some(idx) => {
                let i = choose|i: int|
                    0 <= i < entries.drop_first().len() && #[trigger] entries.drop_first()[i] == (
                    key,
                    idx,
                );
                assert(entries[i + 1] == (key, idx));
            },
            None => {},
        }
    }
}

/// The spec of the fixed key table: keys `1` through `9` address
/// oscillators `0` through `8`; oscillators `9` to `11` are reserved
/// headroom no key reaches.
pub open spec fn default_key_seq() -> Seq<(u32, usize)> {
    Seq::new(9, |i: int| ((i + 1) as u32, i as usize))
}

/// The fixed nine-key table.
pub fn default_key_table() -> (t: Vec<(u32, usize)>)
    ensures
        t@ == default_key_seq(),
        t@.len() == 9,
        forall|i: int| 0 <= i < t@.len() ==> #[trigger] t@[i] == (((i + 1) as u32, i as usize)),
{
    let mut t: Vec<(u32, usize)> = Vec::new();
    let mut i: usize = 0;
    while i < 9
        invariant
            i <= 9,
            t@.len() == i,
            forall|s: int| 0 <= s < i ==> #[trigger] t@[s] == (((s + 1) as u32, s as usize)),
        decreases 9 - i,
    {
        t.push(((i + 1) as u32, i));
        i = i + 1;
    }
    proof {
        assert(t@ =~= default_key_seq());
    }
    t
}

/// A router over the fixed key table at the fixed active volume.
pub fn default_router() -> (r: NoteRouter)
    ensures
        r.wf(),
        r.entries@ == default_key_seq(),
        r.volume == ACTIVE_VOLUME,
{
    let entries = default_key_table();
    NoteRouter::new(entries, ACTIVE_VOLUME)
}

} // verus!
