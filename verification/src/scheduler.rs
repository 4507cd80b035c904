//! Frame pacing and a rolling frame-rate estimate.
//!
//! The visual loop calls [`FrameScheduler::tick`] once per iteration with the
//! current timestamp in nanoseconds; it returns the mean of a bounded window
//! of instantaneous frame-rate samples. [`FrameScheduler::wait_duration_nanos`]
//! computes how long the loop must still sleep to hold a target rate; the
//! caller performs the sleep itself.
//!
//! Frame rates are carried in millihertz (thousandths of a frame per second),
//! so `50_000` stands for 50 frames per second.

use vstd::prelude::*;

verus! {

/// How many instantaneous frame-rate samples the rolling window keeps.
pub const WINDOW_CAPACITY: usize = 10;

/// Nanoseconds in one second.
pub const NANOS_PER_SEC: u64 = 1_000_000_000;

/// Numerator for an instantaneous frame rate in millihertz:
/// a frame delta of `d` nanoseconds gives `FPS_MILLI_NUMER / d`.
pub const FPS_MILLI_NUMER: u64 = 1_000_000_000_000;

/// Sum of a window's samples.
pub open spec fn window_sum(w: Seq<u64>) -> int
    decreases w.len(),
{
    if w.len() == 0 {
        0
    } else {
        window_sum(w.drop_last()) + w.last()
    }
}

/// The window after one new sample arrives: the sample is appended and,
/// if the window already held `WINDOW_CAPACITY` samples, the oldest
/// (front) sample is evicted.
pub open spec fn slide(w: Seq<u64>, v: u64) -> Seq<u64> {
    if w.len() < WINDOW_CAPACITY {
        w.push(v)
    } else {
        w.skip(1).push(v)
    }
}

/// Paces the visual loop to a target rate and keeps a rolling estimate of
/// the achieved frame rate over the last `WINDOW_CAPACITY` iterations.
pub struct FrameScheduler {
    /// Timestamp of the previous tick, in nanoseconds; `None` before the
    /// first tick.
    pub prev_tick: Option<u64>,
    /// Most recent instantaneous frame-rate samples, in millihertz,
    /// oldest first.
    pub window: Vec<u64>,
}

impl FrameScheduler {
    /// The window never outgrows its capacity, every sample fits the
    /// millihertz numerator, and no sample can precede the first tick.
    pub open spec fn wf(self) -> bool {
        &&& self.window@.len() <= WINDOW_CAPACITY
        &&& forall|i: int| 0 <= i < self.window@.len() ==> self.window@[i] <= FPS_MILLI_NUMER
        &&& (self.prev_tick is None ==> self.window@.len() == 0)
    }

    /// A scheduler with no prior tick and an empty window.
    pub fn new() -> (s: FrameScheduler)
        ensures
            s.wf(),
            s.prev_tick is None,
            s.window@.len() == 0,
    {
        FrameScheduler { prev_tick: None, window: Vec::new() }
    }

    /// Record one loop iteration at timestamp `now` (nanoseconds) and report
    /// the rolling mean frame rate in millihertz.
    ///
    /// The first tick only seeds the previous timestamp: the window stays
    /// empty and no average is reported. Every later tick computes the
    /// instantaneous rate `FPS_MILLI_NUMER / (now - prev)`, slides it into
    /// the window, and reports the arithmetic mean (integer division) of the
    /// window's contents.
    pub fn tick(&mut self, now: u64) -> (r: Option<u64>)
        requires
            old(self).wf(),
            old(self).prev_tick matches Some(p) ==> now > p,
        ensures
            final(self).wf(),
            final(self).prev_tick == Some(now),
            old(self).prev_tick is None ==> final(self).window@ == old(self).window@ && r is None,
            old(self).prev_tick matches Some(p) ==> ({
                let inst = FPS_MILLI_NUMER / (now - p) as u64;
                &&& final(self).window@ == slide(old(self).window@, inst)
                &&& r == Some((window_sum(final(self).window@) / final(self).window@.len() as int) as u64)
            }),
    {
        match self.prev_tick {
            None => {
                self.prev_tick = Some(now);
                None
            },
            Some(p) => {
                let delta = now - p;
                let inst = FPS_MILLI_NUMER / delta;
                if self.window.len() == WINDOW_CAPACITY {
                    self.window.remove(0);
                    proof {
                        assert(self.window@ =~= old(self).window@.skip(1));
                    }
                }
                self.window.push(inst);
                self.prev_tick = Some(now);
                let total = sum_samples(&self.window);
                let count = self.window.len() as u64;
                Some(total / count)
            },
        }
    }

    /// How long the loop must still sleep, in nanoseconds, so that the frame
    /// begun at `frame_start` lasts at least `target_interval`. A frame that
    /// already met or overran the interval waits zero: overruns are not
    /// compensated.
    pub fn wait_duration_nanos(frame_start: u64, now: u64, target_interval: u64) -> (wait: u64)
        requires
            frame_start <= now,
        ensures
            now - frame_start >= target_interval ==> wait == 0,
            now - frame_start < target_interval ==> wait == target_interval - (now - frame_start),
    {
        let elapsed = now - frame_start;
        if elapsed >= target_interval {
            0
        } else {
            target_interval - elapsed
        }
    }

    /// The pacing interval, in nanoseconds, for a target rate in frames per
    /// second.
    pub fn target_interval_nanos(target_fps: u32) -> (interval: u64)
        requires
            target_fps > 0,
        ensures
            interval == NANOS_PER_SEC / target_fps as u64,
    {
        NANOS_PER_SEC / target_fps as u64
    }
}

/// How the window slides: below capacity a new sample only appends, so the
/// window holds exactly the samples seen so far; at capacity the oldest
/// sample is evicted, every survivor moves up one place, and the newest
/// stands at the end. The window never outgrows its capacity.
pub proof fn lemma_window_slide(w: Seq<u64>, v: u64)
    requires
        w.len() <= WINDOW_CAPACITY,
    ensures
        slide(w, v).len() == if w.len() < WINDOW_CAPACITY {
            w.len() + 1
        } else {
            WINDOW_CAPACITY as nat
        },
        slide(w, v).last() == v,
        w.len() < WINDOW_CAPACITY ==> forall|i: int| 0 <= i < w.len() ==> #[trigger] slide(
            w,
            v,
        )[i] == w[i],
        w.len() == WINDOW_CAPACITY ==> forall|i: int| 0 <= i < WINDOW_CAPACITY - 1
            ==> #[trigger] slide(w, v)[i] == w[i + 1],
{
}

/// Sum of the window's samples; fits `u64` because the window holds at most
/// `WINDOW_CAPACITY` samples of at most `FPS_MILLI_NUMER` each.
fn sum_samples(w: &Vec<u64>) -> (total: u64)
    requires
        w@.len() <= WINDOW_CAPACITY,
        forall|i: int| 0 <= i < w@.len() ==> w@[i] <= FPS_MILLI_NUMER,
    ensures
        total == window_sum(w@),
{
    let mut total: u64 = 0;
    let mut i: usize = 0;
    while i < w.len()
        invariant
            i <= w@.len(),
            w@.len() <= WINDOW_CAPACITY,
            forall|j: int| 0 <= j < w@.len() ==> w@[j] <= FPS_MILLI_NUMER,
            total == window_sum(w@.take(i as int)),
            total <= i * FPS_MILLI_NUMER,
        decreases w@.len() - i,
    {
        proof {
            assert(w@.take(i + 1).drop_last() =~= w@.take(i as int));
            assert(w@.take(i + 1).last() == w@[i as int]);
        }
        total = total + w[i];
        i = i + 1;
    }
    proof {
        assert(w@.take(w@.len() as int) =~= w@);
    }
    total
}

} // verus!
