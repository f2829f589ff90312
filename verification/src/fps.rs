//! The frames-per-second counter.
//!
//! The counter tallies one frame per loop iteration. Once at least a full
//! second has elapsed since the start of the current measuring window, the
//! label becomes `"FPS: "` followed by the tally gathered during that
//! window, the tally restarts at zero and a new window opens at the current
//! instant. Within a window the label never changes. The very first window
//! starts when the counter is created, so the first label reports the count
//! accumulated from then on.

use vstd::prelude::*;
use vstd::string::StringExecFns;
use crate::digits::spec_decimal;
use crate::digits::u64_to_string;

verus! {

/// Milliseconds in the measuring window.
pub const WINDOW_MS: u64 = 1000;

/// The mathematical content of a counter: the tally, the instant the
/// current window opened, and the characters of the label.
pub struct FpsModel {
    pub frame_count: int,
    pub window_start: int,
    pub label: Seq<char>,
}

/// The label text for a tally of `c` frames.
pub open spec fn spec_label(c: nat) -> Seq<char> {
    "FPS: "@ + spec_decimal(c)
}

/// One frame of the counter, at instant `now`: the tally grows by one; if
/// the window is over, the label takes the grown tally, the tally restarts
/// and a new window opens at `now`.
pub open spec fn fps_step(m: FpsModel, now: int) -> FpsModel {
    let c = m.frame_count + 1;
    if now < m.window_start + WINDOW_MS {
        FpsModel { frame_count: c, window_start: m.window_start, label: m.label }
    } else {
        FpsModel { frame_count: 0, window_start: now, label: spec_label(c as nat) }
    }
}

/// A whole run of frames, at the given instants in order.
pub open spec fn fps_run(m: FpsModel, times: Seq<int>) -> FpsModel
    decreases times.len(),
{
    if times.len() == 0 {
        m
    } else {
        fps_run(fps_step(m, times[0]), times.skip(1))
    }
}

/// Law: the label updates at most once per elapsed second. As long as every
/// frame falls before the current window is a second old, any number of
/// frames leaves the label (and the window) unchanged.
pub proof fn lemma_label_stable_within_second(m: FpsModel, times: Seq<int>)
    requires
        forall|i: int| 0 <= i < times.len() ==> times[i] < m.window_start + WINDOW_MS,
    ensures
        fps_run(m, times).label == m.label,
        fps_run(m, times).window_start == m.window_start,
    decreases times.len(),
{
    if times.len() > 0 {
        let m1 = fps_step(m, times[0]);
        assert forall|i: int|
            0 <= i < times.skip(1).len() implies times.skip(1)[i] < m1.window_start
            + WINDOW_MS by {
            assert(times.skip(1)[i] == times[i + 1]);
        }
        lemma_label_stable_within_second(m1, times.skip(1));
    }
}

/// The frames-per-second counter the loop driver owns.
pub struct FpsCounter {
    /// Frames tallied in the current window.
    pub frame_count: u64,
    /// The instant, in milliseconds, the current window opened.
    pub window_start_ms: u64,
    /// The label of the last completed window (bare `"FPS: "` before the
    /// first window completes).
    pub label: String,
}

impl FpsCounter {
    /// The mathematical content of this counter.
    pub open spec fn model(&self) -> FpsModel {
        FpsModel {
            frame_count: self.frame_count as int,
            window_start: self.window_start_ms as int,
            label: self.label@,
        }
    }

    /// A fresh counter whose first window opens at `now_ms`.
    pub fn new(now_ms: u64) -> (counter: FpsCounter)
        ensures
            counter.frame_count == 0,
            counter.window_start_ms == now_ms,
            counter.label@ == "FPS: "@,
    {
        FpsCounter { frame_count: 0, window_start_ms: now_ms, label: "FPS: ".to_owned() }
    }

    /// Tallies one frame at instant `now_ms` and refreshes the label when
    /// the current window has lasted a full second.
    pub fn frame(&mut self, now_ms: u64)
        requires
            old(self).frame_count < u64::MAX,
            now_ms >= old(self).window_start_ms,
        ensures
            final(self).model() == fps_step(old(self).model(), now_ms as int),
    {
        self.frame_count = self.frame_count + 1;
        if now_ms - self.window_start_ms >= WINDOW_MS {
            let mut label = "FPS: ".to_owned();
            label.append(u64_to_string(self.frame_count).as_str());
            self.label = label;
            self.frame_count = 0;
            self.window_start_ms = now_ms;
        }
    }
}

} // verus!
