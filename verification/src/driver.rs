//! The render-loop driver.
//!
//! One call of [`Demo::frame`] is one iteration of the loop: it drains the
//! pending events (stopping at a quit or escape signal), moves the circle's
//! center to the cursor, advances the hue counter when the background
//! cycles, tallies the frame for the frames-per-second label, and emits the
//! circle's pixels. The caller performs the drawing, the presenting and the
//! pacing around it.

use vstd::prelude::*;
use crate::events::Event;
use crate::events::apply_events;
use crate::events::is_stop_event;
use crate::events::lemma_stop_index;
use crate::events::lemma_stop_index_at_least;
use crate::events::radius_after;
use crate::events::stop_index;
use crate::fps::FpsCounter;
use crate::fps::fps_step;
use crate::raster::pixel_seq;
use crate::raster::raster_circle;
use crate::raster::spec_circle_points;

verus! {

/// Nanoseconds each frame lasts under manual pacing: a sixtieth of a second.
pub const FRAME_INTERVAL_NANOS: u64 = 1_000_000_000 / 60;

/// How the loop paces its frames: an explicit sleep of
/// [`FRAME_INTERVAL_NANOS`] per iteration, or the display's own
/// vertical-sync blocking inside the present call.
#[derive(Clone, Copy, Debug, PartialEq, Eq, Structural)]
pub enum PacingMode {
    ManualSleep,
    ExternalVsync,
}

/// What the background is cleared to: a fixed color, or a hue that cycles a
/// little further every frame.
#[derive(Clone, Copy, Debug, PartialEq, Eq, Structural)]
pub enum BackgroundMode {
    StaticColor,
    CyclingHue,
}

/// The per-frame demo state: the circle's radius and center.
#[derive(Clone, Copy, Debug, PartialEq, Eq, Structural)]
pub struct FrameState {
    pub radius: i32,
    pub center_x: i32,
    pub center_y: i32,
}

/// Everything the loop owns between frames.
pub struct Demo {
    pub state: FrameState,
    pub fps: FpsCounter,
    pub background: BackgroundMode,
    pub pacing: PacingMode,
    /// The hue-cycle counter, always in `0..255`.
    pub hue: u8,
}

/// What one frame asks its caller to do: stop, or clear to the given
/// color, draw the label and these pixels, and present.
pub struct FrameOutput {
    pub stop: bool,
    pub bg_red: u8,
    pub bg_green: u8,
    pub bg_blue: u8,
    pub pixels: Vec<(i64, i64)>,
}

/// The clear color for a background mode at a given hue: black when static,
/// else the hue fading from blue to red as the counter grows.
pub open spec fn spec_background(mode: BackgroundMode, hue: u8) -> (int, int, int) {
    match mode {
        BackgroundMode::StaticColor => (0, 0, 0),
        BackgroundMode::CyclingHue => (hue as int, 0, 255 - hue as int),
    }
}

/// What a frame needs of its inputs: room to tally one more frame, a clock
/// that has not gone backwards, and a radius that stays within machine
/// bounds under every processed event.
pub open spec fn frame_pre(demo: Demo, events: Seq<Event>, now_ms: u64) -> bool {
    &&& demo.fps.frame_count < u64::MAX
    &&& now_ms >= demo.fps.window_start_ms
    &&& forall|n: int|
        0 <= n <= stop_index(events) ==> i32::MIN <= #[trigger] radius_after(
            demo.state.radius as int,
            events,
            n,
        ) <= i32::MAX
}

/// What one frame does. On a stop nothing changes and nothing is drawn.
/// Otherwise the radius has absorbed every wheel delta, the center sits at
/// the cursor, the frames-per-second counter has stepped once at `now_ms`,
/// the hue has advanced exactly when the background cycles, the clear color
/// matches the mode, and the pixels are the circle at the new center and
/// radius.
pub open spec fn frame_post(
    pre: Demo,
    post: Demo,
    events: Seq<Event>,
    cursor_x: int,
    cursor_y: int,
    now_ms: int,
    out: FrameOutput,
) -> bool {
    &&& out.stop == (stop_index(events) < events.len())
    &&& post.background == pre.background
    &&& post.pacing == pre.pacing
    &&& (out.stop ==> post == pre && out.pixels@.len() == 0)
    &&& (!out.stop ==> {
        &&& post.state.radius as int == radius_after(
            pre.state.radius as int,
            events,
            events.len() as int,
        )
        &&& post.state.center_x == cursor_x
        &&& post.state.center_y == cursor_y
        &&& post.fps.model() == fps_step(pre.fps.model(), now_ms)
        &&& post.hue as int == (if pre.background is CyclingHue {
            (pre.hue + 1) % 255
        } else {
            pre.hue as int
        })
        &&& (out.bg_red as int, out.bg_green as int, out.bg_blue as int) == spec_background(
            pre.background,
            post.hue,
        )
        &&& pixel_seq(out.pixels@) == spec_circle_points(
            cursor_x,
            cursor_y,
            post.state.radius as int,
        )
    })
}

/// Advances the hue-cycle counter one step, wrapping past `254` back to
/// zero.
pub fn next_hue(hue: u8) -> (next: u8)
    requires
        hue < 255,
    ensures
        next as int == (hue + 1) % 255,
{
    if hue >= 254 {
        0
    } else {
        hue + 1
    }
}

/// Decides whether a batch of events keeps the radius within machine bounds
/// all the way to its stopping point, so that a frame may process it.
pub fn events_in_bounds(radius: i32, events: &Vec<Event>) -> (ok: bool)
    ensures
        ok == (forall|n: int|
            0 <= n <= stop_index(events@) ==> i32::MIN <= #[trigger] radius_after(
                radius as int,
                events@,
                n,
            ) <= i32::MAX),
{
    let mut r: i64 = radius as i64;
    let mut i: usize = 0;
    proof {
        lemma_stop_index(events@);
    }
    while i < events.len()
        invariant
            0 <= i <= events@.len(),
            i32::MIN <= r <= i32::MAX,
            forall|j: int| 0 <= j < i ==> !is_stop_event(events@[j]),
            r as int == radius_after(radius as int, events@, i as int),
            forall|n: int|
                0 <= n <= i ==> i32::MIN <= #[trigger] radius_after(
                    radius as int,
                    events@,
                    n,
                ) <= i32::MAX,
            stop_index(events@) <= events@.len(),
            stop_index(events@) < events@.len() ==> is_stop_event(events@[stop_index(events@)]),
            forall|j: int| 0 <= j < stop_index(events@) ==> !is_stop_event(events@[j]),
        decreases events@.len() - i,
    {
        let e = events[i];
        if crate::events::event_stops(&e) {
            proof {
                lemma_stop_index_at_least(events@, i as int);
            }
            return true;
        }
        proof {
            lemma_stop_index_at_least(events@, i as int + 1);
        }
        let step: i64 = match e {
            Event::ScrollWheel { delta_y } => 5 * (delta_y as i64),
            _ => 0,
        };
        let next: i64 = r + step;
        if next < i32::MIN as i64 || next > i32::MAX as i64 {
            proof {
                assert(radius_after(radius as int, events@, i as int + 1) == next as int);
                assert(!(i32::MIN <= radius_after(radius as int, events@, i as int + 1)
                    <= i32::MAX));
            }
            return false;
        }
        r = next;
        i = i + 1;
    }
    true
}

impl Demo {
    /// The demo's invariant: the hue counter stays in its cycle.
    pub open spec fn wf(&self) -> bool {
        self.hue < 255
    }

    /// A fresh demo with the given starting radius and modes, its center at
    /// the origin and its first measuring window opening at `now_ms`.
    pub fn new(radius: i32, background: BackgroundMode, pacing: PacingMode, now_ms: u64) -> (demo:
        Demo)
        ensures
            demo.wf(),
            demo.state == (FrameState { radius, center_x: 0, center_y: 0 }),
            demo.fps.frame_count == 0,
            demo.fps.window_start_ms == now_ms,
            demo.fps.label@ == "FPS: "@,
            demo.background == background,
            demo.pacing == pacing,
            demo.hue == 0,
    {
        Demo {
            state: FrameState { radius, center_x: 0, center_y: 0 },
            fps: FpsCounter::new(now_ms),
            background,
            pacing,
            hue: 0,
        }
    }

    /// Runs one iteration of the render loop over the drained events, the
    /// cursor position and the current instant.
    pub fn frame(&mut self, events: &Vec<Event>, cursor_x: i32, cursor_y: i32, now_ms: u64) -> (out:
        FrameOutput)
        requires
            old(self).wf(),
            frame_pre(*old(self), events@, now_ms),
        ensures
            final(self).wf(),
            frame_post(
                *old(self),
                *final(self),
                events@,
                cursor_x as int,
                cursor_y as int,
                now_ms as int,
                out,
            ),
    {
        let (new_radius, stop) = apply_events(self.state.radius, events);
        if stop {
            return FrameOutput { stop: true, bg_red: 0, bg_green: 0, bg_blue: 0, pixels: Vec::new() };
        }
        proof {
            lemma_stop_index(events@);
        }
        self.state.radius = new_radius;
        self.state.center_x = cursor_x;
        self.state.center_y = cursor_y;
        let (bg_red, bg_green, bg_blue) = match self.background {
            BackgroundMode::StaticColor => (0u8, 0u8, 0u8),
            BackgroundMode::CyclingHue => {
                self.hue = next_hue(self.hue);
                (self.hue, 0u8, 255 - self.hue)
            },
        };
        self.fps.frame(now_ms);
        let pixels = raster_circle(cursor_x, cursor_y, new_radius);
        FrameOutput { stop: false, bg_red, bg_green, bg_blue, pixels }
    }

    /// Tests a frame's inputs first and runs it only when they are in
    /// bounds: `None` reports inputs no frame may process (and changes
    /// nothing), exactly when [`frame_pre`] fails of them.
    pub fn try_frame(
        &mut self,
        events: &Vec<Event>,
        cursor_x: i32,
        cursor_y: i32,
        now_ms: u64,
    ) -> (out: Option<FrameOutput>)
        requires
            old(self).wf(),
        ensures
            final(self).wf(),
            out is Some <==> frame_pre(*old(self), events@, now_ms),
            out is None ==> *final(self) == *old(self),
            (out matches Some(o) ==> frame_post(
                *old(self),
                *final(self),
                events@,
                cursor_x as int,
                cursor_y as int,
                now_ms as int,
                o,
            )),
    {
        if !(self.fps.frame_count < u64::MAX) {
            return None;
        }
        if now_ms < self.fps.window_start_ms {
            return None;
        }
        if !events_in_bounds(self.state.radius, events) {
            return None;
        }
        Some(self.frame(events, cursor_x, cursor_y, now_ms))
    }
}

} // verus!
