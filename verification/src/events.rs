//! Input events and the per-frame state update they drive.
//!
//! Each frame drains the pending events: a quit signal or an escape key
//! stops the loop at once (later events of the same batch are abandoned),
//! and every scroll-wheel event grows the radius by five times its vertical
//! delta. Other events change nothing.

use vstd::prelude::*;

verus! {

/// One input event, as the loop driver sees it.
#[derive(Clone, Copy, Debug)]
pub enum Event {
    /// The window was asked to close.
    Quit,
    /// A key went down; `escape` says whether it was the escape key.
    KeyDown { escape: bool },
    /// The scroll wheel moved vertically by `delta_y` notches.
    ScrollWheel { delta_y: i32 },
    /// Any other input, which the demo ignores.
    Other,
}

/// Whether this event stops the loop.
pub open spec fn is_stop_event(e: Event) -> bool {
    match e {
        Event::Quit => true,
        Event::KeyDown { escape } => escape,
        _ => false,
    }
}

/// How much this event changes the radius.
pub open spec fn event_delta(e: Event) -> int {
    match e {
        Event::ScrollWheel { delta_y } => 5 * delta_y as int,
        _ => 0,
    }
}

/// The position of the first stopping event, or the length when none stops.
pub open spec fn stop_index(events: Seq<Event>) -> int
    decreases events.len(),
{
    if events.len() == 0 {
        0
    } else if is_stop_event(events[0]) {
        0
    } else {
        1 + stop_index(events.skip(1))
    }
}

/// The radius after the first `n` events have been applied to `r0`.
pub open spec fn radius_after(r0: int, events: Seq<Event>, n: int) -> int
    decreases n,
{
    if n <= 0 {
        r0
    } else {
        radius_after(r0, events, n - 1) + event_delta(events[n - 1])
    }
}

/// The sum of the raw vertical wheel deltas of a batch of events.
pub open spec fn wheel_sum(events: Seq<Event>) -> int
    decreases events.len(),
{
    if events.len() == 0 {
        0
    } else {
        wheel_sum(events.drop_last()) + match events.last() {
            Event::ScrollWheel { delta_y } => delta_y as int,
            _ => 0,
        }
    }
}

/// `stop_index` points at the first stopping event: nothing before it stops,
/// and it stops itself unless the whole batch is free of stopping events.
pub proof fn lemma_stop_index(events: Seq<Event>)
    ensures
        0 <= stop_index(events) <= events.len(),
        stop_index(events) < events.len() ==> is_stop_event(events[stop_index(events)]),
        forall|i: int| 0 <= i < stop_index(events) ==> !is_stop_event(events[i]),
    decreases events.len(),
{
    if events.len() > 0 && !is_stop_event(events[0]) {
        lemma_stop_index(events.skip(1));
        assert forall|i: int| 0 <= i < stop_index(events) implies !is_stop_event(events[i]) by {
            if i > 0 {
                assert(events[i] == events.skip(1)[i - 1]);
            }
        }
    }
}

/// While no stopping event has been seen, `stop_index` lies further on.
pub proof fn lemma_stop_index_at_least(events: Seq<Event>, i: int)
    requires
        0 <= i <= events.len(),
        forall|j: int| 0 <= j < i ==> !is_stop_event(events[j]),
    ensures
        stop_index(events) >= i,
    decreases i,
{
    lemma_stop_index(events);
    if i > 0 {
        assert(!is_stop_event(events[0]));
        assert forall|j: int| 0 <= j < i - 1 implies !is_stop_event(events.skip(1)[j]) by {
            assert(events.skip(1)[j] == events[j + 1]);
        }
        lemma_stop_index_at_least(events.skip(1), i - 1);
        assert(stop_index(events) == 1 + stop_index(events.skip(1)));
    }
}

/// `radius_after` reads only the first `n` events: two batches that agree
/// there agree on the radius.
pub proof fn lemma_radius_after_agrees(r0: int, s1: Seq<Event>, s2: Seq<Event>, n: int)
    requires
        n <= s1.len(),
        n <= s2.len(),
        forall|i: int| 0 <= i < n ==> s1[i] == s2[i],
    ensures
        radius_after(r0, s1, n) == radius_after(r0, s2, n),
    decreases n,
{
    if n > 0 {
        lemma_radius_after_agrees(r0, s1, s2, n - 1);
    }
}

/// Law: a batch of events free of stopping events changes the radius by five
/// times the sum of its wheel deltas, however the deltas are spread over the
/// batch.
pub proof fn lemma_scroll_accumulation(r0: int, events: Seq<Event>)
    ensures
        radius_after(r0, events, events.len() as int) == r0 + 5 * wheel_sum(events),
    decreases events.len(),
{
    if events.len() > 0 {
        lemma_scroll_accumulation(r0, events.drop_last());
        lemma_radius_after_agrees(r0, events, events.drop_last(), events.len() - 1);
    }
}

/// Law: batching does not matter. Applying one batch and then another ends
/// at the same radius as applying their concatenation at once.
pub proof fn lemma_radius_after_concat(r0: int, s1: Seq<Event>, s2: Seq<Event>)
    ensures
        radius_after(r0, s1 + s2, s1.len() + s2.len() as int) == radius_after(
            radius_after(r0, s1, s1.len() as int),
            s2,
            s2.len() as int,
        ),
    decreases s2.len(),
{
    if s2.len() == 0 {
        assert(s1 + s2 =~= s1);
        lemma_radius_after_agrees(r0, s1 + s2, s1, s1.len() as int);
    } else {
        lemma_radius_after_concat(r0, s1, s2.drop_last());
        assert((s1 + s2).drop_last() =~= s1 + s2.drop_last());
        lemma_radius_after_agrees(
            r0,
            s1 + s2,
            s1 + s2.drop_last(),
            s1.len() + s2.len() - 1,
        );
        lemma_radius_after_agrees(
            radius_after(r0, s1, s1.len() as int),
            s2,
            s2.drop_last(),
            s2.len() - 1,
        );
        assert((s1 + s2)[s1.len() + s2.len() - 1] == s2.last());
        assert(s2[s2.len() - 1] == s2.last());
    }
}

/// Whether this event stops the loop.
pub fn event_stops(e: &Event) -> (stop: bool)
    ensures
        stop == is_stop_event(*e),
{
    match e {
        Event::Quit => true,
        Event::KeyDown { escape } => *escape,
        _ => false,
    }
}

/// Applies a batch of pending events to the radius: processes events in
/// order until the first stopping one, adding five times each wheel delta,
/// and reports whether the loop must stop.
pub fn apply_events(radius: i32, events: &Vec<Event>) -> (res: (i32, bool))
    requires
        forall|n: int|
            0 <= n <= stop_index(events@) ==> i32::MIN <= #[trigger] radius_after(
                radius as int,
                events@,
                n,
            ) <= i32::MAX,
    ensures
        res.1 == (stop_index(events@) < events@.len()),
        res.0 as int == radius_after(radius as int, events@, stop_index(events@)),
{
    let mut r = radius;
    let mut i: usize = 0;
    proof {
        lemma_stop_index(events@);
    }
    while i < events.len()
        invariant
            0 <= i <= events@.len(),
            forall|j: int| 0 <= j < i ==> !is_stop_event(events@[j]),
            r as int == radius_after(radius as int, events@, i as int),
            forall|n: int|
                0 <= n <= stop_index(events@) ==> i32::MIN <= #[trigger] radius_after(
                    radius as int,
                    events@,
                    n,
                ) <= i32::MAX,
            stop_index(events@) <= events@.len(),
            stop_index(events@) < events@.len() ==> is_stop_event(
                events@[stop_index(events@)],
            ),
            forall|j: int| 0 <= j < stop_index(events@) ==> !is_stop_event(events@[j]),
        decreases events@.len() - i,
    {
        let e = events[i];
        if event_stops(&e) {
            proof {
                lemma_stop_index_at_least(events@, i as int);
            }
            return (r, true);
        }
        proof {
            lemma_stop_index_at_least(events@, i as int + 1);
        }
        let step: i64 = match e {
            Event::ScrollWheel { delta_y } => 5 * (delta_y as i64),
            _ => 0,
        };
        let next: i64 = (r as i64) + step;
        r = next as i32;
        i = i + 1;
    }
    (r, false)
}

} // verus!
