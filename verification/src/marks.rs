//! Editing the highlight marks of a clip in the full-screen view, and the
//! small decisions around the timeline.
//!
//! A Ctrl+click on the timeline sets the start (clearing the end), the next
//! one sets the end; marks typed into the fields are set one at a time. In
//! both cases the two marks are swapped when the end would come before the
//! start.
use vstd::prelude::*;

verus! {

/// The marks being edited and which one the next timeline click sets.
#[derive(Clone, Copy, Debug, PartialEq, Eq, Structural)]
pub struct MarkEditor {
    pub start: Option<u64>,
    pub end: Option<u64>,
    pub next_is_start: bool,
}

/// Both marks set and in order (the start not after the end).
pub open spec fn ordered(start: Option<u64>, end: Option<u64>) -> bool {
    match (start, end) {
        (Some(a), Some(b)) => a <= b,
        _ => true,
    }
}

/// A timeline click at `ms`.
pub open spec fn spec_ctrl_mark(e: MarkEditor, ms: u64) -> MarkEditor {
    if e.next_is_start {
        MarkEditor { start: Some(ms), end: None, next_is_start: false }
    } else {
        let start = match e.start {
            Some(s) => s,
            None => 0,
        };
        if ms >= start {
            MarkEditor { start: e.start, end: Some(ms), next_is_start: true }
        } else {
            MarkEditor { start: Some(ms), end: Some(start), next_is_start: true }
        }
    }
}

/// Setting one mark from its field (`None` clears it), then ordering.
pub open spec fn spec_set_mark(e: MarkEditor, is_start: bool, ms: Option<u64>) -> MarkEditor {
    let (s, t) = if is_start {
        (ms, e.end)
    } else {
        (e.start, ms)
    };
    match (s, t) {
        (Some(a), Some(b)) => if a > b {
            MarkEditor { start: Some(b), end: Some(a), ..e }
        } else {
            MarkEditor { start: s, end: t, ..e }
        },
        _ => MarkEditor { start: s, end: t, ..e },
    }
}

impl MarkEditor {
    /// An editor for the marks `start` and `end` of a newly shown clip; the
    /// next timeline click sets the start.
    pub fn new(start: Option<u64>, end: Option<u64>) -> (r: MarkEditor)
        ensures
            r == (MarkEditor { start, end, next_is_start: true }),
    {
        MarkEditor { start, end, next_is_start: true }
    }

    /// Ctrl+click on the timeline at `ms`: the first click sets the start and
    /// clears the end, the next sets the end; if the end falls before the
    /// start, the old start becomes the end.
    pub fn ctrl_mark(&mut self, ms: u64)
        ensures
            *final(self) == spec_ctrl_mark(*old(self), ms),
    {
        if self.next_is_start {
            self.start = Some(ms);
            self.end = None;
            self.next_is_start = false;
        } else {
            let start = match self.start {
                Some(s) => s,
                None => 0,
            };
            if ms >= start {
                self.end = Some(ms);
            } else {
                self.end = Some(start);
                self.start = Some(ms);
            }
            self.next_is_start = true;
        }
    }

    /// Sets the start (`is_start`) or the end mark to `ms` (`None` clears
    /// it); the marks are swapped if they end up out of order.
    pub fn set_mark(&mut self, is_start: bool, ms: Option<u64>)
        ensures
            *final(self) == spec_set_mark(*old(self), is_start, ms),
    {
        if is_start {
            self.start = ms;
        } else {
            self.end = ms;
        }
        if let (Some(a), Some(b)) = (self.start, self.end) {
            if a > b {
                self.start = Some(b);
                self.end = Some(a);
            }
        }
    }

    /// Clears both marks; the next click sets the start.
    pub fn clear_marks(&mut self)
        ensures
            *final(self) == (MarkEditor { start: None, end: None, next_is_start: true }),
    {
        self.start = None;
        self.end = None;
        self.next_is_start = true;
    }
}

/// Two timeline clicks on a fresh selection mark the segment between them,
/// whichever comes first.
pub proof fn law_two_clicks_mark_segment(e: MarkEditor, a: u64, b: u64)
    requires
        e.next_is_start,
    ensures
        ({
            let r = spec_ctrl_mark(spec_ctrl_mark(e, a), b);
            &&& r.next_is_start
            &&& a <= b ==> r.start == Some(a) && r.end == Some(b)
            &&& b < a ==> r.start == Some(b) && r.end == Some(a)
        }),
{
}

/// Setting a mark from its field never leaves the marks out of order, and
/// does not change which mark the next timeline click sets.
pub proof fn law_set_mark_orders(e: MarkEditor, is_start: bool, ms: Option<u64>)
    ensures
        ordered(spec_set_mark(e, is_start, ms).start, spec_set_mark(e, is_start, ms).end),
        spec_set_mark(e, is_start, ms).next_is_start == e.next_is_start,
{
}

/// Setting a mark from its field keeps both values that the edit leaves
/// (the typed one and the other mark), only putting them in order: when both
/// are set the earlier becomes the start and the later the end; when one is
/// unset, each mark is what the edit made it. No mark is ever dropped, and
/// which mark the next timeline click sets does not change.
pub proof fn law_set_mark_keeps_both_values(e: MarkEditor, is_start: bool, ms: Option<u64>)
    ensures
        ({
            let s = if is_start {
                ms
            } else {
                e.start
            };
            let t = if is_start {
                e.end
            } else {
                ms
            };
            let r = spec_set_mark(e, is_start, ms);
            &&& (s is Some && t is Some) ==> ((r.start == s && r.end == t) || (r.start == t
                && r.end == s))
            &&& (s is Some && t is Some) ==> r.start.unwrap() <= r.end.unwrap()
            &&& !(s is Some && t is Some) ==> r.start == s && r.end == t
            &&& r.next_is_start == e.next_is_start
        }),
{
}

/// A timeline click never leaves the marks out of order.
pub proof fn law_ctrl_mark_orders(e: MarkEditor, ms: u64)
    ensures
        ordered(spec_ctrl_mark(e, ms).start, spec_ctrl_mark(e, ms).end),
{
}

/// The length shown for a clip: the probed duration when known, else what
/// the player reports.
pub fn effective_duration(probed_ms: u64, player_ms: u64) -> (r: u64)
    ensures
        r == (if probed_ms > 0 {
            probed_ms
        } else {
            player_ms
        }),
{
    if probed_ms > 0 {
        probed_ms
    } else {
        player_ms
    }
}

/// Dragging on the timeline: whether a drag is on, and the position it
/// points at.
#[derive(Clone, Copy, Debug, PartialEq, Eq, Structural)]
pub struct Scrub {
    pub dragging: bool,
    pub target: Option<u64>,
}

impl Scrub {
    /// Ends a drag; returns the position to seek to, if the drag pointed at
    /// one. Outside a drag nothing happens.
    pub fn end_scrub(&mut self) -> (r: Option<u64>)
        ensures
            (*final(self), r) == spec_end(*old(self)),
    {
        if !self.dragging {
            return None;
        }
        self.dragging = false;
        let t = self.target;
        self.target = None;
        t
    }
}

/// What a left press on the timeline at `ms` does.
#[derive(Clone, Copy, Debug, PartialEq, Eq, Structural)]
pub enum TimelinePress {
    /// With Ctrl held: set a highlight mark there (see `ctrl_mark`).
    Mark(u64),
    /// Otherwise: start dragging, seeking there (a user seek).
    Seek(u64),
}

impl Scrub {
    /// No drag.
    pub fn new() -> (r: Scrub)
        ensures
            r == (Scrub { dragging: false, target: None }),
    {
        Scrub { dragging: false, target: None }
    }

    /// A left press on the timeline at `ms`, with or without Ctrl.
    pub fn press(&mut self, ms: u64, ctrl: bool) -> (r: TimelinePress)
        ensures
            (*final(self), r) == spec_press(*old(self), ms, ctrl),
    {
        if ctrl {
            TimelinePress::Mark(ms)
        } else {
            self.dragging = true;
            self.target = Some(ms);
            TimelinePress::Seek(ms)
        }
    }

    /// The pointer moved to `ms` with the left button `held`: a drag follows
    /// it. Returns `true` when the target moved.
    pub fn drag(&mut self, ms: u64, held: bool) -> (r: bool)
        ensures
            r == (old(self).dragging && held),
            *final(self) == spec_drag(*old(self), ms, held),
    {
        if self.dragging && held {
            self.target = Some(ms);
            true
        } else {
            false
        }
    }

    /// The position the transport shows: where a drag points, else the
    /// player's position.
    pub fn shown_position(&self, player_ms: u64) -> (r: u64)
        ensures
            r == (match self.target {
                Some(t) => t,
                None => player_ms,
            }),
    {
        match self.target {
            Some(t) => t,
            None => player_ms,
        }
    }
}

/// A left press at `ms`: with Ctrl it marks, otherwise a drag starts there.
pub open spec fn spec_press(s: Scrub, ms: u64, ctrl: bool) -> (Scrub, TimelinePress) {
    if ctrl {
        (s, TimelinePress::Mark(ms))
    } else {
        (Scrub { dragging: true, target: Some(ms) }, TimelinePress::Seek(ms))
    }
}

/// The pointer moves to `ms`, the left button `held` or not.
pub open spec fn spec_drag(s: Scrub, ms: u64, held: bool) -> Scrub {
    if s.dragging && held {
        Scrub { dragging: true, target: Some(ms) }
    } else {
        s
    }
}

/// The button is released: a drag ends with a seek to where it points.
pub open spec fn spec_end(s: Scrub) -> (Scrub, Option<u64>) {
    if s.dragging {
        (Scrub { dragging: false, target: None }, s.target)
    } else {
        (s, None)
    }
}

/// Pressing on the timeline at `a`, dragging to `b` and releasing seeks to
/// `b`; releasing without dragging seeks to `a`; afterwards no drag is on.
pub proof fn law_drag_seeks_to_release_point(s: Scrub, a: u64, b: u64)
    ensures
        spec_end(spec_drag(spec_press(s, a, false).0, b, true)).1 == Some(b),
        spec_end(spec_press(s, a, false).0).1 == Some(a),
        !spec_end(spec_drag(spec_press(s, a, false).0, b, true)).0.dragging,
{
}

} // verus!
