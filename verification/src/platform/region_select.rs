//! Selecting a region of the screen by dragging.

use vstd::prelude::*;

verus! {

/// A drag across the overlay.
#[derive(Clone, Copy, Debug, PartialEq, Eq)]
pub struct DragState {
    /// The button is held.
    pub dragging: bool,
    /// A drag has begun, so a rectangle is drawn.
    pub started: bool,
    pub start: (i32, i32),
    pub cur: (i32, i32),
    /// The button was let go: there is a rectangle.
    pub committed: bool,
    /// The user turned away.
    pub cancelled: bool,
}

/// What happens on the overlay.
#[derive(Clone, Copy, Debug, PartialEq, Eq, Structural)]
pub enum DragEvent {
    LeftDown(i32, i32),
    Move(i32, i32),
    LeftUp(i32, i32),
    RightDown,
    Escape,
}

/// What the overlay does next.
#[derive(Clone, Copy, Debug, PartialEq, Eq, Structural)]
pub struct DragReaction {
    /// Take or give back the mouse.
    pub capture: Option<bool>,
    pub redraw: bool,
    pub close: bool,
}

impl DragState {
    pub fn new() -> (s: DragState)
        ensures
            s == (DragState {
                dragging: false,
                started: false,
                start: (0, 0),
                cur: (0, 0),
                committed: false,
                cancelled: false,
            }),
    {
        DragState {
            dragging: false,
            started: false,
            start: (0, 0),
            cur: (0, 0),
            committed: false,
            cancelled: false,
        }
    }

    /// The state after an event.
    pub open spec fn after(self, event: DragEvent) -> DragState {
        match event {
            DragEvent::LeftDown(x, y) => DragState {
                dragging: true,
                started: true,
                start: (x, y),
                cur: (x, y),
                ..self
            },
            DragEvent::Move(x, y) => if self.dragging {
                DragState { cur: (x, y), ..self }
            } else {
                self
            },
            DragEvent::LeftUp(x, y) => if self.dragging {
                DragState { dragging: false, cur: (x, y), committed: true, ..self }
            } else {
                self
            },
            DragEvent::RightDown => DragState { cancelled: true, ..self },
            DragEvent::Escape => DragState { cancelled: true, ..self },
        }
    }

    /// What the overlay does on an event.
    pub open spec fn reaction(self, event: DragEvent) -> DragReaction {
        match event {
            DragEvent::LeftDown(..) => DragReaction {
                capture: Some(true),
                redraw: true,
                close: false,
            },
            DragEvent::Move(..) => DragReaction {
                capture: None,
                redraw: self.dragging,
                close: false,
            },
            DragEvent::LeftUp(..) => DragReaction {
                capture: Some(false),
                redraw: false,
                close: true,
            },
            DragEvent::RightDown => DragReaction { capture: None, redraw: false, close: true },
            DragEvent::Escape => DragReaction { capture: None, redraw: false, close: true },
        }
    }

    /// Take an event.
    pub fn handle(&mut self, event: DragEvent) -> (r: DragReaction)
        ensures
            *final(self) == old(self).after(event),
            r == old(self).reaction(event),
    {
        match event {
            DragEvent::LeftDown(x, y) => {
                self.dragging = true;
                self.started = true;
                self.start = (x, y);
                self.cur = (x, y);
                DragReaction { capture: Some(true), redraw: true, close: false }
            },
            DragEvent::Move(x, y) => {
                if self.dragging {
                    self.cur = (x, y);
                }
                DragReaction { capture: None, redraw: self.dragging, close: false }
            },
            DragEvent::LeftUp(x, y) => {
                if self.dragging {
                    self.dragging = false;
                    self.cur = (x, y);
                    self.committed = true;
                }
                DragReaction { capture: Some(false), redraw: false, close: true }
            },
            DragEvent::RightDown => {
                self.cancelled = true;
                DragReaction { capture: None, redraw: false, close: true }
            },
            DragEvent::Escape => {
                self.cancelled = true;
                DragReaction { capture: None, redraw: false, close: true }
            },
        }
    }

    /// The rectangle to draw while dragging: left, top, right, bottom.
    pub fn outline(&self) -> (r: Option<(i32, i32, i32, i32)>)
        ensures
            r == if self.started {
                Some(
                    (
                        least(self.start.0, self.cur.0),
                        least(self.start.1, self.cur.1),
                        greatest(self.start.0, self.cur.0),
                        greatest(self.start.1, self.cur.1),
                    ),
                )
            } else {
                None
            },
    {
        if self.started {
            Some(
                (
                    min_of(self.start.0, self.cur.0),
                    min_of(self.start.1, self.cur.1),
                    max_of(self.start.0, self.cur.0),
                    max_of(self.start.1, self.cur.1),
                ),
            )
        } else {
            None
        }
    }

    /// The selected region once the overlay is closed, in screen coordinates;
    /// `screen` is where the overlay was: left, top, width, height.
    pub fn selection(&self, screen: (i32, i32, i32, i32)) -> (r: Option<(i32, i32, i32, i32)>)
        ensures
            r == if self.cancelled || !self.committed {
                None
            } else {
                clipped(
                    (screen.0 + self.start.0, screen.1 + self.start.1),
                    (screen.0 + self.cur.0, screen.1 + self.cur.1),
                    screen,
                )
            },
    {
        if self.cancelled || !self.committed {
            return None;
        }
        let vx: i64 = screen.0 as i64;
        let vy: i64 = screen.1 as i64;
        clip_area(
            (vx + self.start.0 as i64, vy + self.start.1 as i64),
            (vx + self.cur.0 as i64, vy + self.cur.1 as i64),
            screen,
        )
    }
}

pub open spec fn least(a: i32, b: i32) -> i32 {
    if a <= b {
        a
    } else {
        b
    }
}

pub open spec fn greatest(a: i32, b: i32) -> i32 {
    if a >= b {
        a
    } else {
        b
    }
}

fn min_of(a: i32, b: i32) -> (r: i32)
    ensures
        r == least(a, b),
{
    if a <= b {
        a
    } else {
        b
    }
}

fn max_of(a: i32, b: i32) -> (r: i32)
    ensures
        r == greatest(a, b),
{
    if a >= b {
        a
    } else {
        b
    }
}

/// A stretch between two points, cut off at the ends of a span: where it starts
/// and how long it is.
pub open spec fn cut(a: int, b: int, from: int, length: int) -> (int, int) {
    let lo = if a <= b {
        a
    } else {
        b
    };
    let hi = if a <= b {
        b
    } else {
        a
    };
    let start = if lo >= from {
        lo
    } else {
        from
    };
    let end = if hi <= from + length {
        hi
    } else {
        from + length
    };
    (start, end - start)
}

/// The rectangle between two corners, in whichever order they were given, cut
/// off at the edges of `clip`; `None` where nothing of it is left.
pub open spec fn clipped(a: (int, int), b: (int, int), clip: (i32, i32, i32, i32)) -> Option<
    (i32, i32, i32, i32),
> {
    let (left, width) = cut(a.0, b.0, clip.0 as int, clip.2 as int);
    let (top, height) = cut(a.1, b.1, clip.1 as int, clip.3 as int);
    if width >= 1 && height >= 1 {
        Some((left as i32, top as i32, width as i32, height as i32))
    } else {
        None
    }
}

fn cut_span(a: i64, b: i64, from: i32, length: i32) -> (r: (i64, i64))
    requires
        -0x2_0000_0000 <= a <= 0x2_0000_0000,
        -0x2_0000_0000 <= b <= 0x2_0000_0000,
    ensures
        (r.0 as int, r.1 as int) == cut(a as int, b as int, from as int, length as int),
{
    let lo: i64 = if a <= b {
        a
    } else {
        b
    };
    let hi: i64 = if a <= b {
        b
    } else {
        a
    };
    let low: i64 = from as i64;
    let high: i64 = from as i64 + length as i64;
    let start: i64 = if lo >= low {
        lo
    } else {
        low
    };
    let end: i64 = if hi <= high {
        hi
    } else {
        high
    };
    (start, end - start)
}

fn clip_area(a: (i64, i64), b: (i64, i64), clip: (i32, i32, i32, i32)) -> (r: Option<
    (i32, i32, i32, i32),
>)
    requires
        -0x2_0000_0000 <= a.0 <= 0x2_0000_0000,
        -0x2_0000_0000 <= a.1 <= 0x2_0000_0000,
        -0x2_0000_0000 <= b.0 <= 0x2_0000_0000,
        -0x2_0000_0000 <= b.1 <= 0x2_0000_0000,
    ensures
        r == clipped((a.0 as int, a.1 as int), (b.0 as int, b.1 as int), clip),
{
    let (left, width) = cut_span(a.0, b.0, clip.0, clip.2);
    let (top, height) = cut_span(a.1, b.1, clip.1, clip.3);
    if width >= 1 && height >= 1 {
        proof {
            span_fits(a.0 as int, b.0 as int, clip.0, clip.2);
            span_fits(a.1 as int, b.1 as int, clip.1, clip.3);
        }
        Some((left as i32, top as i32, width as i32, height as i32))
    } else {
        None
    }
}

/// What is left of a stretch fits into the span.
pub proof fn span_fits(a: int, b: int, from: i32, length: i32)
    requires
        cut(a, b, from as int, length as int).1 >= 1,
    ensures
        from <= cut(a, b, from as int, length as int).0,
        cut(a, b, from as int, length as int).0 + cut(a, b, from as int, length as int).1 <= from
            + length,
        cut(a, b, from as int, length as int).1 <= i32::MAX,
        a <= i32::MAX && b <= i32::MAX ==> cut(a, b, from as int, length as int).0 <= i32::MAX,
{
}

/// The region between two corners of a drag, within the screen `clip` (left,
/// top, width, height), as left, top, width and height; `None` where it has no
/// area.
pub fn normalize_selection(
    a: (i32, i32),
    b: (i32, i32),
    clip: (i32, i32, i32, i32),
) -> (r: Option<(i32, i32, i32, i32)>)
    ensures
        r == clipped((a.0 as int, a.1 as int), (b.0 as int, b.1 as int), clip),
{
    clip_area((a.0 as i64, a.1 as i64), (b.0 as i64, b.1 as i64), clip)
}

/// It does not matter at which corner a drag begins.
pub proof fn corners_can_be_swapped(a: (int, int), b: (int, int), clip: (i32, i32, i32, i32))
    ensures
        clipped(a, b, clip) == clipped(b, a, clip),
{
}

/// A region lies inside the screen and has an area. (Corners are points that a
/// screen can have.)
pub proof fn regions_lie_on_the_screen(
    a: (i32, i32),
    b: (i32, i32),
    clip: (i32, i32, i32, i32),
)
    ensures
        clipped((a.0 as int, a.1 as int), (b.0 as int, b.1 as int), clip) matches Some(
            (left, top, width, height),
        ) ==> {
            &&& clip.0 <= left
            &&& clip.1 <= top
            &&& left + width <= clip.0 + clip.2
            &&& top + height <= clip.1 + clip.3
            &&& width >= 1
            &&& height >= 1
        },
{
    let (left, width) = cut(a.0 as int, b.0 as int, clip.0 as int, clip.2 as int);
    let (top, height) = cut(a.1 as int, b.1 as int, clip.1 as int, clip.3 as int);
    if width >= 1 && height >= 1 {
        span_fits(a.0 as int, b.0 as int, clip.0, clip.2);
        span_fits(a.1 as int, b.1 as int, clip.1, clip.3);
    }
}

/// A click without a drag selects nothing.
pub proof fn clicks_select_nothing(a: (int, int), clip: (i32, i32, i32, i32))
    ensures
        clipped(a, a, clip) is None,
{
}

/// Turning away selects nothing, whatever else happened before or happens
/// after.
pub proof fn cancelling_is_final(s: DragState, event: DragEvent)
    requires
        s.cancelled,
    ensures
        s.after(event).cancelled,
{
}

/// The half word of a message parameter as a signed coordinate.
pub open spec fn signed_half(n: int) -> int {
    if n >= 0x8000 {
        n - 0x1_0000
    } else {
        n
    }
}

/// The mouse position packed into a message parameter: the lowest two half
/// words, each with its sign.
pub fn lparam_xy(lp: u64) -> (r: (i32, i32))
    ensures
        r.0 == signed_half(lp as int % 0x1_0000),
        r.1 == signed_half(lp as int / 0x1_0000 % 0x1_0000),
{
    let x: i32 = (lp % 0x1_0000) as i32;
    let y: i32 = (lp / 0x1_0000 % 0x1_0000) as i32;
    (
        if x >= 0x8000 {
            x - 0x1_0000
        } else {
            x
        },
        if y >= 0x8000 {
            y - 0x1_0000
        } else {
            y
        },
    )
}

/// A colour as the drawing functions of the system take it: red in the lowest
/// byte.
pub fn rgb(r: u8, g: u8, b: u8) -> (c: u32)
    ensures
        c == r + 0x100 * g + 0x1_0000 * b,
{
    r as u32 + 0x100 * (g as u32) + 0x1_0000 * (b as u32)
}

/// A point lies in what is left of a stretch exactly where it lies between the two
/// ends of the stretch and in the span.
pub proof fn cuts_keep_what_lies_in_both(a: int, b: int, from: int, length: int, x: int)
    ensures
        cut(a, b, from, length).0 <= x < cut(a, b, from, length).0 + cut(a, b, from, length).1
            <==> from <= x < from + length && ((a <= x < b) || (b <= x < a)),
{
}

/// A pixel is selected exactly where it lies between the two corners and on the
/// screen.
pub proof fn selections_hold_the_pixels_between(
    a: (i32, i32),
    b: (i32, i32),
    clip: (i32, i32, i32, i32),
    r: Option<(i32, i32, i32, i32)>,
    x: int,
    y: int,
)
    requires
        call_ensures(normalize_selection, (a, b, clip), r),
    ensures
        (r matches Some((left, top, width, height)) && left <= x < left + width && top <= y < top
            + height) <==> clip.0 <= x < clip.0 + clip.2 && clip.1 <= y < clip.1 + clip.3 && ((a.0
            <= x < b.0) || (b.0 <= x < a.0)) && ((a.1 <= y < b.1) || (b.1 <= y < a.1)),
{
    let h = cut(a.0 as int, b.0 as int, clip.0 as int, clip.2 as int);
    let v = cut(a.1 as int, b.1 as int, clip.1 as int, clip.3 as int);
    cuts_keep_what_lies_in_both(a.0 as int, b.0 as int, clip.0 as int, clip.2 as int, x);
    cuts_keep_what_lies_in_both(a.1 as int, b.1 as int, clip.1 as int, clip.3 as int, y);
    if h.1 >= 1 && v.1 >= 1 {
        span_fits(a.0 as int, b.0 as int, clip.0, clip.2);
        span_fits(a.1 as int, b.1 as int, clip.1, clip.3);
    }
}

/// A drag runs from where the button goes down to where it comes up; where the mouse
/// was in between leaves no trace. Moving without the button does nothing, and a
/// button that only comes up selects nothing.
pub proof fn drags_run_from_press_to_release(
    s: DragState,
    from: (i32, i32),
    via: (i32, i32),
    to: (i32, i32),
)
    ensures
        ({
            let down = s.after(DragEvent::LeftDown(from.0, from.1));
            let moved = down.after(DragEvent::Move(via.0, via.1));
            let up = moved.after(DragEvent::LeftUp(to.0, to.1));
            &&& down.dragging && down.started && down.start == from && down.cur == from
            &&& down.committed == s.committed && down.cancelled == s.cancelled
            &&& moved == (DragState { cur: via, ..down })
            &&& up == (DragState { cur: to, dragging: false, committed: true, ..down })
            &&& up == down.after(DragEvent::LeftUp(to.0, to.1))
        }),
        !s.dragging ==> s.after(DragEvent::Move(via.0, via.1)) == s && s.after(
            DragEvent::LeftUp(to.0, to.1),
        ) == s,
        s.after(DragEvent::Escape) == (DragState { cancelled: true, ..s }),
        s.after(DragEvent::RightDown) == (DragState { cancelled: true, ..s }),
{
}

/// The overlay closes when the button comes up or the user turns away, and not
/// before. It takes the mouse when the button goes down and gives it back when it
/// comes up, and draws again while something changes.
pub proof fn overlays_close_at_the_end(s: DragState, event: DragEvent)
    ensures
        s.reaction(event).close <==> event is LeftUp || event is RightDown || event is Escape,
        s.reaction(event).capture == Some(true) <==> event is LeftDown,
        s.reaction(event).capture == Some(false) <==> event is LeftUp,
        s.reaction(event).redraw <==> event is LeftDown || (event is Move && s.dragging),
{
}

/// The outline has the two ends of the drag for opposite corners, whichever way it
/// went; there is none before a drag.
pub proof fn outlines_span_the_drag(s: &DragState, r: Option<(i32, i32, i32, i32)>)
    requires
        call_ensures(DragState::outline, (s,), r),
    ensures
        r is Some <==> s.started,
        r matches Some((left, top, right, bottom)) ==> {
            &&& left <= right && top <= bottom
            &&& (left == s.start.0 && right == s.cur.0) || (left == s.cur.0 && right == s.start.0)
            &&& (top == s.start.1 && bottom == s.cur.1) || (top == s.cur.1 && bottom == s.start.1)
        },
{
}

/// A packed position is the two lowest half words, each as the signed number of
/// sixteen bits that it encodes.
pub proof fn half_words_have_a_sign(lp: u64, r: (i32, i32))
    requires
        call_ensures(lparam_xy, (lp,), r),
    ensures
        -0x8000 <= r.0 < 0x8000 && -0x8000 <= r.1 < 0x8000,
        (lp as int - r.0) % 0x1_0000 == 0,
        (lp as int / 0x1_0000 - r.1) % 0x1_0000 == 0,
{
}

} // verus!
