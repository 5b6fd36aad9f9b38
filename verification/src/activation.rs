//! Focus bookkeeping for the embedded player's background-click action.
//!
//! A focus transition protects the next press until deliberate input
//! intervenes; redraws and other events do not disarm it. A press that
//! focuses the window is an activation press too.

use std::collections::VecDeque;

use vstd::prelude::*;

use crate::float_bits::{f32_bits_eq, f32_eq};

verus! {

/// A cursor position. The coordinates travel as the bit patterns of the
/// toolkit's `f32` values; positions are compared as those values are.
#[derive(Clone, Copy, Debug, PartialEq, Eq, Structural)]
pub struct Point {
    pub x_bits: u32,
    pub y_bits: u32,
}

#[derive(Clone, Copy, Debug, PartialEq, Eq, Structural)]
pub enum MouseButton {
    Left,
    Right,
    Middle,
    Back,
    Forward,
    Other(u16),
}

/// The events the guard distinguishes.
#[derive(Clone, Copy, Debug, PartialEq, Eq, Structural)]
pub enum GuardEvent {
    WindowFocused,
    WindowUnfocused,
    ButtonPressed(MouseButton),
    ButtonReleased(MouseButton),
    CursorMoved(Point),
    WheelScrolled,
    KeyPressed,
    KeyReleased,
    Touch,
    Other,
}

/// The guard's flags, apart from the queue of replayed classifications.
#[derive(Clone, Copy, Debug, PartialEq, Eq, Structural)]
pub struct GuardFlags {
    pub focused: bool,
    pub armed: bool,
    pub activation_press_seen: bool,
    pub last_cursor: Option<Point>,
    pub activation_point: Option<Point>,
}

/// The guard's state: its flags, and the classifications of overlay events
/// that the root will replay, oldest first.
pub struct ActivationState {
    pub flags: GuardFlags,
    pub pending: VecDeque<Option<Point>>,
}

/// Two positions are the same when both coordinates compare equal as `f32`.
pub open spec fn same_position(a: Point, b: Point) -> bool {
    f32_eq(a.x_bits, b.x_bits) && f32_eq(a.y_bits, b.y_bits)
}

/// The cursor moved away from the last known position, or none was known.
pub open spec fn moved_from(last: Option<Point>, position: Point) -> bool {
    match last {
        Some(p) => !same_position(p, position),
        None => true,
    }
}

fn moved(last: Option<Point>, position: Point) -> (out: bool)
    ensures
        out == moved_from(last, position),
{
    match last {
        Some(p) => !(f32_bits_eq(p.x_bits, position.x_bits) && f32_bits_eq(p.y_bits, position.y_bits)),
        None => true,
    }
}

/// One observed event: the next flags and the activation it reports.
pub open spec fn observe_step(s: GuardFlags, event: GuardEvent, cursor: Option<Point>) -> (
    GuardFlags,
    Option<Point>,
) {
    let last = if cursor is Some {
        cursor
    } else {
        s.last_cursor
    };
    let s1 = GuardFlags { last_cursor: last, ..s };
    match event {
        GuardEvent::WindowFocused => if !s.focused {
            (
                GuardFlags {
                    armed: !s.activation_press_seen,
                    focused: true,
                    activation_press_seen: false,
                    ..s1
                },
                None,
            )
        } else {
            (s1, None)
        },
        GuardEvent::WindowUnfocused => (
            GuardFlags {
                focused: false,
                armed: false,
                activation_press_seen: false,
                activation_point: None,
                ..s1
            },
            None,
        ),
        GuardEvent::ButtonPressed(MouseButton::Left) => if s.activation_point is Some {
            (s1, s.activation_point)
        } else {
            let activation = if s.armed || !s.focused {
                cursor
            } else {
                None
            };
            (
                GuardFlags {
                    activation_press_seen: if !s.focused {
                        true
                    } else {
                        s.activation_press_seen
                    },
                    armed: false,
                    activation_point: activation,
                    ..s1
                },
                activation,
            )
        },
        GuardEvent::ButtonReleased(MouseButton::Left) => (
            GuardFlags { activation_point: None, armed: false, ..s1 },
            None,
        ),
        GuardEvent::CursorMoved(position) => if moved_from(s.last_cursor, position) {
            (GuardFlags { armed: false, ..s1 }, None)
        } else {
            (s1, None)
        },
        GuardEvent::ButtonPressed(_) | GuardEvent::ButtonReleased(_) | GuardEvent::WheelScrolled
        | GuardEvent::KeyPressed | GuardEvent::KeyReleased | GuardEvent::Touch => (
            GuardFlags { armed: false, ..s1 },
            None,
        ),
        GuardEvent::Other => (s1, None),
    }
}

impl ActivationState {
    /// A fresh guard: focused, disarmed, nothing pending.
    pub fn new() -> (out: ActivationState)
        ensures
            out.flags == (GuardFlags {
                focused: true,
                armed: false,
                activation_press_seen: false,
                last_cursor: None,
                activation_point: None,
            }),
            out.pending@.len() == 0,
    {
        ActivationState {
            flags: GuardFlags {
                focused: true,
                armed: false,
                activation_press_seen: false,
                last_cursor: None,
                activation_point: None,
            },
            pending: VecDeque::new(),
        }
    }

    /// Classifies one event, returning the activation position when the
    /// event is a press that activates the window.
    pub fn observe(&mut self, event: GuardEvent, cursor: Option<Point>) -> (out: Option<Point>)
        ensures
            (final(self).flags, out) == observe_step(old(self).flags, event, cursor),
            final(self).pending@ == old(self).pending@,
    {
        let previous_cursor = self.flags.last_cursor;
        self.flags.last_cursor = match cursor {
            Some(p) => Some(p),
            None => previous_cursor,
        };
        let mut activation: Option<Point> = None;
        match event {
            GuardEvent::WindowFocused => {
                if !self.flags.focused {
                    self.flags.armed = !self.flags.activation_press_seen;
                    self.flags.focused = true;
                    self.flags.activation_press_seen = false;
                }
            },
            GuardEvent::WindowUnfocused => {
                self.flags.focused = false;
                self.flags.armed = false;
                self.flags.activation_press_seen = false;
                self.flags.activation_point = None;
            },
            GuardEvent::ButtonPressed(MouseButton::Left) => {
                if self.flags.activation_point.is_some() {
                    return self.flags.activation_point;
                }
                if self.flags.armed || !self.flags.focused {
                    activation = cursor;
                }
                if !self.flags.focused {
                    self.flags.activation_press_seen = true;
                }
                self.flags.armed = false;
                self.flags.activation_point = activation;
            },
            GuardEvent::ButtonReleased(MouseButton::Left) => {
                self.flags.activation_point = None;
                self.flags.armed = false;
            },
            GuardEvent::CursorMoved(position) => {
                if moved(previous_cursor, position) {
                    self.flags.armed = false;
                }
            },
            GuardEvent::ButtonPressed(_) | GuardEvent::ButtonReleased(_)
            | GuardEvent::WheelScrolled | GuardEvent::KeyPressed | GuardEvent::KeyReleased
            | GuardEvent::Touch => {
                self.flags.armed = false;
            },
            GuardEvent::Other => {},
        }
        activation
    }

    /// The classification the root widget applies to an event: a replayed
    /// overlay classification if one is pending (oldest first), otherwise a
    /// fresh observation.
    pub fn root_activation(&mut self, event: GuardEvent, cursor: Option<Point>) -> (out: Option<
        Point,
    >)
        ensures
            old(self).pending@.len() > 0 ==> {
                &&& out == old(self).pending@[0]
                &&& final(self).pending@ == old(self).pending@.drop_first()
                &&& final(self).flags == old(self).flags
            },
            old(self).pending@.len() == 0 ==> {
                &&& (final(self).flags, out) == observe_step(old(self).flags, event, cursor)
                &&& final(self).pending@.len() == 0
            },
    {
        match self.pending.pop_front() {
            Some(activation) => activation,
            None => self.observe(event, cursor),
        }
    }

    /// An overlay event: it is always observed, and when it reached the root
    /// overlay and no overlay handled it, its classification is queued for the
    /// root widget's replay of the same event.
    pub fn overlay_activation(
        &mut self,
        event: GuardEvent,
        cursor: Option<Point>,
        root: bool,
        ignored: bool,
    ) -> (out: Option<Point>)
        ensures
            (final(self).flags, out) == observe_step(old(self).flags, event, cursor),
            final(self).pending@ == if root && ignored {
                old(self).pending@.push(out)
            } else {
                old(self).pending@
            },
    {
        let activation = self.observe(event, cursor);
        if root && ignored {
            self.pending.push_back(activation);
        }
        activation
    }
}

/// Losing focus disarms the guard and forgets any activation in progress; the
/// next left press, made while unfocused, is reported as an activation at the
/// cursor.
pub proof fn lemma_unfocused_press_activates(s: GuardFlags, cursor: Option<Point>, at: Option<Point>)
    ensures
        ({
            let (u, none) = observe_step(s, GuardEvent::WindowUnfocused, cursor);
            let (_, activation) = observe_step(u, GuardEvent::ButtonPressed(MouseButton::Left), at);
            &&& none is None
            &&& !u.focused && !u.armed && u.activation_point is None
            &&& activation == at
        }),
{
}

/// Regaining focus arms the guard exactly when no activating press was seen
/// while unfocused; an armed guard reports the next left press as an
/// activation, then is disarmed.
pub proof fn lemma_focus_arms_next_press(s: GuardFlags, cursor: Option<Point>, at: Option<Point>)
    requires
        !s.focused,
        s.activation_point is None,
    ensures
        ({
            let (f, _) = observe_step(s, GuardEvent::WindowFocused, cursor);
            let (p, activation) = observe_step(f, GuardEvent::ButtonPressed(MouseButton::Left), at);
            &&& f.focused
            &&& f.armed == !s.activation_press_seen
            &&& activation == if f.armed {
                at
            } else {
                None
            }
            &&& !p.armed
        }),
{
}

/// A press that bubbles through several wrappers keeps the classification of
/// its first observation.
pub proof fn lemma_bubbled_press_is_stable(s: GuardFlags, cursor: Option<Point>)
    requires
        s.activation_point is Some,
    ensures
        observe_step(s, GuardEvent::ButtonPressed(MouseButton::Left), cursor).1
            == s.activation_point,
        observe_step(s, GuardEvent::ButtonPressed(MouseButton::Left), cursor).0.activation_point
            == s.activation_point,
{
}

/// Deliberate input other than a left press disarms the guard: keys, wheel,
/// touch, other buttons, and cursor motion to a new position.
pub proof fn lemma_deliberate_input_disarms(s: GuardFlags, event: GuardEvent, cursor: Option<Point>)
    requires
        match event {
            GuardEvent::KeyPressed | GuardEvent::KeyReleased | GuardEvent::WheelScrolled
            | GuardEvent::Touch | GuardEvent::ButtonReleased(_) => true,
            GuardEvent::ButtonPressed(b) => b != MouseButton::Left,
            GuardEvent::CursorMoved(p) => moved_from(s.last_cursor, p),
            _ => false,
        },
    ensures
        !observe_step(s, event, cursor).0.armed,
{
}

/// Events the guard does not classify leave its arming and activation alone.
pub proof fn lemma_other_events_keep_arming(s: GuardFlags, cursor: Option<Point>)
    ensures
        observe_step(s, GuardEvent::Other, cursor).0.armed == s.armed,
        observe_step(s, GuardEvent::Other, cursor).0.focused == s.focused,
        observe_step(s, GuardEvent::Other, cursor).0.activation_point == s.activation_point,
        observe_step(s, GuardEvent::Other, cursor).1 is None,
{
}

} // verus!
