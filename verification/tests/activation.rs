use jellypilot_iced::activation::{ActivationState, GuardEvent, MouseButton, Point};

fn point(x: f32, y: f32) -> Point {
    Point { x_bits: x.to_bits(), y_bits: y.to_bits() }
}

const LEFT_PRESS: GuardEvent = GuardEvent::ButtonPressed(MouseButton::Left);
const LEFT_RELEASE: GuardEvent = GuardEvent::ButtonReleased(MouseButton::Left);

#[test]
fn a_focused_window_press_is_not_an_activation() {
    let mut guard = ActivationState::new();
    assert_eq!(guard.observe(LEFT_PRESS, Some(point(1.0, 2.0))), None);
}

#[test]
fn a_press_that_focuses_the_window_activates_at_the_cursor() {
    let mut guard = ActivationState::new();
    let at = Some(point(10.0, 20.0));
    assert_eq!(guard.observe(GuardEvent::WindowUnfocused, None), None);
    assert_eq!(guard.observe(LEFT_PRESS, at), at);
    // The focus event that follows the activating press does not arm again.
    assert_eq!(guard.observe(GuardEvent::WindowFocused, None), None);
    assert_eq!(guard.observe(LEFT_RELEASE, at), None);
    assert_eq!(guard.observe(LEFT_PRESS, at), None);
}

#[test]
fn focus_arms_the_next_press_until_deliberate_input() {
    let at = Some(point(5.0, 5.0));
    let mut guard = ActivationState::new();
    guard.observe(GuardEvent::WindowUnfocused, None);
    guard.observe(GuardEvent::WindowFocused, None);
    assert!(guard.flags.armed);
    // Redraws do not disarm.
    guard.observe(GuardEvent::Other, None);
    assert_eq!(guard.observe(LEFT_PRESS, at), at);
    assert!(!guard.flags.armed);

    let mut guard = ActivationState::new();
    guard.observe(GuardEvent::WindowUnfocused, None);
    guard.observe(GuardEvent::WindowFocused, None);
    guard.observe(GuardEvent::KeyPressed, None);
    assert_eq!(guard.observe(LEFT_PRESS, at), None);
}

#[test]
fn cursor_motion_disarms_only_when_the_position_changes() {
    let here = point(3.0, 4.0);
    let mut guard = ActivationState::new();
    guard.observe(GuardEvent::CursorMoved(here), Some(here));
    guard.observe(GuardEvent::WindowUnfocused, None);
    guard.observe(GuardEvent::WindowFocused, None);
    guard.observe(GuardEvent::CursorMoved(here), Some(here));
    assert!(guard.flags.armed);
    guard.observe(GuardEvent::CursorMoved(point(9.0, 9.0)), Some(point(9.0, 9.0)));
    assert!(!guard.flags.armed);
}

#[test]
fn a_bubbled_press_keeps_its_first_classification() {
    let at = Some(point(1.0, 1.0));
    let mut guard = ActivationState::new();
    guard.observe(GuardEvent::WindowUnfocused, None);
    assert_eq!(guard.observe(LEFT_PRESS, at), at);
    assert_eq!(guard.observe(LEFT_PRESS, Some(point(7.0, 7.0))), at);
}

#[test]
fn overlay_classifications_replay_at_the_root_in_order() {
    let first = Some(point(1.0, 1.0));
    let mut guard = ActivationState::new();
    guard.observe(GuardEvent::WindowUnfocused, None);
    assert_eq!(guard.overlay_activation(LEFT_PRESS, first, true, true), first);
    assert_eq!(guard.overlay_activation(LEFT_RELEASE, first, true, true), None);
    // Not reaching the root, or handled by an overlay: nothing is queued.
    guard.overlay_activation(GuardEvent::Other, None, false, true);
    guard.overlay_activation(GuardEvent::Other, None, true, false);
    assert_eq!(guard.pending.len(), 2);
    let flags = guard.flags;
    assert_eq!(guard.root_activation(LEFT_PRESS, Some(point(8.0, 8.0))), first);
    assert_eq!(guard.root_activation(LEFT_RELEASE, None), None);
    assert_eq!(guard.flags, flags);
    assert!(guard.pending.is_empty());
    // With nothing queued the root observes the event itself: still
    // unfocused, the press activates; once focused after that activating
    // press, it does not.
    assert_eq!(guard.root_activation(LEFT_PRESS, first), first);
    guard.root_activation(LEFT_RELEASE, first);
    guard.root_activation(GuardEvent::WindowFocused, None);
    assert_eq!(guard.root_activation(LEFT_PRESS, first), None);
}

#[test]
fn cursor_positions_compare_as_floats() {
    let arm = |guard: &mut ActivationState| {
        guard.observe(GuardEvent::WindowUnfocused, None);
        guard.observe(GuardEvent::WindowFocused, None);
        assert!(guard.flags.armed);
    };
    // -0.0 and 0.0 are the same position: no motion, still armed.
    let mut guard = ActivationState::new();
    guard.observe(GuardEvent::CursorMoved(point(0.0, 1.0)), Some(point(0.0, 1.0)));
    arm(&mut guard);
    guard.observe(GuardEvent::CursorMoved(point(-0.0, 1.0)), Some(point(-0.0, 1.0)));
    assert!(guard.flags.armed);
    // A NaN coordinate equals nothing, itself included: it counts as motion.
    let mut guard = ActivationState::new();
    guard.observe(GuardEvent::CursorMoved(point(f32::NAN, 1.0)), Some(point(f32::NAN, 1.0)));
    arm(&mut guard);
    guard.observe(GuardEvent::CursorMoved(point(f32::NAN, 1.0)), Some(point(f32::NAN, 1.0)));
    assert!(!guard.flags.armed);
}
