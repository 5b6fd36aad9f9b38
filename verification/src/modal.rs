//! Backdrop presses around a modal dialog.

use vstd::prelude::*;

verus! {

/// What a press around a dialog panel does.
#[derive(Clone, Copy, Debug, PartialEq, Eq, Structural)]
pub struct BackdropOutcome {
    /// The dialog's dismiss message is sent.
    pub dismiss: bool,
    /// The press stops here and reaches no lower layer.
    pub capture: bool,
}

/// A press that no widget of the panel handled, made inside the viewport:
/// outside the panel it dismisses the dialog; inside or outside, it goes no
/// further. A press that a child handled, or one outside the viewport, does
/// nothing here.
pub open spec fn backdrop_outcome(handled: bool, in_viewport: bool, on_panel: bool) -> BackdropOutcome {
    BackdropOutcome {
        dismiss: !handled && in_viewport && !on_panel,
        capture: !handled && in_viewport,
    }
}

/// Classifies a press around a dialog panel; dismissal follows the panel's
/// bounds, not whether a child consumed the press.
pub fn backdrop_press(handled: bool, in_viewport: bool, on_panel: bool) -> (out: BackdropOutcome)
    ensures
        out == backdrop_outcome(handled, in_viewport, on_panel),
{
    if handled || !in_viewport {
        return BackdropOutcome { dismiss: false, capture: false };
    }
    BackdropOutcome { dismiss: !on_panel, capture: true }
}

/// A press on the panel itself never dismisses the dialog, and a press that
/// dismisses it never reaches a lower layer.
pub proof fn lemma_panel_press_never_dismisses(handled: bool, in_viewport: bool, on_panel: bool)
    ensures
        on_panel ==> !backdrop_outcome(handled, in_viewport, on_panel).dismiss,
        backdrop_outcome(handled, in_viewport, on_panel).dismiss ==> backdrop_outcome(
            handled,
            in_viewport,
            on_panel,
        ).capture,
{
}

} // verus!
