//! Which event sources the application listens to in a given state.

use vstd::prelude::*;

verus! {

#[derive(Clone, Copy, Debug, PartialEq, Eq, Structural)]
pub enum ThemeMode {
    System,
    Dark,
    Light,
}

/// The facts of the application state that decide its subscriptions.
#[derive(Clone, Copy, Debug, PartialEq, Eq, Structural)]
pub struct SubscriptionFacts {
    pub now_playing: bool,
    pub shortcut_capture: bool,
    pub settings_open: bool,
    pub remote_events: bool,
    pub tray: bool,
    pub theme_mode: ThemeMode,
    pub smoke: bool,
    pub skeletons_active: bool,
    pub reduced_motion: bool,
}

/// The keyboard listener in effect, at most one at a time.
#[derive(Clone, Copy, Debug, PartialEq, Eq, Structural)]
pub enum InputListener {
    ShortcutCapture,
    SettingsModal,
    PlaybackShortcuts,
}

/// The subscriptions to run. Window close requests and resizes are always on.
#[derive(Clone, Copy, Debug, PartialEq, Eq, Structural)]
pub struct SubscriptionPlan {
    pub window_events: bool,
    pub resize_events: bool,
    pub playback_tick: bool,
    pub input: Option<InputListener>,
    pub remote_events: bool,
    pub tray_events: bool,
    pub theme_changes: bool,
    pub frames: bool,
}

pub open spec fn plan_for(f: SubscriptionFacts) -> SubscriptionPlan {
    SubscriptionPlan {
        window_events: true,
        resize_events: true,
        playback_tick: f.now_playing,
        input: if f.shortcut_capture {
            Some(InputListener::ShortcutCapture)
        } else if f.settings_open {
            Some(InputListener::SettingsModal)
        } else if f.now_playing {
            Some(InputListener::PlaybackShortcuts)
        } else {
            None
        },
        remote_events: f.remote_events,
        tray_events: f.tray,
        theme_changes: f.theme_mode == ThemeMode::System,
        frames: f.smoke || (f.skeletons_active && !f.reduced_motion),
    }
}

/// The subscriptions for a state: the playback tick while something plays;
/// one keyboard listener (shortcut capture, else the settings dialog, else
/// playback shortcuts while playing); remote and tray channels when open;
/// OS theme changes only in the system theme mode; and frame ticks only
/// for a smoke run or while animated skeletons are on screen.
pub fn subscription(facts: &SubscriptionFacts) -> (out: SubscriptionPlan)
    ensures
        out == plan_for(*facts),
{
    let input = if facts.shortcut_capture {
        Some(InputListener::ShortcutCapture)
    } else if facts.settings_open {
        Some(InputListener::SettingsModal)
    } else if facts.now_playing {
        Some(InputListener::PlaybackShortcuts)
    } else {
        None
    };
    SubscriptionPlan {
        window_events: true,
        resize_events: true,
        playback_tick: facts.now_playing,
        input,
        remote_events: facts.remote_events,
        tray_events: facts.tray,
        theme_changes: facts.theme_mode == ThemeMode::System,
        frames: facts.smoke || (facts.skeletons_active && !facts.reduced_motion),
    }
}

pub open spec fn count(b: bool) -> nat {
    if b {
        1
    } else {
        0
    }
}

pub open spec fn plan_units(p: SubscriptionPlan) -> nat {
    count(p.window_events) + count(p.resize_events) + count(p.playback_tick) + count(p.input is Some)
        + count(p.remote_events) + count(p.tray_events) + count(p.theme_changes) + count(p.frames)
}

impl SubscriptionPlan {
    /// How many subscriptions the plan runs.
    pub fn units(&self) -> (out: u32)
        ensures
            out as nat == plan_units(*self),
    {
        let mut n: u32 = 0;
        if self.window_events {
            n += 1;
        }
        if self.resize_events {
            n += 1;
        }
        if self.playback_tick {
            n += 1;
        }
        if self.input.is_some() {
            n += 1;
        }
        if self.remote_events {
            n += 1;
        }
        if self.tray_events {
            n += 1;
        }
        if self.theme_changes {
            n += 1;
        }
        if self.frames {
            n += 1;
        }
        n
    }
}

/// Capturing a shortcut never stops the playback tick, and while capturing,
/// no other keyboard listener runs.
pub proof fn lemma_capture_keeps_tick(f: SubscriptionFacts)
    requires
        f.shortcut_capture,
    ensures
        plan_for(f).playback_tick == f.now_playing,
        plan_for(f).input == Some(InputListener::ShortcutCapture),
{
}

/// Reduced motion silences the frame ticks unless a smoke run waits on them.
pub proof fn lemma_reduced_motion_stops_frames(f: SubscriptionFacts)
    requires
        f.reduced_motion,
        !f.smoke,
    ensures
        !plan_for(f).frames,
{
}

} // verus!
