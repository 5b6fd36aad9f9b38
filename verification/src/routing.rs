//! Cross-surface decisions of the top-level message router.

use vstd::prelude::*;

use crate::image_inventory::ArtworkSurface;
use crate::navigation::{Destination, DestinationView};
use crate::settings::IntroMode;
use crate::text::{chars_eq, chars_of, string_of, trim, trim_chars};

verus! {

#[derive(Clone, Copy, Debug, PartialEq, Eq, Structural)]
pub enum AppMode {
    Full,
    ControlOnly,
}

/// The page a fresh connection lands on: Now Playing in control-only mode,
/// Home otherwise.
pub fn initial_destination(mode: AppMode) -> (out: Destination)
    ensures
        mode == AppMode::ControlOnly ==> out@ == DestinationView::NowPlaying,
        mode == AppMode::Full ==> out@ == DestinationView::Home,
{
    match mode {
        AppMode::ControlOnly => Destination::NowPlaying,
        AppMode::Full => Destination::Home,
    }
}

/// Submitting the search field: the trimmed query becomes a search page,
/// and a blank query goes nowhere.
pub fn search_destination(search_input: &str) -> (out: Option<Destination>)
    ensures
        trim(search_input@).len() == 0 ==> out is None,
        trim(search_input@).len() > 0 ==> (out matches Some(d) && d@ == DestinationView::Search(
            trim(search_input@),
        )),
{
    let query = trim_chars(&chars_of(search_input));
    if query.len() == 0 {
        None
    } else {
        Some(Destination::Search(string_of(&query)))
    }
}

/// The settings whose change the router follows up outside the settings surface.
#[derive(Clone, Debug)]
pub struct SettingsPlaybackSnapshot {
    pub mpv_path: Option<String>,
    pub mpv_args: Vec<String>,
    pub subtitle_languages: Vec<String>,
    pub intro_mode: IntroMode,
    pub remember_season_volume: bool,
    pub playback_target_name: Option<String>,
    pub app_mode: AppMode,
}

/// What a settings change requires of the other surfaces.
#[derive(Clone, Copy, Debug, PartialEq, Eq, Structural)]
pub struct SettingsFollowUps {
    pub reconfigure_playback: bool,
    pub reapply_intro_mode: bool,
    pub refinalize_target: bool,
    pub apply_app_mode: Option<AppMode>,
}

pub open spec fn opt_view(s: Option<String>) -> Option<Seq<char>> {
    match s {
        Some(v) => Some(v@),
        None => None,
    }
}

pub open spec fn strings_view(v: Seq<String>) -> Seq<Seq<char>> {
    Seq::new(v.len(), |i: int| v[i]@)
}

pub open spec fn follow_ups_for(
    before: SettingsPlaybackSnapshot,
    after: SettingsPlaybackSnapshot,
) -> SettingsFollowUps {
    SettingsFollowUps {
        reconfigure_playback: opt_view(after.mpv_path) != opt_view(before.mpv_path) || strings_view(
            after.mpv_args@,
        ) != strings_view(before.mpv_args@) || strings_view(after.subtitle_languages@)
            != strings_view(before.subtitle_languages@) || after.remember_season_volume
            != before.remember_season_volume,
        reapply_intro_mode: after.intro_mode != before.intro_mode,
        refinalize_target: opt_view(after.playback_target_name) != opt_view(
            before.playback_target_name,
        ),
        apply_app_mode: if after.app_mode != before.app_mode {
            Some(after.app_mode)
        } else {
            None
        },
    }
}

fn same_text(a: &String, b: &String) -> (out: bool)
    ensures
        out == (a@ == b@),
{
    chars_eq(&chars_of(a.as_str()), &chars_of(b.as_str()))
}

fn same_optional_text(a: &Option<String>, b: &Option<String>) -> (out: bool)
    ensures
        out == (opt_view(*a) == opt_view(*b)),
{
    match (a, b) {
        (Some(x), Some(y)) => same_text(x, y),
        (None, None) => true,
        _ => false,
    }
}

fn same_texts(a: &Vec<String>, b: &Vec<String>) -> (out: bool)
    ensures
        out == (strings_view(a@) == strings_view(b@)),
{
    if a.len() != b.len() {
        assert(strings_view(a@).len() != strings_view(b@).len());
        return false;
    }
    let mut i: usize = 0;
    while i < a.len()
        invariant
            a.len() == b.len(),
            i <= a.len(),
            forall|j: int| 0 <= j < i ==> #[trigger] a@[j]@ == b@[j]@,
        decreases a.len() - i,
    {
        if !same_text(&a[i], &b[i]) {
            assert(strings_view(a@)[i as int] != strings_view(b@)[i as int]);
            return false;
        }
        i += 1;
    }
    assert(strings_view(a@) =~= strings_view(b@));
    true
}

/// The follow-ups of a settings change: playback is reconfigured when the
/// player path, arguments, subtitle languages or season-volume memory
/// changed; the intro mode is re-fed to playback when it changed; the
/// remote target is re-registered when its name changed; and a changed app
/// mode is applied.
pub fn settings_follow_ups(
    before: &SettingsPlaybackSnapshot,
    after: &SettingsPlaybackSnapshot,
) -> (out: SettingsFollowUps)
    ensures
        out == follow_ups_for(*before, *after),
{
    let reconfigure_playback = !same_optional_text(&after.mpv_path, &before.mpv_path)
        || !same_texts(&after.mpv_args, &before.mpv_args) || !same_texts(
        &after.subtitle_languages,
        &before.subtitle_languages,
    ) || after.remember_season_volume != before.remember_season_volume;
    SettingsFollowUps {
        reconfigure_playback,
        reapply_intro_mode: after.intro_mode != before.intro_mode,
        refinalize_target: !same_optional_text(
            &after.playback_target_name,
            &before.playback_target_name,
        ),
        apply_app_mode: if after.app_mode != before.app_mode {
            Some(after.app_mode)
        } else {
            None
        },
    }
}

/// An unchanged snapshot asks for no follow-up.
pub proof fn lemma_unchanged_settings_need_no_follow_up(s: SettingsPlaybackSnapshot)
    ensures
        follow_ups_for(s, s) == (SettingsFollowUps {
            reconfigure_playback: false,
            reapply_intro_mode: false,
            refinalize_target: false,
            apply_app_mode: None,
        }),
{
}

/// Two lists of strings are the same list: same length, and equal strings
/// at every position.
pub open spec fn same_strings(a: Seq<String>, b: Seq<String>) -> bool {
    a.len() == b.len() && forall|i: int| 0 <= i < a.len() ==> a[i]@ == b[i]@
}

proof fn lemma_strings_view_eq(a: Seq<String>, b: Seq<String>)
    ensures
        (strings_view(a) == strings_view(b)) == same_strings(a, b),
{
    if same_strings(a, b) {
        assert(strings_view(a) =~= strings_view(b));
    }
    if strings_view(a) == strings_view(b) {
        assert(strings_view(a).len() == strings_view(b).len());
        assert forall|i: int| 0 <= i < a.len() implies a[i]@ == b[i]@ by {
            assert(strings_view(a)[i] == strings_view(b)[i]);
        }
    }
}

/// Playback is reconfigured exactly when the player path, the player
/// arguments, the subtitle languages or the season-volume memory changed;
/// lists change when their lengths differ or any position holds a
/// different string, whichever it is. The intro mode is re-fed exactly when
/// it changed, the remote target re-registered exactly when its name
/// changed, and a new app mode applied exactly when it changed.
pub proof fn lemma_playback_reconfigured_exactly_on_player_changes(
    before: SettingsPlaybackSnapshot,
    after: SettingsPlaybackSnapshot,
)
    ensures
        follow_ups_for(before, after).reconfigure_playback == (opt_view(after.mpv_path) != opt_view(
            before.mpv_path,
        ) || !same_strings(after.mpv_args@, before.mpv_args@) || !same_strings(
            after.subtitle_languages@,
            before.subtitle_languages@,
        ) || after.remember_season_volume != before.remember_season_volume),
        follow_ups_for(before, after).reapply_intro_mode == (after.intro_mode != before.intro_mode),
        follow_ups_for(before, after).refinalize_target == (opt_view(after.playback_target_name)
            != opt_view(before.playback_target_name)),
        follow_ups_for(before, after).apply_app_mode == (if after.app_mode == before.app_mode {
            None
        } else {
            Some(after.app_mode)
        }),
{
    lemma_strings_view_eq(after.mpv_args@, before.mpv_args@);
    lemma_strings_view_eq(after.subtitle_languages@, before.subtitle_languages@);
}

/// The surface whose images the current page shows, if any.
pub open spec fn surface_shown(d: DestinationView) -> Option<ArtworkSurface> {
    match d {
        DestinationView::Home => Some(ArtworkSurface::Home),
        DestinationView::Library { .. } | DestinationView::Search(_) => Some(ArtworkSurface::Browse),
        DestinationView::Detail(_) => Some(ArtworkSurface::Detail),
        DestinationView::PersonalLists(_) => Some(ArtworkSurface::PersonalLists),
        DestinationView::NowPlaying => None,
    }
}

/// The facts that decide whether an image observation is served.
#[derive(Clone, Copy, Debug, PartialEq, Eq, Structural)]
pub struct ObservationGate {
    pub images_visible: bool,
    pub connected: bool,
    pub has_client: bool,
    pub full_ui: bool,
}

/// An image observation is served only while images are visible, the
/// server is connected with a client, the full interface exists, the
/// observation comes from the surface the current page shows, and its
/// epoch is that surface's current epoch.
pub fn observation_accepted(
    gate: ObservationGate,
    destination: &Destination,
    surface: ArtworkSurface,
    collection_epoch: u64,
    epoch: u64,
) -> (out: bool)
    ensures
        out == (gate.images_visible && gate.connected && gate.has_client && gate.full_ui
            && surface_shown(destination@) == Some(surface) && collection_epoch == epoch),
{
    if !gate.images_visible || !gate.connected || !gate.has_client || !gate.full_ui {
        return false;
    }
    let shown = match destination {
        Destination::Home => surface == ArtworkSurface::Home,
        Destination::Library { .. } | Destination::Search(_) => surface == ArtworkSurface::Browse,
        Destination::Detail(_) => surface == ArtworkSurface::Detail,
        Destination::PersonalLists(_) => surface == ArtworkSurface::PersonalLists,
        Destination::NowPlaying => false,
    };
    shown && collection_epoch == epoch
}

/// How a login step changed the connection.
#[derive(Clone, Copy, Debug, PartialEq, Eq, Structural)]
pub enum ConnectionTransition {
    Connected,
    Disconnected,
    Unchanged,
}

/// Becoming connected activates the connected surfaces; losing the
/// connection resets them.
pub fn connection_transition(was_connected: bool, is_connected: bool) -> (out: ConnectionTransition)
    ensures
        out == (if !was_connected && is_connected {
            ConnectionTransition::Connected
        } else if was_connected && !is_connected {
            ConnectionTransition::Disconnected
        } else {
            ConnectionTransition::Unchanged
        }),
{
    if !was_connected && is_connected {
        ConnectionTransition::Connected
    } else if was_connected && !is_connected {
        ConnectionTransition::Disconnected
    } else {
        ConnectionTransition::Unchanged
    }
}

/// A quit request from the tray starts the quit handshake once; repeats are
/// ignored.
pub fn request_quit(quit_requested: &mut bool) -> (started: bool)
    ensures
        started == !*old(quit_requested),
        *final(quit_requested),
{
    if *quit_requested {
        return false;
    }
    *quit_requested = true;
    true
}

/// A change to the user's content that the router may have to hold back.
#[derive(Clone, Copy, Debug, PartialEq, Eq, Structural)]
pub enum ContentChange {
    /// Watchlist or favorite edits from the personal-lists pages.
    ListToggleWatchlist,
    ListRemoveWatchlist,
    ListRemoveFavorite,
    /// The detail page's watchlist, favorite and played toggles.
    DetailWatchlist,
    DetailFavorite,
    DetailPlayed,
}

/// What the router does with a content change.
#[derive(Clone, Copy, Debug)]
pub enum ChangeGate {
    /// Hand the change to its surface.
    Proceed,
    /// Refuse it with a warning toast showing this message.
    Warn(&'static str),
    /// Drop it silently.
    Ignore,
}

/// While an account change blocks content mutations, list edits are refused
/// with the list warning and the detail page's favorite and played toggles
/// with the item warning. Otherwise a favorite removal from a list, and the
/// detail page's favorite and played toggles, are dropped while the item
/// has one of those changes in flight; the rest proceed.
pub fn content_change_gate(change: ContentChange, mutations_blocked: bool, item_busy: bool) -> (out: ChangeGate)
    ensures
        mutations_blocked ==> match change {
            ContentChange::DetailFavorite | ContentChange::DetailPlayed => (out matches ChangeGate::Warn(m)
                && m@ == "shell-account-change-item"@),
            _ => (out matches ChangeGate::Warn(m) && m@ == "shell-account-change-lists"@),
        },
        !mutations_blocked ==> out == (match change {
            ContentChange::ListRemoveFavorite | ContentChange::DetailFavorite
            | ContentChange::DetailPlayed => if item_busy {
                ChangeGate::Ignore
            } else {
                ChangeGate::Proceed
            },
            _ => ChangeGate::Proceed,
        }),
{
    if mutations_blocked {
        return match change {
            ContentChange::DetailFavorite | ContentChange::DetailPlayed => ChangeGate::Warn(
                "shell-account-change-item",
            ),
            _ => ChangeGate::Warn("shell-account-change-lists"),
        };
    }
    match change {
        ContentChange::ListRemoveFavorite | ContentChange::DetailFavorite | ContentChange::DetailPlayed => {
            if item_busy {
                ChangeGate::Ignore
            } else {
                ChangeGate::Proceed
            }
        },
        _ => ChangeGate::Proceed,
    }
}

/// Kinds of playback input, as far as the router tells them apart.
#[derive(Clone, Copy, Debug, PartialEq, Eq, Structural)]
pub enum PlaybackInputKind {
    Intent,
    SeekDragStarted,
    SeekAdjusted,
    SeekChanged,
    SeekReleased,
    VolumeDragStarted,
    VolumeAdjusted,
    VolumeChanged,
    VolumeReleased,
    AudioTrackSelected,
    SubtitleTrackSelected,
    QueueItemSelected,
    /// Anything else: settlements, menus, progress reports.
    Other,
}

/// During an account handoff, playback input from the user is dropped; the
/// player's own reports still pass.
pub fn playback_input_accepted(kind: PlaybackInputKind, handoff_active: bool) -> (out: bool)
    ensures
        out == (!handoff_active || kind == PlaybackInputKind::Other),
{
    !handoff_active || kind == PlaybackInputKind::Other
}

/// The tray's actions, as far as the router tells them apart.
#[derive(Clone, Copy, Debug, PartialEq, Eq, Structural)]
pub enum TrayActionKind {
    Show,
    Quit,
    /// Play/pause, next, previous and the other transport actions.
    Transport,
}

/// Showing the window and quitting always go through; transport actions are
/// dropped during an account handoff.
pub fn tray_action_accepted(kind: TrayActionKind, handoff_active: bool) -> (out: bool)
    ensures
        out == (kind != TrayActionKind::Transport || !handoff_active),
{
    kind != TrayActionKind::Transport || !handoff_active
}

} // verus!
