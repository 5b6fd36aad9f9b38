use jellypilot_iced::modal::{backdrop_press, BackdropOutcome};
use jellypilot_iced::image_inventory::ArtworkSurface;
use jellypilot_iced::navigation::Destination;
use jellypilot_iced::personal_lists::Route;
use jellypilot_iced::routing::{
    content_change_gate, playback_input_accepted, tray_action_accepted, ChangeGate, ContentChange, PlaybackInputKind,
    TrayActionKind,
    connection_transition, initial_destination, observation_accepted, request_quit, search_destination,
    settings_follow_ups, AppMode,
    ConnectionTransition, ObservationGate, SettingsFollowUps, SettingsPlaybackSnapshot,
};
use jellypilot_iced::settings::IntroMode;

fn snapshot() -> SettingsPlaybackSnapshot {
    SettingsPlaybackSnapshot {
        mpv_path: None,
        mpv_args: vec!["--hwdec=auto".to_owned()],
        subtitle_languages: vec!["eng".to_owned()],
        intro_mode: IntroMode::Manual,
        remember_season_volume: false,
        playback_target_name: Some("Desk".to_owned()),
        app_mode: AppMode::Full,
    }
}

const NOTHING: SettingsFollowUps =
    SettingsFollowUps { reconfigure_playback: false, reapply_intro_mode: false, refinalize_target: false, apply_app_mode: None };

#[test]
fn unchanged_settings_need_no_follow_up() {
    assert_eq!(settings_follow_ups(&snapshot(), &snapshot()), NOTHING);
}

#[test]
fn saving_player_path_reconfigures_playback() {
    let after = SettingsPlaybackSnapshot { mpv_path: Some("/usr/bin/mpv".to_owned()), ..snapshot() };
    assert_eq!(settings_follow_ups(&snapshot(), &after), SettingsFollowUps { reconfigure_playback: true, ..NOTHING });
}

#[test]
fn each_setting_asks_for_its_own_follow_up() {
    let args = SettingsPlaybackSnapshot { mpv_args: vec![], ..snapshot() };
    assert_eq!(settings_follow_ups(&snapshot(), &args), SettingsFollowUps { reconfigure_playback: true, ..NOTHING });
    let langs = SettingsPlaybackSnapshot { subtitle_languages: vec!["eng".to_owned(), "spa".to_owned()], ..snapshot() };
    assert_eq!(settings_follow_ups(&snapshot(), &langs), SettingsFollowUps { reconfigure_playback: true, ..NOTHING });
    let volume = SettingsPlaybackSnapshot { remember_season_volume: true, ..snapshot() };
    assert_eq!(settings_follow_ups(&snapshot(), &volume), SettingsFollowUps { reconfigure_playback: true, ..NOTHING });
    let intro = SettingsPlaybackSnapshot { intro_mode: IntroMode::Automatic, ..snapshot() };
    assert_eq!(settings_follow_ups(&snapshot(), &intro), SettingsFollowUps { reapply_intro_mode: true, ..NOTHING });
    let target = SettingsPlaybackSnapshot { playback_target_name: Some("Couch".to_owned()), ..snapshot() };
    assert_eq!(settings_follow_ups(&snapshot(), &target), SettingsFollowUps { refinalize_target: true, ..NOTHING });
    let mode = SettingsPlaybackSnapshot { app_mode: AppMode::ControlOnly, ..snapshot() };
    assert_eq!(
        settings_follow_ups(&snapshot(), &mode),
        SettingsFollowUps { apply_app_mode: Some(AppMode::ControlOnly), ..NOTHING }
    );
}

#[test]
fn fresh_connections_land_by_app_mode() {
    assert!(matches!(initial_destination(AppMode::Full), Destination::Home));
    assert!(matches!(initial_destination(AppMode::ControlOnly), Destination::NowPlaying));
}

#[test]
fn observations_are_served_only_for_the_shown_surface_and_epoch() {
    let open = ObservationGate { images_visible: true, connected: true, has_client: true, full_ui: true };
    assert!(observation_accepted(open, &Destination::Home, ArtworkSurface::Home, 4, 4));
    assert!(!observation_accepted(open, &Destination::Home, ArtworkSurface::Home, 4, 3));
    assert!(!observation_accepted(open, &Destination::Home, ArtworkSurface::Browse, 4, 4));
    assert!(observation_accepted(open, &Destination::Search("x".to_owned()), ArtworkSurface::Browse, 1, 1));
    assert!(observation_accepted(open, &Destination::Detail("i".to_owned()), ArtworkSurface::Detail, 1, 1));
    assert!(observation_accepted(
        open,
        &Destination::PersonalLists(Route::History),
        ArtworkSurface::PersonalLists,
        1,
        1
    ));
    assert!(!observation_accepted(open, &Destination::NowPlaying, ArtworkSurface::Home, 1, 1));
    let hidden = ObservationGate { images_visible: false, ..open };
    assert!(!observation_accepted(hidden, &Destination::Home, ArtworkSurface::Home, 4, 4));
    let control_only = ObservationGate { full_ui: false, ..open };
    assert!(!observation_accepted(control_only, &Destination::Home, ArtworkSurface::Home, 4, 4));
}

#[test]
fn connection_transitions() {
    assert_eq!(connection_transition(false, true), ConnectionTransition::Connected);
    assert_eq!(connection_transition(true, false), ConnectionTransition::Disconnected);
    assert_eq!(connection_transition(true, true), ConnectionTransition::Unchanged);
    assert_eq!(connection_transition(false, false), ConnectionTransition::Unchanged);
}

#[test]
fn quit_starts_once() {
    let mut requested = false;
    assert!(request_quit(&mut requested));
    assert!(requested);
    assert!(!request_quit(&mut requested));
    assert!(requested);
}

#[test]
fn search_submission_trims_and_ignores_blank_queries() {
    assert!(matches!(search_destination("  cats \t"), Some(Destination::Search(ref q)) if q == "cats"));
    assert!(matches!(search_destination("a b"), Some(Destination::Search(ref q)) if q == "a b"));
    assert!(search_destination("").is_none());
    assert!(search_destination(" \u{3000}\n").is_none());
}

#[test]
fn backdrop_presses_dismiss_only_outside_the_panel() {
    assert_eq!(backdrop_press(false, true, false), BackdropOutcome { dismiss: true, capture: true });
    assert_eq!(backdrop_press(false, true, true), BackdropOutcome { dismiss: false, capture: true });
    assert_eq!(backdrop_press(true, true, false), BackdropOutcome { dismiss: false, capture: false });
    assert_eq!(backdrop_press(false, false, false), BackdropOutcome { dismiss: false, capture: false });
}

#[test]
fn content_changes_wait_for_account_changes_and_busy_items() {
    for change in [ContentChange::ListToggleWatchlist, ContentChange::ListRemoveWatchlist, ContentChange::ListRemoveFavorite, ContentChange::DetailWatchlist] {
        assert!(matches!(content_change_gate(change, true, false), ChangeGate::Warn("shell-account-change-lists")));
    }
    for change in [ContentChange::DetailFavorite, ContentChange::DetailPlayed] {
        assert!(matches!(content_change_gate(change, true, true), ChangeGate::Warn("shell-account-change-item")));
        assert!(matches!(content_change_gate(change, false, true), ChangeGate::Ignore));
        assert!(matches!(content_change_gate(change, false, false), ChangeGate::Proceed));
    }
    assert!(matches!(content_change_gate(ContentChange::ListRemoveFavorite, false, true), ChangeGate::Ignore));
    assert!(matches!(content_change_gate(ContentChange::ListToggleWatchlist, false, true), ChangeGate::Proceed));
    assert!(matches!(content_change_gate(ContentChange::DetailWatchlist, false, true), ChangeGate::Proceed));
}

#[test]
fn handoff_drops_user_playback_and_tray_transport() {
    assert!(!playback_input_accepted(PlaybackInputKind::Intent, true));
    assert!(!playback_input_accepted(PlaybackInputKind::QueueItemSelected, true));
    assert!(playback_input_accepted(PlaybackInputKind::Other, true));
    assert!(playback_input_accepted(PlaybackInputKind::SeekReleased, false));
    assert!(!tray_action_accepted(TrayActionKind::Transport, true));
    assert!(tray_action_accepted(TrayActionKind::Show, true));
    assert!(tray_action_accepted(TrayActionKind::Quit, true));
    assert!(tray_action_accepted(TrayActionKind::Transport, false));
}
