use jellypilot_iced::message::{AdjacentDirection, Message, PlaybackIntent, PlaybackMessage, SettingsMessage};
use jellypilot_iced::shortcuts::{
    playback_shortcut, playback_shortcuts, settings_modal_events, shortcut_capture, shortcut_matches, Event, Key,
    Modifiers, PlaybackShortcuts, ShortcutSettings, Status,
};

fn key_pressed(key: Key, modifiers: Modifiers) -> Event {
    Event::KeyPressed { modified_key: key, modifiers, repeat: false }
}

fn shift() -> Modifiers {
    Modifiers { shift: true, ..Modifiers::none() }
}

fn ctrl() -> Modifiers {
    Modifiers { control: true, ..Modifiers::none() }
}

fn character(s: &str) -> Key {
    Key::Character(s.to_owned())
}

fn named(s: &str) -> Key {
    Key::Named(s.to_owned())
}

fn settings_with_next(next: &str) -> ShortcutSettings {
    ShortcutSettings {
        key_next_episode: next.to_owned(),
        key_previous_episode: "Shift+<".to_owned(),
        key_intro_skip: "s".to_owned(),
    }
}

#[test]
fn captured_widget_key_reaches_shortcut_capture() {
    let message = shortcut_capture(key_pressed(character("k"), ctrl()), Status::Captured);
    assert!(matches!(
        message,
        Some(Message::Settings(SettingsMessage::ShortcutCaptured(binding))) if binding == "Ctrl+k"
    ));
}

#[test]
fn escape_cancels_shortcut_capture_without_persisting_a_binding() {
    let message = shortcut_capture(key_pressed(named("Escape"), Modifiers::none()), Status::Captured);
    assert!(matches!(message, Some(Message::Settings(SettingsMessage::CancelShortcutCapture))));
}

#[test]
fn escape_closes_settings_modal_when_capture_inactive() {
    let message = settings_modal_events(key_pressed(named("Escape"), Modifiers::none()), Status::Ignored);
    assert!(matches!(message, Some(Message::Settings(SettingsMessage::Close))));
}

#[test]
fn non_escape_key_does_not_close_settings_modal() {
    let message = settings_modal_events(key_pressed(character("x"), Modifiers::none()), Status::Ignored);
    assert!(message.is_none());
}

#[test]
fn captured_escape_does_not_close_settings_modal() {
    let message = settings_modal_events(key_pressed(named("Escape"), Modifiers::none()), Status::Captured);
    assert!(message.is_none());
}

#[test]
fn captured_plus_key_round_trips_through_persistence_and_matching() {
    let Some(Message::Settings(SettingsMessage::ShortcutCaptured(binding))) =
        shortcut_capture(key_pressed(character("+"), shift()), Status::Captured)
    else {
        panic!("plus key should produce a captured shortcut");
    };
    let settings = ShortcutSettings {
        key_next_episode: binding,
        key_previous_episode: "Shift+<".to_owned(),
        key_intro_skip: "s".to_owned(),
    };
    let persisted = playback_shortcuts(&settings).next;

    assert_eq!(persisted, "Shift+Plus");
    assert!(shortcut_matches(&persisted, &character("+"), shift()));
}

#[test]
fn default_episode_shortcuts_match_modified_character_keys() {
    assert!(shortcut_matches("Shift+>", &character(">"), shift()));
    assert!(shortcut_matches("Shift+<", &character("<"), shift()));
}

#[test]
fn shortcut_matching_rejects_missing_and_extra_modifiers() {
    let key = character(">");
    assert!(!shortcut_matches("Shift+>", &key, Modifiers::none()));
    assert!(!shortcut_matches("Shift+>", &key, Modifiers { shift: true, control: true, ..Modifiers::none() }));
}

#[test]
fn playback_shortcuts_reread_persisted_bindings_after_mutation() {
    let settings = settings_with_next("Ctrl+n");
    assert_eq!(playback_shortcuts(&settings).next, "Ctrl+n");
}

#[test]
fn capture_orders_modifiers_and_names_keys() {
    let all = Modifiers { shift: true, control: true, alt: true, logo: true };
    let message = shortcut_capture(key_pressed(named("ArrowRight"), all), Status::Ignored);
    assert!(matches!(
        message,
        Some(Message::Settings(SettingsMessage::ShortcutCaptured(binding))) if binding == "Ctrl+Alt+Super+Shift+ArrowRight"
    ));
}

#[test]
fn capture_ignores_modifiers_repeats_and_unidentified_keys() {
    assert!(shortcut_capture(key_pressed(named("Shift"), shift()), Status::Ignored).is_none());
    assert!(shortcut_capture(key_pressed(named("Control"), ctrl()), Status::Ignored).is_none());
    assert!(shortcut_capture(key_pressed(Key::Unidentified, Modifiers::none()), Status::Ignored).is_none());
    let repeated = Event::KeyPressed { modified_key: character("a"), modifiers: Modifiers::none(), repeat: true };
    assert!(shortcut_capture(repeated, Status::Ignored).is_none());
    assert!(shortcut_capture(Event::Other, Status::Ignored).is_none());
}

#[test]
fn matching_accepts_aliases_spacing_and_case() {
    assert!(shortcut_matches(" control + N ", &character("n"), ctrl()));
    assert!(shortcut_matches("Command+k", &character("K"), Modifiers { logo: true, ..Modifiers::none() }));
    assert!(shortcut_matches("meta+alt+k", &character("k"), Modifiers { logo: true, alt: true, ..Modifiers::none() }));
    assert!(shortcut_matches("ctrl+arrowleft", &named("ArrowLeft"), ctrl()));
    assert!(shortcut_matches("Plus", &character("+"), Modifiers::none()));
}

#[test]
fn matching_rejects_unknown_modifiers_and_empty_bindings() {
    assert!(!shortcut_matches("Hyper+k", &character("k"), Modifiers::none()));
    assert!(!shortcut_matches("", &character("k"), Modifiers::none()));
    assert!(!shortcut_matches(" + ", &character("k"), Modifiers::none()));
    assert!(!shortcut_matches("k", &Key::Unidentified, Modifiers::none()));
    assert!(!shortcut_matches("k", &character("j"), Modifiers::none()));
}

#[test]
fn captured_binding_matches_the_key_that_produced_it() {
    let cases = vec![
        (character("q"), Modifiers { alt: true, ..Modifiers::none() }),
        (character("+"), Modifiers::none()),
        (named("F5"), Modifiers { shift: true, control: true, ..Modifiers::none() }),
        (character("é"), Modifiers { logo: true, ..Modifiers::none() }),
    ];
    for (key, modifiers) in cases {
        let Some(Message::Settings(SettingsMessage::ShortcutCaptured(binding))) =
            shortcut_capture(key_pressed(key.clone(), modifiers), Status::Ignored)
        else {
            panic!("a plain key press is captured");
        };
        assert!(shortcut_matches(&binding, &key, modifiers), "{binding}");
    }
}

#[test]
fn playback_shortcut_tries_next_previous_then_intro_skip() {
    let shortcuts = PlaybackShortcuts {
        next: "Shift+>".to_owned(),
        previous: "Shift+<".to_owned(),
        intro_skip: "s".to_owned(),
    };
    assert!(matches!(
        playback_shortcut(&shortcuts, key_pressed(character(">"), shift())),
        Some(Message::Playback(PlaybackMessage::Intent(PlaybackIntent::PlayAdjacent(AdjacentDirection::Next))))
    ));
    assert!(matches!(
        playback_shortcut(&shortcuts, key_pressed(character("<"), shift())),
        Some(Message::Playback(PlaybackMessage::Intent(PlaybackIntent::PlayAdjacent(AdjacentDirection::Previous))))
    ));
    assert!(matches!(
        playback_shortcut(&shortcuts, key_pressed(character("S"), Modifiers::none())),
        Some(Message::Playback(PlaybackMessage::Intent(PlaybackIntent::SkipIntro)))
    ));
    assert!(playback_shortcut(&shortcuts, key_pressed(character("x"), Modifiers::none())).is_none());
    let repeated = Event::KeyPressed { modified_key: character(">"), modifiers: shift(), repeat: true };
    assert!(playback_shortcut(&shortcuts, repeated).is_none());
    let same = PlaybackShortcuts { next: "s".to_owned(), previous: "s".to_owned(), intro_skip: "s".to_owned() };
    assert!(matches!(
        playback_shortcut(&same, key_pressed(character("s"), Modifiers::none())),
        Some(Message::Playback(PlaybackMessage::Intent(PlaybackIntent::PlayAdjacent(AdjacentDirection::Next))))
    ));
}
