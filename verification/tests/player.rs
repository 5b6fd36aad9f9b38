use jellypilot_iced::label::Label;
use jellypilot_iced::player::{
    audio_menu, media_caption, media_type, track_choices, track_label, AudioMenuFacts, TrackInfo, TracksState,
};

fn track(id: i64, track_type: &str, title: Option<&str>, language: Option<&str>) -> TrackInfo {
    TrackInfo {
        id,
        track_type: track_type.to_owned(),
        title: title.map(str::to_owned),
        language: language.map(str::to_owned),
    }
}

fn text(label: &Label) -> &str {
    match label {
        Label::Text(text) => text,
        other => panic!("expected literal text, got {other:?}"),
    }
}

#[test]
fn track_choices_includes_off_for_subtitles_and_excludes_for_audio() {
    let tracks = vec![
        track(1, "audio", Some("English Stereo"), Some("eng")),
        track(2, "audio", Some("Spanish"), Some("spa")),
        track(3, "sub", Some("English SDH"), Some("eng")),
    ];
    let audio_choices = track_choices(&tracks, "audio", false);
    assert_eq!(audio_choices.len(), 2);
    assert_eq!(audio_choices[0].id, Some(1));
    assert_eq!(text(&audio_choices[0].label), "English Stereo · eng");
    assert_eq!(audio_choices[1].id, Some(2));
    assert_eq!(text(&audio_choices[1].label), "Spanish · spa");

    let sub_choices = track_choices(&tracks, "sub", true);
    assert_eq!(sub_choices.len(), 2);
    assert_eq!(sub_choices[0].id, None);
    assert_eq!(sub_choices[1].id, Some(3));
    assert_eq!(text(&sub_choices[1].label), "English SDH · eng");
}

#[test]
fn locale_changes_track_fallbacks_without_changing_media_data_or_selection() {
    let tracks = vec![track(7, "sub", Some("字幕 · English SDH"), Some("eng")), track(8, "sub", None, None)];
    let choices = track_choices(&tracks, "sub", true);
    assert_eq!(choices.iter().map(|choice| choice.id).collect::<Vec<_>>(), vec![None, Some(7), Some(8)]);
    // Only the "off" entry and the untitled fallback go through the catalog.
    assert!(matches!(choices[0].label, Label::Message("common-off")));
    assert_eq!(text(&choices[1].label), "字幕 · English SDH · eng");
    assert!(matches!(choices[2].label, Label::Numbered("player-track", 8)));
}

#[test]
fn track_label_uses_whichever_parts_exist() {
    assert_eq!(text(&track_label(&track(1, "audio", Some("Stereo"), None))), "Stereo");
    assert_eq!(text(&track_label(&track(1, "audio", None, Some("fra")))), "fra");
    assert!(matches!(track_label(&track(4, "audio", None, None)), Label::Numbered("player-track", 4)));
}

#[test]
fn media_types_name_their_messages() {
    assert_eq!(media_type("Episode"), "player-episode");
    assert_eq!(media_type("Movie"), "player-movie");
    assert_eq!(media_type("MusicVideo"), "player-music-video");
    assert_eq!(media_type("movie"), "player-media");
    assert_eq!(media_type(""), "player-media");
}

#[test]
fn caption_numbers_episodes_with_two_digits() {
    assert_eq!(media_caption("Episode", Some("Show"), Some(1), Some(2)), "Show · S01E02");
    assert_eq!(media_caption("Episode", Some("Show"), Some(12), Some(345)), "Show · S12E345");
    assert_eq!(media_caption("Episode", Some("Show"), Some(0), Some(-3)), format!("Show · S{:02}E{:02}", 0, -3));
    assert_eq!(media_caption("Episode", Some("Show"), Some(-12), Some(i32::MIN)), format!("Show · S{:02}E{:02}", -12, i32::MIN));
    assert_eq!(media_caption("Episode", Some("Show"), None, Some(2)), "Show · Episode");
    assert_eq!(media_caption("Movie", None, Some(1), Some(2)), "Movie");
}

fn menu(tracks: TracksState, original: Vec<bool>, embedded: bool, busy: bool) -> AudioMenuFacts {
    AudioMenuFacts { tracks, original_language: original, embedded, busy, menu_open: true }
}

#[test]
fn audio_menu_lists_audio_tracks_and_marks_the_selected_and_original() {
    let tracks = vec![
        track(1, "sub", Some("Subs"), Some("jpn")),
        track(1, "audio", Some("Japanese"), Some("jpn")),
        track(2, "audio", Some("English"), Some("eng")),
    ];
    // The original-language flag follows the first track with the entry's id.
    let out = audio_menu(menu(TracksState::Ready { tracks: tracks.clone(), audio: Some(2) }, vec![true, false, false], false, true));
    assert!(out.trigger_enabled && out.trigger_active);
    assert_eq!(out.message, None);
    let entries: Vec<_> = out.items.iter().map(|i| (i.id, i.active, i.original, i.enabled)).collect();
    assert_eq!(entries, vec![(1, false, true, true), (2, true, false, true)]);
    assert_eq!(text(&out.items[0].label), "Japanese · jpn");

    let busy = audio_menu(menu(TracksState::Ready { tracks, audio: None }, vec![], true, true));
    assert!(!busy.trigger_enabled);
    assert!(busy.items.iter().all(|i| !i.enabled && !i.active && !i.original));
}

#[test]
fn audio_menu_messages() {
    let none = audio_menu(menu(TracksState::Ready { tracks: vec![track(3, "sub", None, None)], audio: None }, vec![], false, false));
    assert!(!none.trigger_enabled && none.items.is_empty());
    assert_eq!(none.message, Some("player-no-audio"));
    assert_eq!(audio_menu(menu(TracksState::Loading, vec![], false, false)).message, Some("player-loading-audio"));
    let unavailable = audio_menu(menu(TracksState::Unavailable, vec![], false, false));
    assert_eq!(unavailable.message, Some("player-unavailable-audio"));
    assert!(!unavailable.trigger_enabled);
}
