use jellypilot_iced::detail::{
    detail_actions, episode_label, episode_play, StartPosition, nonempty, subtitle_info_label, video_info_label, ArtworkKind, DetailActionFacts,
    UserDataActionKind, VideoMediaInfo, VideoStreamInfo,
};
use jellypilot_iced::label::Label;
use jellypilot_iced::personal_lists::{
    count_label, page_for, page_navigation, route_for, title_for, Kind, ListPage, PageNavigation, PersonalLists, Route,
};
use jellypilot_iced::player_info::join;

#[test]
fn nonempty_drops_blank_values() {
    assert_eq!(nonempty(None), None);
    assert_eq!(nonempty(Some("")), None);
    assert_eq!(nonempty(Some(" \t\n\u{3000}")), None);
    assert_eq!(nonempty(Some(" x ")), Some(" x "));
}

#[test]
fn video_and_subtitle_labels_join_present_facts() {
    let info = VideoMediaInfo {
        video_height: Some(1080),
        video_codec: Some("hevc".to_owned()),
        video_range: Some("HDR10".to_owned()),
    };
    assert_eq!(video_info_label(&info).as_deref(), Some("1080p hevc HDR10"));
    let blank = VideoMediaInfo { video_height: None, video_codec: Some("  ".to_owned()), video_range: None };
    assert_eq!(video_info_label(&blank), None);
    let range_only = VideoMediaInfo { video_height: None, video_codec: None, video_range: Some("SDR".to_owned()) };
    assert_eq!(video_info_label(&range_only).as_deref(), Some("SDR"));
    let stream = VideoStreamInfo { language: Some("eng".to_owned()), codec: Some("srt".to_owned()) };
    assert_eq!(subtitle_info_label(&stream).as_deref(), Some("eng srt"));
    let codec_only = VideoStreamInfo { language: Some(" ".to_owned()), codec: Some("ass".to_owned()) };
    assert_eq!(subtitle_info_label(&codec_only).as_deref(), Some("ass"));
    assert_eq!(subtitle_info_label(&VideoStreamInfo { language: None, codec: None }), None);
}

#[test]
fn episode_labels_pad_to_two_digits() {
    assert!(matches!(episode_label(Some(1), Some(2)), Label::Text(ref t) if t == "S01E02"));
    assert!(matches!(episode_label(Some(10), Some(100)), Label::Text(ref t) if t == "S10E100"));
    assert!(matches!(episode_label(Some(-1), Some(0)), Label::Text(ref t) if *t == format!("S{:02}E{:02}", -1, 0)));
    assert!(matches!(episode_label(None, Some(2)), Label::Message("detail-episode")));
    assert!(matches!(episode_label(Some(1), None), Label::Message("detail-episode")));
}

#[test]
fn artwork_placeholders() {
    assert_eq!(ArtworkKind::Hero.initial_size(), 64);
    assert_eq!(ArtworkKind::Similar.initial_size(), 34);
    assert_eq!(ArtworkKind::Episode.initial_size(), 34);
    assert_eq!(ArtworkKind::Cast.initial_size(), 24);
}

#[test]
fn join_skips_missing_and_empty_parts() {
    assert_eq!(join(vec![]), None);
    assert_eq!(join(vec![None, Some(String::new())]), None);
    assert_eq!(join(vec![Some("a".to_owned())]).as_deref(), Some("a"));
    assert_eq!(
        join(vec![None, Some("a".to_owned()), Some(String::new()), Some("b".to_owned()), Some(" ".to_owned())])
            .as_deref(),
        Some("a · b ·  ")
    );
}

fn page(total: u64, loading: bool, failed: bool) -> ListPage {
    ListPage { total, offset: 0, loading, failed }
}

#[test]
fn list_counts_show_a_dash_only_for_empty_unsettled_lists() {
    assert_eq!(count_label(&page(0, true, false)), "—");
    assert_eq!(count_label(&page(0, false, true)), "—");
    assert_eq!(count_label(&page(0, false, false)), "0");
    assert_eq!(count_label(&page(12, true, true)), "12");
    assert_eq!(count_label(&page(u64::MAX, false, false)), u64::MAX.to_string());
}

#[test]
fn list_kinds_map_to_routes_pages_and_titles() {
    let lists = PersonalLists { favorites: page(1, false, false), watchlist: page(2, false, false), history: page(3, false, false) };
    assert_eq!(route_for(Kind::Favorites), Route::Favorites);
    assert_eq!(route_for(Kind::History), Route::History);
    assert_eq!(page_for(&lists, Kind::Watchlist).total, 2);
    assert_eq!(page_for(&lists, Kind::History).total, 3);
    assert_eq!(title_for(Kind::Favorites), "lists-favorites");
    assert_eq!(title_for(Kind::Watchlist), "lists-watchlist");
}

fn facts() -> DetailActionFacts {
    DetailActionFacts {
        has_playback_target: true,
        engine_available: true,
        favorite: false,
        watchlisted: false,
        played: false,
        any_busy: false,
        watchlist_busy: false,
        user_data_busy: None,
    }
}

#[test]
fn detail_actions_name_and_lock_their_toggles() {
    let idle = detail_actions(facts());
    assert!(idle.playback_enabled);
    assert_eq!((idle.favorite.label, idle.favorite.active, idle.favorite.enabled), ("detail-favorite", false, true));
    assert_eq!((idle.watchlist.label, idle.watchlist.active), ("detail-watchlist-add", false));
    assert_eq!((idle.played.label, idle.played.active), ("detail-mark-played", false));
    assert_eq!(idle.progress, None);

    let on = detail_actions(DetailActionFacts {
        favorite: true,
        watchlisted: true,
        played: true,
        any_busy: true,
        user_data_busy: Some(UserDataActionKind::Played),
        ..facts()
    });
    assert_eq!((on.favorite.label, on.favorite.active, on.favorite.enabled), ("detail-favorited", true, false));
    assert_eq!((on.watchlist.label, on.watchlist.enabled), ("detail-watchlisted", true));
    assert_eq!((on.played.label, on.played.enabled), ("detail-played", false));
    assert_eq!(on.progress, Some("detail-updating-played"));

    let watchlist_busy = detail_actions(DetailActionFacts { watchlist_busy: true, ..facts() });
    assert!(!watchlist_busy.watchlist.enabled && watchlist_busy.favorite.enabled);
    let favorite_busy = detail_actions(DetailActionFacts { user_data_busy: Some(UserDataActionKind::Favorite), ..facts() });
    assert_eq!(favorite_busy.progress, Some("detail-updating-favorite"));
    assert!(!detail_actions(DetailActionFacts { engine_available: false, ..facts() }).playback_enabled);
    assert!(!detail_actions(DetailActionFacts { has_playback_target: false, ..facts() }).playback_enabled);
}

#[test]
fn list_paging_buttons() {
    let first = ListPage { total: 50, offset: 0, loading: false, failed: false };
    assert_eq!(page_navigation(&first, 20), PageNavigation { previous: false, next: true });
    let middle = ListPage { offset: 20, ..first.clone() };
    assert_eq!(page_navigation(&middle, 20), PageNavigation { previous: true, next: true });
    let last = ListPage { offset: 40, ..first.clone() };
    assert_eq!(page_navigation(&last, 20), PageNavigation { previous: true, next: false });
    let exact = ListPage { total: 40, offset: 20, ..first.clone() };
    assert_eq!(page_navigation(&exact, 20), PageNavigation { previous: true, next: false });
    let loading = ListPage { loading: true, ..middle.clone() };
    assert_eq!(page_navigation(&loading, 20), PageNavigation { previous: false, next: false });
    let huge = ListPage { total: u64::MAX, offset: u64::MAX - 1, loading: false, failed: false };
    assert_eq!(page_navigation(&huge, 20), PageNavigation { previous: true, next: false });
}

#[test]
fn episode_play_button() {
    let replay = episode_play(true, true, true);
    assert_eq!((replay.label, replay.replay, replay.start, replay.enabled), ("detail-replay", true, StartPosition::Resume, true));
    let resume = episode_play(false, true, false);
    assert_eq!((resume.label, resume.start, resume.enabled), ("detail-episode-resume", StartPosition::Resume, false));
    let play = episode_play(false, false, true);
    assert_eq!((play.label, play.replay, play.start), ("detail-play", false, StartPosition::Beginning));
    assert_eq!(episode_play(true, false, true).start, StartPosition::Beginning);
}
