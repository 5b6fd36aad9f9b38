use jellypilot_iced::browse::{item_at, retry_action, sort_label, LibraryItemSlot, VideoLibrarySort};
use jellypilot_iced::message::{BrowseMessage, Message};

#[test]
fn item_at_maps_global_indexes_into_the_sparse_window() {
    let slots = vec![
        LibraryItemSlot { item: Some("item-1".to_owned()) },
        LibraryItemSlot { item: None },
    ];

    assert!(item_at(24, &slots, 23).is_none(), "before the window");
    assert_eq!(item_at(24, &slots, 24).map(|item| item.as_str()), Some("item-1"), "in-range hit");
    assert!(item_at(24, &slots, 25).is_none(), "unloaded slot");
    assert!(item_at(24, &slots, 26).is_none(), "beyond the window");
    let empty: Vec<LibraryItemSlot<String>> = Vec::new();
    assert!(item_at(0, &empty, 0).is_none(), "empty window");
}

#[test]
fn non_retryable_incremental_failure_has_no_retry_action() {
    assert!(retry_action(false, false).is_none());
}

#[test]
fn retry_is_offered_only_when_retryable_and_idle() {
    assert!(matches!(retry_action(true, false), Some(Message::Browse(BrowseMessage::Retry))));
    assert!(retry_action(true, true).is_none());
    assert!(retry_action(false, true).is_none());
}

#[test]
fn sort_labels_name_their_catalog_messages() {
    assert_eq!(sort_label(VideoLibrarySort::Title), "browse-sort-title");
    assert_eq!(sort_label(VideoLibrarySort::RecentlyAdded), "browse-sort-recently-added");
    assert_eq!(sort_label(VideoLibrarySort::ReleaseDate), "browse-sort-release-date");
}
