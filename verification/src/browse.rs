//! Library browsing decisions.

use vstd::prelude::*;

use crate::message::{BrowseMessage, Message};

verus! {

/// The retry action a failure surface offers: only for a retryable failure
/// and only while no retry is already running.
pub fn retry_action(retryable: bool, retry_busy: bool) -> (out: Option<Message>)
    ensures
        (out is Some) == (retryable && !retry_busy),
        out is Some ==> out matches Some(Message::Browse(BrowseMessage::Retry)),
{
    if retryable && !retry_busy {
        Some(Message::Browse(BrowseMessage::Retry))
    } else {
        None
    }
}

/// One position of the sparse browse window; `None` until its page loads.
pub struct LibraryItemSlot<T> {
    pub item: Option<T>,
}

/// The item at global `index` of a sparse window whose first slot holds index
/// `visible_start`: indexes before or beyond the window, or landing on an
/// unloaded slot, have none.
pub fn item_at<T>(visible_start: u32, slots: &[LibraryItemSlot<T>], index: usize) -> (out: Option<&T>)
    ensures
        ({
            let offset = index - visible_start;
            if 0 <= offset < slots@.len() && slots@[offset].item is Some {
                out == Some(&slots@[offset].item->0)
            } else {
                out is None
            }
        }),
{
    let start = visible_start as usize;
    if index < start {
        return None;
    }
    let slot_index = index - start;
    if slot_index >= slots.len() {
        return None;
    }
    match &slots[slot_index].item {
        Some(item) => Some(item),
        None => None,
    }
}

#[derive(Clone, Copy, Debug, PartialEq, Eq, Structural)]
pub enum VideoLibrarySort {
    Title,
    RecentlyAdded,
    ReleaseDate,
}

/// The message naming a sort order.
pub fn sort_label(sort: VideoLibrarySort) -> (out: &'static str)
    ensures
        sort == VideoLibrarySort::Title ==> out@ == "browse-sort-title"@,
        sort == VideoLibrarySort::RecentlyAdded ==> out@ == "browse-sort-recently-added"@,
        sort == VideoLibrarySort::ReleaseDate ==> out@ == "browse-sort-release-date"@,
{
    match sort {
        VideoLibrarySort::Title => "browse-sort-title",
        VideoLibrarySort::RecentlyAdded => "browse-sort-recently-added",
        VideoLibrarySort::ReleaseDate => "browse-sort-release-date",
    }
}

} // verus!
