//! Personal lists (favorites, watchlist, history) presentation decisions.

use vstd::prelude::*;

use crate::format::decimal;
use crate::format::push_decimal;
use crate::text::push_str_chars;

verus! {

/// Which personal list a page shows.
#[derive(Clone, Copy, Debug, PartialEq, Eq, Structural)]
pub enum Kind {
    Favorites,
    Watchlist,
    History,
}

/// The personal-lists destinations.
#[derive(Clone, Copy, Debug, PartialEq, Eq, Structural)]
pub enum Route {
    Overview,
    Favorites,
    Watchlist,
    History,
}

/// One loaded page of a personal list.
#[derive(Clone, Debug)]
pub struct ListPage {
    pub total: u64,
    pub offset: u64,
    pub loading: bool,
    pub failed: bool,
}

/// The three lists.
#[derive(Clone, Debug)]
pub struct PersonalLists {
    pub favorites: ListPage,
    pub watchlist: ListPage,
    pub history: ListPage,
}

/// The count shown for a list: a dash while an empty list is still loading
/// or has failed, otherwise its total.
pub fn count_label(page: &ListPage) -> (out: String)
    ensures
        page.total == 0 && (page.loading || page.failed) ==> out@ == "—"@,
        !(page.total == 0 && (page.loading || page.failed)) ==> out@ == decimal(page.total as nat),
{
    let mut out = String::new();
    if page.total == 0 && (page.loading || page.failed) {
        push_str_chars(&mut out, "—");
    } else {
        push_decimal(&mut out, page.total as u128);
    }
    proof {
        assert(Seq::<char>::empty() + "—"@ =~= "—"@);
        assert(Seq::<char>::empty() + decimal(page.total as nat) =~= decimal(page.total as nat));
    }
    out
}

/// The destination of a list page.
pub fn route_for(kind: Kind) -> (out: Route)
    ensures
        kind == Kind::Favorites ==> out == Route::Favorites,
        kind == Kind::Watchlist ==> out == Route::Watchlist,
        kind == Kind::History ==> out == Route::History,
{
    match kind {
        Kind::Favorites => Route::Favorites,
        Kind::Watchlist => Route::Watchlist,
        Kind::History => Route::History,
    }
}

/// The list a kind names.
pub fn page_for(lists: &PersonalLists, kind: Kind) -> (out: &ListPage)
    ensures
        kind == Kind::Favorites ==> out == &lists.favorites,
        kind == Kind::Watchlist ==> out == &lists.watchlist,
        kind == Kind::History ==> out == &lists.history,
{
    match kind {
        Kind::Favorites => &lists.favorites,
        Kind::Watchlist => &lists.watchlist,
        Kind::History => &lists.history,
    }
}

/// The message titling a list page.
pub fn title_for(kind: Kind) -> (out: &'static str)
    ensures
        kind == Kind::Favorites ==> out@ == "lists-favorites"@,
        kind == Kind::Watchlist ==> out@ == "lists-watchlist"@,
        kind == Kind::History ==> out@ == "lists-history"@,
{
    match kind {
        Kind::Favorites => "lists-favorites",
        Kind::Watchlist => "lists-watchlist",
        Kind::History => "lists-history",
    }
}

/// Which of a list page's previous/next buttons can be pressed.
#[derive(Clone, Copy, Debug, PartialEq, Eq, Structural)]
pub struct PageNavigation {
    pub previous: bool,
    pub next: bool,
}

/// The paging buttons of a list shown `page_size` items at a time: neither
/// while a page loads; previous after the first page; next while the items
/// after this page (its offset plus the page size, saturating) fall short of
/// the total.
pub fn page_navigation(page: &ListPage, page_size: u64) -> (out: PageNavigation)
    ensures
        out.previous == (page.offset > 0 && !page.loading),
        out.next == ((if page.offset + page_size > u64::MAX {
            u64::MAX as int
        } else {
            page.offset + page_size
        }) < page.total && !page.loading),
{
    PageNavigation {
        previous: page.offset > 0 && !page.loading,
        next: page.offset.saturating_add(page_size) < page.total && !page.loading,
    }
}

} // verus!
