//! Home page decisions.

use vstd::prelude::*;

use crate::format::{decimal, push_decimal};
use crate::text::{chars_eq, chars_eq_ignore_ascii_case, chars_of, eq_ignore_ascii_case, push_str_chars, string_of};

verus! {

/// The rows of the Home page.
#[derive(Clone, Copy, Debug, PartialEq, Eq, Structural)]
pub enum HomeSection {
    ContinueWatching,
    NextUp,
    Latest(u64),
}

impl HomeSection {
    pub open spec fn is_latest_spec(self) -> bool {
        self matches HomeSection::Latest(_)
    }
}

/// The facts about a library item that Home's badges read.
#[derive(Clone, Debug)]
pub struct BadgeItem {
    pub item_type: String,
    pub unplayed_item_count: Option<u32>,
}

/// The unplayed-count badge of a card: only latest-content rows badge a
/// series, with its count up to 99 and `99+` beyond; none for zero.
pub fn unplayed_badge_text(section: HomeSection, item: &BadgeItem) -> (out: Option<String>)
    ensures
        !section.is_latest_spec() || !eq_ignore_ascii_case(item.item_type@, "Series"@)
            ==> out is None,
        section.is_latest_spec() && eq_ignore_ascii_case(item.item_type@, "Series"@) ==> match item.unplayed_item_count {
            Some(count) => if 1 <= count < 100 {
                out matches Some(s) && s@ == decimal(count as nat)
            } else if count >= 100 {
                out matches Some(s) && s@ == "99+"@
            } else {
                out is None
            },
            None => out is None,
        },
{
    let is_latest = match section {
        HomeSection::Latest(_) => true,
        _ => false,
    };
    if !is_latest || !chars_eq_ignore_ascii_case(&chars_of(item.item_type.as_str()), &chars_of("Series")) {
        return None;
    }
    match item.unplayed_item_count {
        Some(count) => {
            let mut text = String::new();
            if 1 <= count && count < 100 {
                push_decimal(&mut text, count as u128);
                assert(text@ =~= decimal(count as nat));
                Some(text)
            } else if count >= 100 {
                push_str_chars(&mut text, "99+");
                assert(text@ =~= "99+"@);
                Some(text)
            } else {
                None
            }
        },
        None => None,
    }
}

/// The featured hero's candidate rail: which candidate is selected and
/// where the previous and next buttons lead.
#[derive(Clone, Debug)]
pub struct HeroRail {
    /// Whether the rail and its buttons are shown at all.
    pub shown: bool,
    pub selected: usize,
    pub previous: Option<String>,
    pub next: Option<String>,
}

/// The first position of `id` among `ids`, if any.
pub open spec fn first_index_of(ids: Seq<Seq<char>>, id: Seq<char>) -> Option<int>
    decreases ids.len(),
{
    if ids.len() == 0 {
        None
    } else {
        match first_index_of(ids.drop_last(), id) {
            Some(i) => Some(i),
            None => if ids.last() == id {
                Some(ids.len() - 1)
            } else {
                None
            },
        }
    }
}

pub open spec fn ids_view(ids: Seq<String>) -> Seq<Seq<char>> {
    Seq::new(ids.len(), |i: int| ids[i]@)
}

/// The selected position: the current item's first position among the
/// candidates, or the first candidate when it is not among them.
pub open spec fn hero_selected(ids: Seq<Seq<char>>, current: Seq<char>) -> int {
    match first_index_of(ids, current) {
        Some(i) => i,
        None => 0,
    }
}

proof fn lemma_first_index_of(ids: Seq<Seq<char>>, id: Seq<char>)
    ensures
        match first_index_of(ids, id) {
            Some(i) => 0 <= i < ids.len() && ids[i] == id && forall|j: int| 0 <= j < i ==> ids[j] != id,
            None => forall|j: int| 0 <= j < ids.len() ==> ids[j] != id,
        },
    decreases ids.len(),
{
    if ids.len() > 0 {
        let rest = ids.drop_last();
        lemma_first_index_of(rest, id);
        assert(forall|j: int| 0 <= j < rest.len() ==> rest[j] == ids[j]);
    }
}

/// With distinct candidate ids, featuring a candidate selects its own
/// position, so the next button of one candidate leads to a candidate whose
/// previous button leads back, and the other way round.
pub proof fn lemma_hero_rail_steps_are_inverse(ids: Seq<Seq<char>>, i: int)
    requires
        forall|a: int, b: int| 0 <= a < ids.len() && 0 <= b < ids.len() && a != b ==> ids[a] != ids[b],
        0 <= i < ids.len(),
    ensures
        hero_selected(ids, ids[i]) == i,
        i + 1 < ids.len() ==> hero_selected(ids, ids[i + 1]) - 1 == i,
        i > 0 ==> hero_selected(ids, ids[i - 1]) + 1 == i,
{
    lemma_first_index_of(ids, ids[i]);
    if i + 1 < ids.len() {
        lemma_first_index_of(ids, ids[i + 1]);
    }
    if i > 0 {
        lemma_first_index_of(ids, ids[i - 1]);
    }
}

/// The rail for the hero candidates `candidate_ids` while `current_id` is
/// featured. A single candidate is a static hero: no rail, no buttons.
pub fn hero_rail(candidate_ids: &Vec<String>, current_id: &str) -> (out: HeroRail)
    ensures
        out.shown == (candidate_ids@.len() > 1),
        out.selected as int == hero_selected(ids_view(candidate_ids@), current_id@),
        out.shown && out.selected > 0 ==> (out.previous matches Some(p) && p@
            == candidate_ids@[out.selected - 1]@),
        !(out.shown && out.selected > 0) ==> out.previous is None,
        out.shown && out.selected + 1 < candidate_ids@.len() ==> (out.next matches Some(n) && n@
            == candidate_ids@[out.selected + 1]@),
        !(out.shown && out.selected + 1 < candidate_ids@.len()) ==> out.next is None,
{
    let ghost ids = ids_view(candidate_ids@);
    let current = chars_of(current_id);
    let mut selected: usize = 0;
    let mut found = false;
    let mut i: usize = 0;
    proof {
        assert(ids.take(0) =~= Seq::<Seq<char>>::empty());
    }
    while i < candidate_ids.len() && !found
        invariant
            i <= candidate_ids.len(),
            ids == ids_view(candidate_ids@),
            current@ == current_id@,
            found ==> first_index_of(ids, current_id@) == Some(selected as int) && selected
                < candidate_ids.len(),
            !found ==> selected == 0,
            !found ==> forall|j: int| 0 <= j < i ==> ids[j] != current_id@,
        decreases candidate_ids.len() - i + if found { 0int } else { 1int },
    {
        if chars_eq(&chars_of(candidate_ids[i].as_str()), &current) {
            proof {
                lemma_first_index_of(ids, current_id@);
                assert(ids[i as int] == current_id@);
            }
            selected = i;
            found = true;
        } else {
            i += 1;
        }
    }
    proof {
        lemma_first_index_of(ids, current_id@);
        if !found {
            assert(first_index_of(ids, current_id@) is None);
        }
    }
    let shown = candidate_ids.len() > 1;
    let previous = if shown && selected > 0 {
        Some(string_of(&chars_of(candidate_ids[selected - 1].as_str())))
    } else {
        None
    };
    let next = if shown && selected + 1 < candidate_ids.len() {
        Some(string_of(&chars_of(candidate_ids[selected + 1].as_str())))
    } else {
        None
    };
    HeroRail { shown, selected, previous, next }
}

/// Where a row's content stands.
#[derive(Clone, Copy, Debug, PartialEq, Eq, Structural)]
pub enum RowLoad {
    Idle,
    Loading,
    Ready,
    Failed,
}

/// Home is loading while any of its rows is.
pub fn home_is_loading(rows: &Vec<RowLoad>) -> (out: bool)
    ensures
        out == exists|i: int| 0 <= i < rows@.len() && rows@[i] == RowLoad::Loading,
{
    let mut i: usize = 0;
    while i < rows.len()
        invariant
            i <= rows.len(),
            forall|j: int| 0 <= j < i ==> rows@[j] != RowLoad::Loading,
        decreases rows.len() - i,
    {
        if rows[i] == RowLoad::Loading {
            return true;
        }
        i += 1;
    }
    false
}

} // verus!
