//! Item detail text.

use vstd::prelude::*;

use crate::format::{binary_size, binary_size_text, decimal, padded_signed, push_decimal, push_padded};
use crate::label::{Label, LabelView};
use crate::text::{chars_have_content, chars_of, has_content, lemma_trim_empty_iff, trim};

verus! {

/// The value if it holds anything but whitespace, that is, if it is not
/// empty once trimmed.
pub fn nonempty(value: Option<&str>) -> (out: Option<&str>)
    ensures
        match value {
            Some(s) => if trim(s@).len() > 0 {
                out == Some(s)
            } else {
                out is None
            },
            None => out is None,
        },
{
    match value {
        Some(s) => {
            proof {
                lemma_trim_empty_iff(s@);
            }
            if chars_have_content(&chars_of(s)) {
                Some(s)
            } else {
                None
            }
        },
        None => None,
    }
}

/// A file size: GiB with one decimal from one GiB up, MiB below.
pub fn humanized_size(size_bytes: u64) -> (out: String)
    ensures
        out@ == binary_size_text(size_bytes as nat),
{
    binary_size(size_bytes)
}

/// Kinds of detail artwork.
#[derive(Clone, Copy, Debug, PartialEq, Eq, Structural)]
pub enum ArtworkKind {
    Hero,
    Similar,
    Episode,
    Cast,
}

impl ArtworkKind {
    /// The side length, in pixels, of the placeholder drawn before an image arrives.
    pub fn initial_size(self) -> (out: u32)
        ensures
            self == ArtworkKind::Hero ==> out == 64,
            self == ArtworkKind::Similar || self == ArtworkKind::Episode ==> out == 34,
            self == ArtworkKind::Cast ==> out == 24,
    {
        match self {
            ArtworkKind::Hero => 64,
            ArtworkKind::Similar | ArtworkKind::Episode => 34,
            ArtworkKind::Cast => 24,
        }
    }
}

/// Video facts of a media source.
#[derive(Clone, Debug)]
pub struct VideoMediaInfo {
    pub video_height: Option<u32>,
    pub video_codec: Option<String>,
    pub video_range: Option<String>,
}

/// One subtitle or audio stream.
#[derive(Clone, Debug)]
pub struct VideoStreamInfo {
    pub language: Option<String>,
    pub codec: Option<String>,
}

/// `s` if it is present and holds anything but whitespace.
pub open spec fn present(s: Option<String>) -> Option<Seq<char>> {
    match s {
        Some(v) => if has_content(v@) {
            Some(v@)
        } else {
            None
        },
        None => None,
    }
}

/// The present values joined by single spaces.
pub open spec fn spaced(values: Seq<Seq<char>>) -> Seq<char>
    decreases values.len(),
{
    if values.len() == 0 {
        Seq::<char>::empty()
    } else if values.len() == 1 {
        values[0]
    } else {
        spaced(values.drop_last()) + seq![' '] + values.last()
    }
}

pub open spec fn some_values(values: Seq<Option<Seq<char>>>) -> Seq<Seq<char>>
    decreases values.len(),
{
    if values.len() == 0 {
        Seq::<Seq<char>>::empty()
    } else {
        let rest = some_values(values.drop_last());
        match values.last() {
            Some(v) => rest.push(v),
            None => rest,
        }
    }
}

/// The label for a list of optional values: `None` when none is present.
pub open spec fn spaced_label(values: Seq<Option<Seq<char>>>) -> Option<Seq<char>> {
    if some_values(values).len() == 0 {
        None
    } else {
        Some(spaced(some_values(values)))
    }
}

/// Appends `value` to a space-separated list holding `count` values.
fn push_spaced(out: &mut String, count: usize, value: &Vec<char>, Ghost(values): Ghost<Seq<Seq<char>>>)
    requires
        values.len() == count,
        old(out)@ == spaced(values),
    ensures
        final(out)@ == spaced(values.push(value@)),
{
    let ghost pushed = values.push(value@);
    assert(pushed.drop_last() =~= values);
    if count > 0 {
        out.push(' ');
    }
    crate::text::push_all(out, value);
    if count == 0 {
        assert(out@ =~= spaced(pushed));
    } else {
        assert(out@ =~= spaced(pushed));
    }
}

pub open spec fn chars_match(c: Option<Vec<char>>, v: Option<Seq<char>>) -> bool {
    match v {
        Some(v) => c matches Some(c) && c@ == v,
        None => c is None,
    }
}

fn present_chars(s: &Option<String>) -> (out: Option<Vec<char>>)
    ensures
        chars_match(out, present(*s)),
{
    match s {
        Some(v) => {
            let c = chars_of(v.as_str());
            if chars_have_content(&c) {
                Some(c)
            } else {
                None
            }
        },
        None => None,
    }
}

/// The label for a list of optional values, computed.
fn spaced_label_of(values: Vec<Option<Vec<char>>>, Ghost(views): Ghost<Seq<Option<Seq<char>>>>) -> (out: Option<String>)
    requires
        values.len() == views.len(),
        forall|i: int| 0 <= i < values.len() ==> #[trigger] chars_match(values@[i], views[i]),
    ensures
        match spaced_label(views) {
            Some(l) => out matches Some(s) && s@ == l,
            None => out is None,
        },
{
    let mut out = String::new();
    let mut count: usize = 0;
    let mut i: usize = 0;
    assert(views.take(0) =~= Seq::<Option<Seq<char>>>::empty());
    while i < values.len()
        invariant
            i <= values.len() == views.len(),
            forall|j: int| 0 <= j < values.len() ==> #[trigger] chars_match(values@[j], views[j]),
            count == some_values(views.take(i as int)).len(),
            count <= i,
            out@ == spaced(some_values(views.take(i as int))),
        decreases values.len() - i,
    {
        assert(views.take(i as int + 1).drop_last() =~= views.take(i as int));
        assert(views.take(i as int + 1).last() == views[i as int]);
        assert(chars_match(values@[i as int], views[i as int]));
        match &values[i] {
            Some(c) => {
                push_spaced(&mut out, count, c, Ghost(some_values(views.take(i as int))));
                count += 1;
            },
            None => {},
        }
        i += 1;
    }
    assert(views.take(values.len() as int) =~= views);
    if count == 0 {
        None
    } else {
        Some(out)
    }
}

/// Video facts joined by spaces, e.g. `1080p hevc HDR10`.
pub fn video_info_label(info: &VideoMediaInfo) -> (out: Option<String>)
    ensures
        match spaced_label(
            seq![
                match info.video_height {
                    Some(h) => Some(decimal(h as nat) + seq!['p']),
                    None => None,
                },
                present(info.video_codec),
                present(info.video_range),
            ],
        ) {
            Some(l) => out matches Some(s) && s@ == l,
            None => out is None,
        },
{
    let height = match info.video_height {
        Some(h) => {
            let mut text = String::new();
            push_decimal(&mut text, h as u128);
            text.push('p');
            assert(text@ =~= decimal(h as nat) + seq!['p']);
            Some(chars_of(text.as_str()))
        },
        None => None,
    };
    let values = vec![height, present_chars(&info.video_codec), present_chars(&info.video_range)];
    let ghost views = seq![
        match info.video_height {
            Some(h) => Some(decimal(h as nat) + seq!['p']),
            None => None,
        },
        present(info.video_codec),
        present(info.video_range),
    ];
    assert(chars_match(values@[0], views[0]));
    assert(chars_match(values@[1], views[1]));
    assert(chars_match(values@[2], views[2]));
    spaced_label_of(values, Ghost(views))
}

/// A subtitle stream's language and codec joined by a space.
pub fn subtitle_info_label(stream: &VideoStreamInfo) -> (out: Option<String>)
    ensures
        match spaced_label(seq![present(stream.language), present(stream.codec)]) {
            Some(l) => out matches Some(s) && s@ == l,
            None => out is None,
        },
{
    let values = vec![present_chars(&stream.language), present_chars(&stream.codec)];
    let ghost views = seq![present(stream.language), present(stream.codec)];
    assert(chars_match(values@[0], views[0]));
    assert(chars_match(values@[1], views[1]));
    spaced_label_of(values, Ghost(views))
}

/// The episode marker `S01E02`, or the generic episode message when either
/// number is missing.
pub fn episode_label(season_number: Option<i32>, episode_number: Option<i32>) -> (out: Label)
    ensures
        match (season_number, episode_number) {
            (Some(s), Some(e)) => out@ == LabelView::Text(
                seq!['S'] + padded_signed(s as int) + seq!['E'] + padded_signed(e as int),
            ),
            _ => out@ == LabelView::Message("detail-episode"@),
        },
{
    match (season_number, episode_number) {
        (Some(season), Some(number)) => {
            let mut text = String::new();
            text.push('S');
            push_padded(&mut text, season);
            text.push('E');
            push_padded(&mut text, number);
            assert(text@ =~= seq!['S'] + padded_signed(season as int) + seq!['E'] + padded_signed(number as int));
            Label::Text(text)
        },
        _ => Label::Message("detail-episode"),
    }
}


/// A toggle button of the detail page: its label message, whether it shows
/// the toggled-on (active) style, and whether it can be pressed.
#[derive(Clone, Copy, Debug)]
pub struct ToggleButton {
    pub label: &'static str,
    pub active: bool,
    pub enabled: bool,
}

/// Which user-data change is in flight.
#[derive(Clone, Copy, Debug, PartialEq, Eq, Structural)]
pub enum UserDataActionKind {
    Favorite,
    Played,
}

/// The state of the detail page's action row.
#[derive(Clone, Copy, Debug)]
pub struct DetailActions {
    pub playback_enabled: bool,
    pub favorite: ToggleButton,
    pub watchlist: ToggleButton,
    pub played: ToggleButton,
    /// The progress message shown while a user-data change is in flight.
    pub progress: Option<&'static str>,
}

/// The facts the detail action row reads.
#[derive(Clone, Copy, Debug, PartialEq, Eq, Structural)]
pub struct DetailActionFacts {
    pub has_playback_target: bool,
    pub engine_available: bool,
    pub favorite: bool,
    pub watchlisted: bool,
    pub played: bool,
    /// A favorite or played change of this item is in flight.
    pub any_busy: bool,
    /// A watchlist change of this item is in flight.
    pub watchlist_busy: bool,
    pub user_data_busy: Option<UserDataActionKind>,
}

/// The detail action row: playback needs a target and an available engine;
/// favorite and played are locked while either is changing, the watchlist
/// toggle while it is changing; each toggle names and styles its state.
pub fn detail_actions(facts: DetailActionFacts) -> (out: DetailActions)
    ensures
        out.playback_enabled == (facts.has_playback_target && facts.engine_available),
        out.favorite.active == facts.favorite,
        out.favorite.enabled == !facts.any_busy,
        out.favorite.label@ == (if facts.favorite { "detail-favorited"@ } else { "detail-favorite"@ }),
        out.watchlist.active == facts.watchlisted,
        out.watchlist.enabled == !facts.watchlist_busy,
        out.watchlist.label@ == (if facts.watchlisted {
            "detail-watchlisted"@
        } else {
            "detail-watchlist-add"@
        }),
        out.played.active == facts.played,
        out.played.enabled == !facts.any_busy,
        out.played.label@ == (if facts.played { "detail-played"@ } else { "detail-mark-played"@ }),
        facts.user_data_busy is None ==> out.progress is None,
        facts.user_data_busy == Some(UserDataActionKind::Favorite) ==> (out.progress matches Some(p)
            && p@ == "detail-updating-favorite"@),
        facts.user_data_busy == Some(UserDataActionKind::Played) ==> (out.progress matches Some(p)
            && p@ == "detail-updating-played"@),
{
    DetailActions {
        playback_enabled: facts.has_playback_target && facts.engine_available,
        favorite: ToggleButton {
            label: if facts.favorite { "detail-favorited" } else { "detail-favorite" },
            active: facts.favorite,
            enabled: !facts.any_busy,
        },
        watchlist: ToggleButton {
            label: if facts.watchlisted { "detail-watchlisted" } else { "detail-watchlist-add" },
            active: facts.watchlisted,
            enabled: !facts.watchlist_busy,
        },
        played: ToggleButton {
            label: if facts.played { "detail-played" } else { "detail-mark-played" },
            active: facts.played,
            enabled: !facts.any_busy,
        },
        progress: match facts.user_data_busy {
            Some(UserDataActionKind::Favorite) => Some("detail-updating-favorite"),
            Some(UserDataActionKind::Played) => Some("detail-updating-played"),
            None => None,
        },
    }
}

/// Where playback starts.
#[derive(Clone, Copy, Debug, PartialEq, Eq, Structural)]
pub enum StartPosition {
    Beginning,
    Resume,
}

/// An episode card's play button.
#[derive(Clone, Copy, Debug)]
pub struct EpisodePlay {
    pub label: &'static str,
    /// A played episode offers a replay, styled as a secondary action.
    pub replay: bool,
    pub start: StartPosition,
    /// Pressable only while a playback engine is available.
    pub enabled: bool,
}

/// The play button of an episode card: replay for a played episode, resume
/// when it has a resume position, play otherwise; playback resumes exactly
/// when there is a resume position.
pub fn episode_play(played: bool, has_resume: bool, engine_available: bool) -> (out: EpisodePlay)
    ensures
        out.label@ == (if played {
            "detail-replay"@
        } else if has_resume {
            "detail-episode-resume"@
        } else {
            "detail-play"@
        }),
        out.replay == played,
        (out.start == StartPosition::Resume) == has_resume,
        out.enabled == engine_available,
{
    EpisodePlay {
        label: if played {
            "detail-replay"
        } else if has_resume {
            "detail-episode-resume"
        } else {
            "detail-play"
        },
        replay: played,
        start: if has_resume { StartPosition::Resume } else { StartPosition::Beginning },
        enabled: engine_available,
    }
}

} // verus!
