//! Player text: captions and audio/subtitle track choices.

use vstd::prelude::*;

use crate::format::{padded_signed, push_padded};
use crate::label::{Label, LabelView};
use crate::text::{ascii_lower, chars_eq, chars_of, push_str_chars, str_is, string_of};

verus! {

/// The catalog message naming a media item type.
pub open spec fn media_type_message(item_type: Seq<char>) -> Seq<char> {
    if item_type == "Movie"@ {
        "player-movie"@
    } else if item_type == "Episode"@ {
        "player-episode"@
    } else if item_type == "Series"@ {
        "player-series"@
    } else if item_type == "Season"@ {
        "player-season"@
    } else if item_type == "Video"@ {
        "player-video"@
    } else if item_type == "Audio"@ {
        "player-audio"@
    } else if item_type == "MusicVideo"@ {
        "player-music-video"@
    } else {
        "player-media"@
    }
}

/// A type name in message-id form: lowercase, with a hyphen before each
/// capital after the first letter (`MusicVideo` becomes `music-video`).
pub open spec fn kebab(s: Seq<char>) -> Seq<char>
    decreases s.len(),
{
    if s.len() == 0 {
        Seq::empty()
    } else {
        let c = s.last();
        let rest = kebab(s.drop_last());
        if s.len() > 1 && 'A' <= c && c <= 'Z' {
            rest + seq!['-', ascii_lower(c)]
        } else {
            rest.push(ascii_lower(c))
        }
    }
}

/// The item types the player names: Movie, Episode, Series, Season, Video,
/// Audio and MusicVideo.
pub open spec fn is_named_item_type(t: Seq<char>) -> bool {
    ||| t == "Movie"@
    ||| t == "Episode"@
    ||| t == "Series"@
    ||| t == "Season"@
    ||| t == "Video"@
    ||| t == "Audio"@
    ||| t == "MusicVideo"@
}

/// Each named item type has its own message, `player-` followed by the type
/// in message-id form; every other type is generic media. So distinct named
/// types never share a message.
pub proof fn lemma_media_type_names_each_type(t: Seq<char>, u: Seq<char>)
    ensures
        is_named_item_type(t) ==> media_type_message(t) == "player-"@ + kebab(t),
        !is_named_item_type(t) ==> media_type_message(t) == "player-media"@,
        is_named_item_type(t) && is_named_item_type(u) && t != u ==> media_type_message(t)
            != media_type_message(u),
{
    reveal_strlit("Movie");
    reveal_strlit("Episode");
    reveal_strlit("Series");
    reveal_strlit("Season");
    reveal_strlit("Video");
    reveal_strlit("Audio");
    reveal_strlit("MusicVideo");
    reveal_strlit("player-");
    reveal_strlit("player-movie");
    reveal_strlit("player-episode");
    reveal_strlit("player-series");
    reveal_strlit("player-season");
    reveal_strlit("player-video");
    reveal_strlit("player-audio");
    reveal_strlit("player-music-video");
    reveal_strlit("player-media");
    reveal_with_fuel(kebab, 11);
    assert("player-"@ + kebab("Movie"@) =~= "player-movie"@);
    assert("player-"@ + kebab("Episode"@) =~= "player-episode"@);
    assert("player-"@ + kebab("Series"@) =~= "player-series"@);
    assert("player-"@ + kebab("Season"@) =~= "player-season"@);
    assert("player-"@ + kebab("Video"@) =~= "player-video"@);
    assert("player-"@ + kebab("Audio"@) =~= "player-audio"@);
    assert("player-"@ + kebab("MusicVideo"@) =~= "player-music-video"@);
    assert("player-movie"@.len() == 12 && "player-movie"@[7] == 'm' && "player-movie"@[9] == 'v');
    assert("player-episode"@.len() == 14);
    assert("player-series"@.len() == 13 && "player-series"@[9] == 'r');
    assert("player-season"@.len() == 13 && "player-season"@[9] == 'a');
    assert("player-video"@.len() == 12 && "player-video"@[7] == 'v');
    assert("player-audio"@.len() == 12 && "player-audio"@[7] == 'a');
    assert("player-music-video"@.len() == 18);
}

/// The message naming a media item type; unknown types are generic media.
pub fn media_type(item_type: &str) -> (out: &'static str)
    ensures
        out@ == media_type_message(item_type@),
{
    if str_is(item_type, "Movie") {
        "player-movie"
    } else if str_is(item_type, "Episode") {
        "player-episode"
    } else if str_is(item_type, "Series") {
        "player-series"
    } else if str_is(item_type, "Season") {
        "player-season"
    } else if str_is(item_type, "Video") {
        "player-video"
    } else if str_is(item_type, "Audio") {
        "player-audio"
    } else if str_is(item_type, "MusicVideo") {
        "player-music-video"
    } else {
        "player-media"
    }
}

/// The caption under the playing title: `Series · S01E02` for an episode,
/// `Series · Type` when the numbers are missing, otherwise the type alone.
pub open spec fn caption(
    type_text: Seq<char>,
    series_name: Option<Seq<char>>,
    season: Option<i32>,
    episode: Option<i32>,
) -> Seq<char> {
    match (series_name, season, episode) {
        (Some(series), Some(s), Some(e)) => series + " · S"@ + padded_signed(s as int) + seq!['E']
            + padded_signed(e as int),
        (Some(series), _, _) => series + " · "@ + type_text,
        _ => type_text,
    }
}

/// The caption for a playing item, given its localized type text.
pub fn media_caption(
    type_text: &str,
    series_name: Option<&str>,
    season: Option<i32>,
    episode: Option<i32>,
) -> (out: String)
    ensures
        out@ == caption(
            type_text@,
            match series_name {
                Some(s) => Some(s@),
                None => None,
            },
            season,
            episode,
        ),
{
    let mut out = String::new();
    match (series_name, season, episode) {
        (Some(series), Some(s), Some(e)) => {
            push_str_chars(&mut out, series);
            push_str_chars(&mut out, " · S");
            push_padded(&mut out, s);
            out.push('E');
            push_padded(&mut out, e);
        },
        (Some(series), _, _) => {
            push_str_chars(&mut out, series);
            push_str_chars(&mut out, " · ");
            push_str_chars(&mut out, type_text);
        },
        _ => {
            push_str_chars(&mut out, type_text);
        },
    }
    assert(out@ =~= caption(
        type_text@,
        match series_name {
            Some(s) => Some(s@),
            None => None,
        },
        season,
        episode,
    ));
    out
}

/// An audio or subtitle track of the playing media.
#[derive(Clone, Debug)]
pub struct TrackInfo {
    pub id: i64,
    pub track_type: String,
    pub title: Option<String>,
    pub language: Option<String>,
}

/// One entry of a track menu; `id` is `None` for "off".
#[derive(Clone, Debug)]
pub struct TrackChoice {
    pub id: Option<i64>,
    pub label: Label,
}

/// A track's name: `Title · language`, either part alone, or the numbered
/// generic track message.
pub open spec fn track_label_view(track: TrackInfo) -> LabelView {
    match (track.title, track.language) {
        (Some(title), Some(language)) => LabelView::Text(title@ + " · "@ + language@),
        (Some(title), None) => LabelView::Text(title@),
        (None, Some(language)) => LabelView::Text(language@),
        (None, None) => LabelView::Numbered("player-track"@, track.id as int),
    }
}

pub fn track_label(track: &TrackInfo) -> (out: Label)
    ensures
        out@ == track_label_view(*track),
{
    match (&track.title, &track.language) {
        (Some(title), Some(language)) => {
            let mut text = String::new();
            push_str_chars(&mut text, title.as_str());
            push_str_chars(&mut text, " · ");
            push_str_chars(&mut text, language.as_str());
            assert(text@ =~= title@ + " · "@ + language@);
            Label::Text(text)
        },
        (Some(title), None) => {
            let mut text = String::new();
            push_str_chars(&mut text, title.as_str());
            assert(text@ =~= title@);
            Label::Text(text)
        },
        (None, Some(language)) => {
            let mut text = String::new();
            push_str_chars(&mut text, language.as_str());
            assert(text@ =~= language@);
            Label::Text(text)
        },
        (None, None) => Label::Numbered("player-track", track.id),
    }
}

pub open spec fn choice_view(c: TrackChoice) -> (Option<i64>, LabelView) {
    (c.id, c.label@)
}

pub open spec fn choice_views(cs: Seq<TrackChoice>) -> Seq<(Option<i64>, LabelView)> {
    Seq::new(cs.len(), |i: int| choice_view(cs[i]))
}

/// The tracks of type `track_type`, in order, as menu entries.
pub open spec fn choices_of(tracks: Seq<TrackInfo>, track_type: Seq<char>) -> Seq<(Option<i64>, LabelView)>
    decreases tracks.len(),
{
    if tracks.len() == 0 {
        Seq::empty()
    } else {
        let rest = choices_of(tracks.drop_last(), track_type);
        let t = tracks.last();
        if t.track_type@ == track_type {
            rest.push((Some(t.id), track_label_view(t)))
        } else {
            rest
        }
    }
}

/// The menu for one track type: an "off" entry first when requested
/// (subtitles), then each track of that type.
pub fn track_choices(tracks: &Vec<TrackInfo>, track_type: &str, include_off: bool) -> (out: Vec<TrackChoice>)
    ensures
        choice_views(out@) == (if include_off {
            seq![(None::<i64>, LabelView::Message("common-off"@))]
        } else {
            Seq::empty()
        }) + choices_of(tracks@, track_type@),
{
    let mut choices: Vec<TrackChoice> = Vec::new();
    if include_off {
        choices.push(TrackChoice { id: None, label: Label::Message("common-off") });
    }
    let ghost prefix = choice_views(choices@);
    let wanted = chars_of(track_type);
    let mut i: usize = 0;
    assert(tracks@.take(0) =~= Seq::<TrackInfo>::empty());
    assert(choice_views(choices@) =~= prefix + choices_of(tracks@.take(0), track_type@));
    while i < tracks.len()
        invariant
            i <= tracks.len(),
            wanted@ == track_type@,
            choice_views(choices@) == prefix + choices_of(tracks@.take(i as int), track_type@),
        decreases tracks.len() - i,
    {
        let ghost before = choice_views(choices@);
        assert(tracks@.take(i as int + 1).drop_last() =~= tracks@.take(i as int));
        assert(tracks@.take(i as int + 1).last() == tracks@[i as int]);
        let track = &tracks[i];
        if chars_eq(&chars_of(track.track_type.as_str()), &wanted) {
            let label = track_label(track);
            choices.push(TrackChoice { id: Some(track.id), label });
            assert(choice_views(choices@) =~= before.push((Some(track.id), track_label_view(*track))));
        }
        i += 1;
    }
    assert(tracks@.take(tracks.len() as int) =~= tracks@);
    assert(include_off ==> prefix =~= seq![(None::<i64>, LabelView::Message("common-off"@))]);
    assert(!include_off ==> prefix =~= Seq::<(Option<i64>, LabelView)>::empty());
    choices
}

/// What the player knows of the playing media's tracks.
#[derive(Clone, Debug)]
pub enum TracksState {
    Loading,
    Unavailable,
    /// The tracks, and the selected audio track's id.
    Ready { tracks: Vec<TrackInfo>, audio: Option<i64> },
}

/// The facts the audio menu reads.
#[derive(Clone, Debug)]
pub struct AudioMenuFacts {
    pub tracks: TracksState,
    /// Per track (in the order of `tracks`): whether its language is the
    /// media's original language. Missing entries count as `false`.
    pub original_language: Vec<bool>,
    /// The menu belongs to the embedded player.
    pub embedded: bool,
    /// The embedded player is busy with a command.
    pub busy: bool,
    pub menu_open: bool,
}

/// One entry of the audio menu.
#[derive(Clone, Debug)]
pub struct AudioItem {
    pub id: i64,
    pub label: Label,
    /// The selected track: checked, and shown as a pill in the embedded player.
    pub active: bool,
    /// Marked as the original-language track.
    pub original: bool,
    pub enabled: bool,
}

/// The audio menu: its trigger, its entries, or the message shown instead.
#[derive(Clone, Debug)]
pub struct AudioMenu {
    pub trigger_enabled: bool,
    /// The trigger shows its active style while the menu is open.
    pub trigger_active: bool,
    pub items: Vec<AudioItem>,
    pub message: Option<&'static str>,
}

/// The first position of a track with id `id`, among all tracks.
pub open spec fn first_track_with_id(tracks: Seq<TrackInfo>, id: i64) -> Option<int>
    decreases tracks.len(),
{
    if tracks.len() == 0 {
        None
    } else {
        match first_track_with_id(tracks.drop_last(), id) {
            Some(k) => Some(k),
            None => if tracks.last().id == id {
                Some(tracks.len() - 1)
            } else {
                None
            },
        }
    }
}

/// Whether the track the menu entry `id` names (the first track with that
/// id) is in the original language.
pub open spec fn original_flag(tracks: Seq<TrackInfo>, flags: Seq<bool>, id: i64) -> bool {
    match first_track_with_id(tracks, id) {
        Some(k) => k < flags.len() && flags[k],
        None => false,
    }
}

pub open spec fn audio_item_view(it: AudioItem) -> (i64, LabelView, bool, bool, bool) {
    (it.id, it.label@, it.active, it.original, it.enabled)
}

/// The entries expected for the audio choices `cs`.
pub open spec fn audio_items_for(
    cs: Seq<(Option<i64>, LabelView)>,
    tracks: Seq<TrackInfo>,
    flags: Seq<bool>,
    audio: Option<i64>,
    enabled: bool,
) -> Seq<(i64, LabelView, bool, bool, bool)> {
    Seq::new(
        cs.len(),
        |i: int|
            {
                let id = match cs[i].0 {
                    Some(x) => x,
                    None => 0i64,
                };
                (id, cs[i].1, cs[i].0 == audio, original_flag(tracks, flags, id), enabled)
            },
    )
}

proof fn lemma_first_track_with_id(tracks: Seq<TrackInfo>, id: i64)
    ensures
        match first_track_with_id(tracks, id) {
            Some(k) => 0 <= k < tracks.len() && tracks[k].id == id && forall|j: int|
                0 <= j < k ==> tracks[j].id != id,
            None => forall|j: int| 0 <= j < tracks.len() ==> tracks[j].id != id,
        },
    decreases tracks.len(),
{
    if tracks.len() > 0 {
        let rest = tracks.drop_last();
        lemma_first_track_with_id(rest, id);
        assert(forall|j: int| 0 <= j < rest.len() ==> rest[j] == tracks[j]);
    }
}

fn copy_label(label: &Label) -> (out: Label)
    ensures
        out@ == label@,
{
    match label {
        Label::Message(id) => Label::Message(id),
        Label::Numbered(id, n) => Label::Numbered(id, *n),
        Label::Text(t) => Label::Text(string_of(&chars_of(t.as_str()))),
    }
}

fn original_of(tracks: &Vec<TrackInfo>, flags: &Vec<bool>, id: i64) -> (out: bool)
    ensures
        out == original_flag(tracks@, flags@, id),
{
    proof {
        lemma_first_track_with_id(tracks@, id);
    }
    let mut k: usize = 0;
    while k < tracks.len()
        invariant
            k <= tracks.len(),
            forall|j: int| 0 <= j < k ==> tracks@[j].id != id,
        decreases tracks.len() - k,
    {
        if tracks[k].id == id {
            proof {
                lemma_first_track_with_id(tracks@, id);
            }
            assert(first_track_with_id(tracks@, id) == Some(k as int));
            return k < flags.len() && flags[k];
        }
        k += 1;
    }
    false
}

/// The audio menu. Its trigger works when there are audio tracks to choose,
/// and in the embedded player only while it is not busy; entries likewise.
/// Each audio track is an entry, checked when selected and marked when in
/// the original language; otherwise the menu says that there is no audio,
/// that tracks are loading, or that they are unavailable.
pub fn audio_menu(facts: AudioMenuFacts) -> (out: AudioMenu)
    ensures
        out.trigger_active == facts.menu_open,
        match facts.tracks {
            TracksState::Ready { tracks, audio } => {
                let cs = choices_of(tracks@, "audio"@);
                &&& out.trigger_enabled == (cs.len() > 0 && (!facts.embedded || !facts.busy))
                &&& Seq::new(out.items@.len(), |i: int| audio_item_view(out.items@[i]))
                    == audio_items_for(
                    cs,
                    tracks@,
                    facts.original_language@,
                    audio,
                    !facts.embedded || !facts.busy,
                )
                &&& cs.len() == 0 ==> (out.message matches Some(m) && m@ == "player-no-audio"@)
                &&& cs.len() > 0 ==> out.message is None
            },
            TracksState::Loading => {
                &&& !out.trigger_enabled
                &&& out.items@.len() == 0
                &&& out.message matches Some(m) && m@ == "player-loading-audio"@
            },
            TracksState::Unavailable => {
                &&& !out.trigger_enabled
                &&& out.items@.len() == 0
                &&& out.message matches Some(m) && m@ == "player-unavailable-audio"@
            },
        },
{
    let enabled = !facts.embedded || !facts.busy;
    match &facts.tracks {
        TracksState::Ready { tracks, audio } => {
            let choices = track_choices(tracks, "audio", false);
            let ghost cs = choices_of(tracks@, "audio"@);
            assert(choice_views(choices@) =~= cs);
            let ghost expected = audio_items_for(cs, tracks@, facts.original_language@, *audio, enabled);
            let mut items: Vec<AudioItem> = Vec::new();
            let mut i: usize = 0;
            while i < choices.len()
                invariant
                    i <= choices.len(),
                    choice_views(choices@) == cs,
                    expected == audio_items_for(cs, tracks@, facts.original_language@, *audio, enabled),
                    items@.len() == i,
                    forall|j: int| 0 <= j < i ==> #[trigger] audio_item_view(items@[j]) == expected[j],
                decreases choices.len() - i,
            {
                let choice = &choices[i];
                assert(choice_view(choices@[i as int]) == cs[i as int]);
                let id: i64 = match choice.id {
                    Some(x) => x,
                    None => 0,
                };
                let active = match (choice.id, *audio) {
                    (Some(a), Some(b)) => a == b,
                    (None, None) => true,
                    _ => false,
                };
                let original = original_of(tracks, &facts.original_language, id);
                items.push(AudioItem { id, label: copy_label(&choice.label), active, original, enabled });
                i += 1;
            }
            assert(Seq::new(items@.len(), |j: int| audio_item_view(items@[j])) =~= expected);
            let message = if choices.len() == 0 { Some("player-no-audio") } else { None };
            AudioMenu {
                trigger_enabled: choices.len() > 0 && enabled,
                trigger_active: facts.menu_open,
                items,
                message,
            }
        },
        TracksState::Loading => AudioMenu {
            trigger_enabled: false,
            trigger_active: facts.menu_open,
            items: Vec::new(),
            message: Some("player-loading-audio"),
        },
        TracksState::Unavailable => AudioMenu {
            trigger_enabled: false,
            trigger_active: facts.menu_open,
            items: Vec::new(),
            message: Some("player-unavailable-audio"),
        },
    }
}

/// An audio entry's original-language mark is the flag of the first track,
/// among all tracks, that carries the entry's id; where no track carries it,
/// the entry is not marked. The entry's position in the menu plays no part.
pub proof fn lemma_audio_original_follows_track(
    cs: Seq<(Option<i64>, LabelView)>,
    tracks: Seq<TrackInfo>,
    flags: Seq<bool>,
    audio: Option<i64>,
    enabled: bool,
    i: int,
)
    requires
        0 <= i < cs.len(),
    ensures
        ({
            let item = audio_items_for(cs, tracks, flags, audio, enabled)[i];
            &&& forall|k: int|
                0 <= k < tracks.len() && tracks[k].id == item.0 && (forall|j: int|
                    0 <= j < k ==> tracks[j].id != item.0) ==> item.3 == (k < flags.len() && flags[k])
            &&& (forall|k: int| 0 <= k < tracks.len() ==> tracks[k].id != item.0) ==> !item.3
        }),
{
    let item = audio_items_for(cs, tracks, flags, audio, enabled)[i];
    lemma_first_track_with_id(tracks, item.0);
    assert forall|k: int|
        0 <= k < tracks.len() && tracks[k].id == item.0 && (forall|j: int|
            0 <= j < k ==> tracks[j].id != item.0) implies item.3 == (k < flags.len() && flags[k]) by {
        match first_track_with_id(tracks, item.0) {
            Some(f) => {
                if f < k {
                    assert(tracks[f].id != item.0);
                }
                if k < f {
                    assert(tracks[k].id != item.0);
                }
            },
            None => {
                assert(tracks[k].id != item.0);
            },
        }
    }
    if forall|k: int| 0 <= k < tracks.len() ==> tracks[k].id != item.0 {
        match first_track_with_id(tracks, item.0) {
            Some(f) => {
                assert(tracks[f].id != item.0);
            },
            None => {},
        }
    }
}

} // verus!
