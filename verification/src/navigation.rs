//! Page identity for navigation transitions.

use std::collections::hash_map::DefaultHasher;
use std::hash::Hasher;

use vstd::prelude::*;
use vstd::std_specs::hash::DefaultHasherAdditionalSpecFns;
use vstd::string::StringSliceAdditionalSpecFns;
use vstd::bytes::{
    lemma_auto_spec_u64_to_from_le_bytes, spec_u64_from_le_bytes, spec_u64_to_le_bytes, u64_to_le_bytes,
};
use vstd::utf8::encode_utf8;

use crate::personal_lists::Route;

verus! {

/// The pages the shell can show.
#[derive(Clone, Debug)]
pub enum Destination {
    Home,
    Library { library_id: String, collection_type: Option<String> },
    Search(String),
    PersonalLists(Route),
    Detail(String),
    NowPlaying,
}

pub enum DestinationView {
    Home,
    Library { library_id: Seq<char>, collection_type: Option<Seq<char>> },
    Search(Seq<char>),
    PersonalLists(Route),
    Detail(Seq<char>),
    NowPlaying,
}

impl View for Destination {
    type V = DestinationView;

    open spec fn view(&self) -> DestinationView {
        match self {
            Destination::Home => DestinationView::Home,
            Destination::Library { library_id, collection_type } => DestinationView::Library {
                library_id: library_id@,
                collection_type: match collection_type {
                    Some(c) => Some(c@),
                    None => None,
                },
            },
            Destination::Search(query) => DestinationView::Search(query@),
            Destination::PersonalLists(route) => DestinationView::PersonalLists(*route),
            Destination::Detail(item_id) => DestinationView::Detail(item_id@),
            Destination::NowPlaying => DestinationView::NowPlaying,
        }
    }
}

pub open spec fn route_code(route: Route) -> u8 {
    match route {
        Route::Overview => 0,
        Route::Favorites => 1,
        Route::Watchlist => 2,
        Route::History => 3,
    }
}

/// A stable small code per personal-lists route.
pub fn route_key(route: Route) -> (out: u8)
    ensures
        out == route_code(route),
{
    match route {
        Route::Overview => 0,
        Route::Favorites => 1,
        Route::Watchlist => 2,
        Route::History => 3,
    }
}

/// A string as hashed: its UTF-8 bytes, then the terminator `0xff`.
pub open spec fn text_writes(s: Seq<char>) -> Seq<Seq<u8>> {
    seq![encode_utf8(s), seq![0xffu8]]
}

/// An optional field as hashed: first its variant's discriminant, written as
/// a pointer-sized integer does on the 64-bit little-endian targets the
/// client runs on, eight bytes with `None` as 0 and `Some` as 1.
pub open spec fn option_tag(discriminant: u64) -> Seq<u8> {
    spec_u64_to_le_bytes(discriminant)
}

/// The byte strings a page's key is hashed from: a tag per page kind, then
/// the page's fields.
pub open spec fn page_key_writes(d: DestinationView) -> Seq<Seq<u8>> {
    match d {
        DestinationView::Home => seq![seq![0u8]],
        DestinationView::Library { library_id, collection_type } => seq![seq![1u8]] + text_writes(
            library_id,
        ) + match collection_type {
            None => seq![option_tag(0)],
            Some(c) => seq![option_tag(1)] + text_writes(c),
        },
        DestinationView::Search(query) => seq![seq![2u8]] + text_writes(query),
        DestinationView::PersonalLists(route) => seq![seq![3u8], seq![route_code(route)]],
        DestinationView::Detail(item_id) => seq![seq![4u8]] + text_writes(item_id),
        DestinationView::NowPlaying => seq![seq![5u8]],
    }
}

fn write_tag(hasher: &mut DefaultHasher, tag: u8)
    ensures
        final(hasher)@ == old(hasher)@.push(seq![tag]),
{
    let bytes: Vec<u8> = vec![tag];
    hasher.write(bytes.as_slice());
    assert(bytes@ =~= seq![tag]);
}

fn write_option_tag(hasher: &mut DefaultHasher, discriminant: u64)
    ensures
        final(hasher)@ == old(hasher)@.push(option_tag(discriminant)),
{
    let bytes = u64_to_le_bytes(discriminant);
    hasher.write(bytes.as_slice());
}

fn write_text(hasher: &mut DefaultHasher, s: &str)
    ensures
        final(hasher)@ == old(hasher)@ + text_writes(s@),
{
    hasher.write(s.as_bytes());
    write_tag(hasher, 0xff);
    assert(hasher@ =~= old(hasher)@ + text_writes(s@));
}

/// A stable key for a page, so that transitions animate only real
/// navigation and never data refreshes of the same page.
pub fn page_key(destination: &Destination) -> (out: u64)
    ensures
        out == DefaultHasher::spec_finish(page_key_writes(destination@)),
{
    let mut hasher = DefaultHasher::new();
    match destination {
        Destination::Home => {
            write_tag(&mut hasher, 0);
        },
        Destination::Library { library_id, collection_type } => {
            write_tag(&mut hasher, 1);
            write_text(&mut hasher, library_id.as_str());
            match collection_type {
                None => {
                    write_option_tag(&mut hasher, 0);
                },
                Some(c) => {
                    write_option_tag(&mut hasher, 1);
                    write_text(&mut hasher, c.as_str());
                },
            }
        },
        Destination::Search(query) => {
            write_tag(&mut hasher, 2);
            write_text(&mut hasher, query.as_str());
        },
        Destination::PersonalLists(route) => {
            write_tag(&mut hasher, 3);
            write_tag(&mut hasher, route_key(*route));
        },
        Destination::Detail(item_id) => {
            write_tag(&mut hasher, 4);
            write_text(&mut hasher, item_id.as_str());
        },
        Destination::NowPlaying => {
            write_tag(&mut hasher, 5);
        },
    }
    assert(hasher@ =~= page_key_writes(destination@));
    hasher.finish()
}

/// Different pages are hashed from different inputs, so their keys differ
/// unless the hash itself collides; the same page always gets the same key.
pub proof fn lemma_page_key_inputs_distinguish_pages(a: DestinationView, b: DestinationView)
    requires
        page_key_writes(a) == page_key_writes(b),
    ensures
        a == b,
{
    let wa = page_key_writes(a);
    let wb = page_key_writes(b);
    assert(wa[0] == wb[0]);
    assert(wa.len() == wb.len());
    match (a, b) {
        (
            DestinationView::Library { library_id: la, collection_type: ca },
            DestinationView::Library { library_id: lb, collection_type: cb },
        ) => {
            assert(wa[1] == wb[1]);
            vstd::utf8::encode_utf8_decode_utf8(la);
            vstd::utf8::encode_utf8_decode_utf8(lb);
            assert(wa[3] == wb[3]);
            match (ca, cb) {
                (Some(x), Some(y)) => {
                    assert(wa[4] == wb[4]);
                    vstd::utf8::encode_utf8_decode_utf8(x);
                    vstd::utf8::encode_utf8_decode_utf8(y);
                },
                (None, Some(_)) => {
                    lemma_auto_spec_u64_to_from_le_bytes();
                    assert(spec_u64_from_le_bytes(wa[3]) != spec_u64_from_le_bytes(wb[3]));
                },
                (Some(_), None) => {
                    lemma_auto_spec_u64_to_from_le_bytes();
                    assert(spec_u64_from_le_bytes(wa[3]) != spec_u64_from_le_bytes(wb[3]));
                },
                (None, None) => {},
            }
        },
        (DestinationView::Search(x), DestinationView::Search(y)) => {
            assert(wa[1] == wb[1]);
            vstd::utf8::encode_utf8_decode_utf8(x);
            vstd::utf8::encode_utf8_decode_utf8(y);
        },
        (DestinationView::Detail(x), DestinationView::Detail(y)) => {
            assert(wa[1] == wb[1]);
            vstd::utf8::encode_utf8_decode_utf8(x);
            vstd::utf8::encode_utf8_decode_utf8(y);
        },
        (DestinationView::PersonalLists(x), DestinationView::PersonalLists(y)) => {
            assert(wa[1] == wb[1]);
            assert(wa[1][0] == wb[1][0]);
        },
        _ => {
            assert(wa[0][0] == wb[0][0]);
        },
    }
}

} // verus!
