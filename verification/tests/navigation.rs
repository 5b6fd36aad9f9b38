use std::collections::hash_map::DefaultHasher;
use std::hash::{Hash, Hasher};

use jellypilot_iced::navigation::{page_key, route_key, Destination};
use jellypilot_iced::personal_lists::Route;

#[test]
fn page_keys_are_stable_and_tell_pages_apart() {
    let pages = vec![
        Destination::Home,
        Destination::NowPlaying,
        Destination::Search("".to_owned()),
        Destination::Search("cats".to_owned()),
        Destination::Detail("cats".to_owned()),
        Destination::Library { library_id: "lib".to_owned(), collection_type: None },
        Destination::Library { library_id: "lib".to_owned(), collection_type: Some("movies".to_owned()) },
        Destination::Library { library_id: "lib".to_owned(), collection_type: Some("".to_owned()) },
        Destination::PersonalLists(Route::Overview),
        Destination::PersonalLists(Route::Favorites),
        Destination::PersonalLists(Route::Watchlist),
        Destination::PersonalLists(Route::History),
    ];
    for page in &pages {
        assert_eq!(page_key(page), page_key(&page.clone()));
    }
    for (i, a) in pages.iter().enumerate() {
        for b in pages.iter().skip(i + 1) {
            assert_ne!(page_key(a), page_key(b), "{a:?} vs {b:?}");
        }
    }
}

#[test]
fn route_keys_number_the_routes() {
    assert_eq!(route_key(Route::Overview), 0);
    assert_eq!(route_key(Route::Favorites), 1);
    assert_eq!(route_key(Route::Watchlist), 2);
    assert_eq!(route_key(Route::History), 3);
}

/// The key as the derived `Hash` impls compute it for each page.
fn hashed(page: &Destination) -> u64 {
    let mut hasher = DefaultHasher::new();
    match page {
        Destination::Home => 0u8.hash(&mut hasher),
        Destination::Library { library_id, collection_type } => {
            1u8.hash(&mut hasher);
            library_id.hash(&mut hasher);
            collection_type.hash(&mut hasher);
        }
        Destination::Search(query) => {
            2u8.hash(&mut hasher);
            query.hash(&mut hasher);
        }
        Destination::PersonalLists(route) => {
            3u8.hash(&mut hasher);
            route_key(*route).hash(&mut hasher);
        }
        Destination::Detail(item_id) => {
            4u8.hash(&mut hasher);
            item_id.hash(&mut hasher);
        }
        Destination::NowPlaying => 5u8.hash(&mut hasher),
    }
    hasher.finish()
}

#[test]
fn page_keys_equal_the_derived_hash_of_each_page() {
    let pages = vec![
        Destination::Home,
        Destination::NowPlaying,
        Destination::Search("cats".to_owned()),
        Destination::Detail("item-9".to_owned()),
        Destination::Library { library_id: "lib".to_owned(), collection_type: None },
        Destination::Library { library_id: "lib".to_owned(), collection_type: Some("movies".to_owned()) },
        Destination::Library { library_id: "ünï".to_owned(), collection_type: Some("".to_owned()) },
        Destination::PersonalLists(Route::Watchlist),
    ];
    for page in &pages {
        assert_eq!(page_key(page), hashed(page), "{page:?}");
    }
}
