use clip_history::commands::{add_to_favorite, get_clip_list, get_fav_list, remove_from_clip, remove_from_favorite};
use clip_history::errors::EngineError;
use clip_history::favorites::FavoriteStore;
use clip_history::history::HistoryState;

fn s(text: &str) -> String {
    text.to_string()
}

#[test]
fn promote_moves_entry_from_history_to_favorites() {
    let store = FavoriteStore::open_in_memory().unwrap();
    let mut h = HistoryState::new();
    h.push(s("X"));
    h.push(s("other"));
    assert!(add_to_favorite(&mut h, &store, s("X")).is_ok());
    // "X" left the history...
    assert_eq!(get_clip_list(&h), vec![s("other")]);
    // ...and is now a persisted favorite with a store-assigned id.
    let favs = get_fav_list(&store).unwrap();
    assert_eq!(favs.len(), 1);
    assert!(favs[0].id >= 1);
    assert_eq!(favs[0].value, s("X"));
}

#[test]
fn promote_absent_value_reports_not_found_but_keeps_favorite() {
    let store = FavoriteStore::open_in_memory().unwrap();
    let mut h = HistoryState::new();
    h.push(s("a"));
    let r = add_to_favorite(&mut h, &store, s("gone"));
    assert_eq!(r, Err(EngineError::NotFound));
    assert_eq!(get_clip_list(&h), vec![s("a")]);
    // The store write came first, so the favorite exists even though the
    // history no longer held the value.
    let favs = get_fav_list(&store).unwrap();
    assert_eq!(favs.len(), 1);
    assert_eq!(favs[0].value, s("gone"));
}

#[test]
fn delete_favorite_is_idempotent() {
    let store = FavoriteStore::open_in_memory().unwrap();
    // Deleting an id that was never assigned is accepted silently.
    assert!(remove_from_favorite(&store, 99).is_ok());
    let mut h = HistoryState::new();
    h.push(s("keep"));
    assert!(add_to_favorite(&mut h, &store, s("keep")).is_ok());
    let favs = get_fav_list(&store).unwrap();
    assert_eq!(favs.len(), 1);
    let id = favs[0].id;
    assert!(remove_from_favorite(&store, id).is_ok());
    assert!(get_fav_list(&store).unwrap().is_empty());
    // Deleting the same id again is still fine.
    assert!(remove_from_favorite(&store, id).is_ok());
}

#[test]
fn open_store_under_missing_directory_is_io_error() {
    let r = FavoriteStore::open("/surely_missing_directory_for_store");
    assert!(matches!(r, Err(EngineError::Io)));
}

#[test]
fn full_session_scenario() {
    let store = FavoriteStore::open_in_memory().unwrap();
    let mut h = HistoryState::new();
    h.push(s("a"));
    h.push(s("b"));
    h.push(s("c"));
    assert_eq!(get_clip_list(&h), vec![s("a"), s("b"), s("c")]);
    h.push(s("a"));
    assert_eq!(get_clip_list(&h), vec![s("b"), s("c"), s("a")]);
    assert!(remove_from_clip(&mut h, &s("b")).is_ok());
    assert_eq!(get_clip_list(&h), vec![s("c"), s("a")]);
    assert!(add_to_favorite(&mut h, &store, s("a")).is_ok());
    assert_eq!(get_clip_list(&h), vec![s("c")]);
    let favs = get_fav_list(&store).unwrap();
    assert_eq!(favs.len(), 1);
    assert_eq!(favs[0].id, 1);
    assert_eq!(favs[0].value, s("a"));
}
