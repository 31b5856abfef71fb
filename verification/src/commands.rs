use vstd::prelude::*;

use crate::errors::EngineError;
use crate::favorites::{Favorite, FavoriteStore};
use crate::history::{without, HistoryState};

verus! {

/// Lists the history, oldest entry first.
pub fn get_clip_list(history: &HistoryState) -> (r: Vec<String>)
    ensures
        crate::history::view_of(r@) == history.entries_view(),
{
    history.snapshot()
}

/// Removes `value` from the history; reports `NotFound` when it is absent,
/// which points at a stale caller and is surfaced rather than swallowed.
pub fn remove_from_clip(history: &mut HistoryState, value: &String) -> (r: Result<(), EngineError>)
    requires
        old(history).wf(),
    ensures
        final(history).wf(),
        final(history).self_write_view() == old(history).self_write_view(),
        r is Ok <==> old(history).entries_view().contains(value@),
        r is Ok ==> final(history).entries_view() == without(old(history).entries_view(), value@),
        r is Err ==> *final(history) == *old(history) && r == Err::<(), EngineError>(
            EngineError::NotFound,
        ),
{
    history.remove(value)
}

/// The engine half of the user "copy" command: the caller writes `value` to
/// the system clipboard port first, then records it here so the next poll
/// tick does not re-observe the write as an external copy.
pub fn copy_text(history: &mut HistoryState, value: String)
    requires
        old(history).wf(),
    ensures
        final(history).wf(),
        final(history).entries_view() == old(history).entries_view(),
        final(history).self_write_view() == Some(value@),
{
    history.mark_self_write(value);
}

/// Promotes a history entry to a persisted favorite: a record holding
/// `value` is created in the store, then the entry is removed from the
/// history. The two steps are not atomic: when the store write succeeds but
/// the value is no longer in the history, the favorite stays created and
/// `NotFound` is reported.
pub fn add_to_favorite(history: &mut HistoryState, store: &FavoriteStore, value: String) -> (r:
    Result<(), EngineError>)
    requires
        old(history).wf(),
    ensures
        final(history).wf(),
        final(history).self_write_view() == old(history).self_write_view(),
        r is Ok ==> old(history).entries_view().contains(value@),
        r is Ok ==> final(history).entries_view() == without(
            old(history).entries_view(),
            value@,
        ),
        r is Ok ==> !final(history).entries_view().contains(value@),
        r == Err::<(), EngineError>(EngineError::Io) ==> *final(history) == *old(history),
        r == Err::<(), EngineError>(EngineError::NotFound) ==> *final(history) == *old(history)
            && !old(history).entries_view().contains(value@),
        r != Err::<(), EngineError>(EngineError::Io) ==> (r is Ok <==> old(
            history,
        ).entries_view().contains(value@)),
{
    match Favorite::create(store.connection(), value.clone()) {
        Ok(_) => {
            let r = history.remove(&value);
            proof {
                if r is Ok {
                    crate::history::lemma_without_props(old(history).entries_view(), value@);
                    let current = history.entries_view();
                    if current.contains(value@) {
                        let j = choose|j: int| 0 <= j < current.len() && current[j] == value@;
                        assert(current[j] != value@);
                    }
                }
            }
            r
        },
        Err(_) => Err(EngineError::Io),
    }
}

/// Lists every persisted favorite, in the store's order; a store failure is
/// reported as an I/O error.
pub fn get_fav_list(store: &FavoriteStore) -> (r: Result<Vec<Favorite>, EngineError>)
    ensures
        r matches Err(e) ==> e == EngineError::Io,
{
    match Favorite::find_all(store.connection()) {
        Ok(rows) => Ok(rows),
        Err(_) => Err(EngineError::Io),
    }
}

/// Deletes the favorite with this id; deleting an absent id is accepted
/// silently. A store failure is reported as an I/O error.
pub fn remove_from_favorite(store: &FavoriteStore, id: i32) -> (r: Result<(), EngineError>)
    ensures
        r matches Err(e) ==> e == EngineError::Io,
{
    match Favorite::delete(store.connection(), id) {
        Ok(_) => Ok(()),
        Err(_) => Err(EngineError::Io),
    }
}

} // verus!
