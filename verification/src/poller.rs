use vstd::prelude::*;
use vstd::string::StrSliceExecFns;

use crate::history::{is_blank, is_blank_str, pushed, HistoryState};

verus! {

/// The most recent history entry, or the empty sequence when the history is
/// empty; a poll tick compares the observed clipboard value against it.
pub open spec fn last_known(entries: Seq<Seq<char>>) -> Seq<char> {
    if entries.len() == 0 {
        Seq::empty()
    } else {
        entries.last()
    }
}

/// The decision of a single poll tick: an observed clipboard value is pushed
/// exactly when it is not the engine's own most recent clipboard write, not
/// the value already at the top of the history, and not blank.
pub open spec fn tick_pushes(
    entries: Seq<Seq<char>>,
    self_write: Option<Seq<char>>,
    observed: Seq<char>,
) -> bool {
    &&& self_write != Some(observed)
    &&& observed != last_known(entries)
    &&& !is_blank(observed)
}

/// One tick of the background poller, applied to the clipboard value the
/// caller observed (a failed clipboard read is handed in as an empty string).
/// Pushes the value exactly when `tick_pushes` says so; the self-write marker
/// is never cleared here, so consecutive distinct self-writes are each
/// suppressed on their own. Returns whether a change notification must fire.
pub fn poll_tick(state: &mut HistoryState, observed: String) -> (fired: bool)
    requires
        old(state).wf(),
    ensures
        final(state).wf(),
        fired == tick_pushes(
            old(state).entries_view(),
            old(state).self_write_view(),
            observed@,
        ),
        fired ==> final(state).entries_view() == pushed(old(state).entries_view(), observed@),
        !fired ==> final(state).entries_view() == old(state).entries_view(),
        final(state).self_write_view() == old(state).self_write_view(),
{
    if state.is_self_write(&observed) {
        return false;
    }
    let same_as_last = match state.last_entry() {
        Some(last) => *last == observed,
        None => observed.as_str().unicode_len() == 0,
    };
    if same_as_last {
        proof {
            if state.entries_view().len() == 0 {
                assert(observed@ =~= Seq::<char>::empty());
            }
        }
        return false;
    }
    if is_blank_str(observed.as_str()) {
        return false;
    }
    proof {
        if state.entries_view().len() == 0 {
            assert(observed@.len() != 0);
            assert(observed@ != last_known(state.entries_view()));
        }
    }
    state.push(observed);
    true
}

} // verus!
