use vstd::prelude::*;
use vstd::string::StrSliceExecFns;

use crate::errors::EngineError;

verus! {

/// Maximum number of entries the history retains; a push that would exceed it
/// drops the oldest entries.
pub const CAPACITY: usize = 20;

/// Characters that count as whitespace when deciding whether a clipboard
/// value is blank: the Unicode `White_Space` set, exactly the characters
/// that `char::is_whitespace` documents.
pub open spec fn is_space(c: char) -> bool {
    let n = c as int;
    ||| n == 0x09 || n == 0x0a || n == 0x0b || n == 0x0c || n == 0x0d || n == 0x20
    ||| n == 0x85 || n == 0xa0 || n == 0x1680
    ||| (0x2000 <= n && n <= 0x200a)
    ||| n == 0x2028 || n == 0x2029 || n == 0x202f || n == 0x205f || n == 0x3000
}

/// Exec counterpart of `is_space`.
pub fn is_space_char(c: char) -> (r: bool)
    ensures
        r == is_space(c),
{
    let n = c as u32;
    n == 0x09 || n == 0x0a || n == 0x0b || n == 0x0c || n == 0x0d || n == 0x20 || n == 0x85
        || n == 0xa0 || n == 0x1680 || (0x2000 <= n && n <= 0x200a) || n == 0x2028 || n == 0x2029
        || n == 0x202f || n == 0x205f || n == 0x3000
}

/// A value is blank when it is empty or consists of whitespace only; blank
/// values never enter the history.
pub open spec fn is_blank(s: Seq<char>) -> bool {
    forall|i: int| 0 <= i < s.len() ==> is_space(#[trigger] s[i])
}

/// Exec counterpart of `is_blank`.
pub fn is_blank_str(value: &str) -> (r: bool)
    ensures
        r == is_blank(value@),
{
    let len = value.unicode_len();
    let mut i: usize = 0;
    while i < len
        invariant
            i <= len,
            len == value@.len(),
            forall|j: int| 0 <= j < i ==> is_space(#[trigger] value@[j]),
        decreases len - i,
    {
        let c = value.get_char(i);
        if !is_space_char(c) {
            proof {
                assert(!is_space(value@[i as int]));
            }
            return false;
        }
        i += 1;
    }
    true
}

/// The values of a sequence of strings, as sequences of characters.
pub open spec fn view_of(entries: Seq<String>) -> Seq<Seq<char>> {
    entries.map_values(|e: String| e@)
}

/// `entries` with every occurrence of `v` removed, order preserved.
pub open spec fn without(entries: Seq<Seq<char>>, v: Seq<char>) -> Seq<Seq<char>> {
    entries.filter(|e: Seq<char>| e != v)
}

/// The history after a push of `v`: a blank value is ignored; otherwise the
/// prior occurrence of `v` is removed, `v` is appended as the most recent
/// entry, and the oldest entries are dropped until the capacity bound holds.
pub open spec fn pushed(entries: Seq<Seq<char>>, v: Seq<char>) -> Seq<Seq<char>> {
    if is_blank(v) {
        entries
    } else {
        let appended = without(entries, v).push(v);
        if appended.len() > CAPACITY {
            appended.subrange(appended.len() - CAPACITY, appended.len() as int)
        } else {
            appended
        }
    }
}

/// Facts about `without` that its callers need: it removes every occurrence
/// of `v` and nothing else, keeps only values of `entries`, never grows, and
/// preserves freedom from duplicates; on a sequence free of `v` it is the
/// identity.
pub proof fn lemma_without_props(entries: Seq<Seq<char>>, v: Seq<char>)
    ensures
        without(entries, v).len() <= entries.len(),
        forall|i: int| 0 <= i < without(entries, v).len() ==> #[trigger] without(entries, v)[i] != v,
        forall|i: int|
            0 <= i < without(entries, v).len() ==> entries.contains(#[trigger] without(entries, v)[i]),
        entries.no_duplicates() ==> without(entries, v).no_duplicates(),
        (forall|i: int| 0 <= i < entries.len() ==> #[trigger] entries[i] != v) ==> without(
            entries,
            v,
        ) == entries,
    decreases entries.len(),
{
    reveal(Seq::filter);
    if entries.len() == 0 {
        assert(without(entries, v) =~= entries);
    } else {
        let prefix = entries.drop_last();
        let last = entries.last();
        lemma_without_props(prefix, v);
        assert(forall|i: int| 0 <= i < prefix.len() ==> prefix[i] == entries[i]);
        assert forall|i: int|
            0 <= i < without(entries, v).len() implies entries.contains(
            #[trigger] without(entries, v)[i],
        ) by {
            if last != v && i == without(entries, v).len() - 1 {
                assert(entries[entries.len() - 1] == last);
            } else {
                let x = without(entries, v)[i];
                assert(without(prefix, v)[i] == x);
                let j = choose|j: int| 0 <= j < prefix.len() && prefix[j] == x;
                assert(entries[j] == x);
            }
        }
        if entries.no_duplicates() {
            assert(prefix.no_duplicates());
            if last != v {
                // `last` does not occur in the filtered prefix, so appending it
                // keeps the result duplicate-free.
                assert forall|i: int|
                    0 <= i < without(prefix, v).len() implies #[trigger] without(prefix, v)[i]
                    != last by {
                    let x = without(prefix, v)[i];
                    let j = choose|j: int| 0 <= j < prefix.len() && prefix[j] == x;
                    assert(entries[j] == x && entries[entries.len() - 1] == last);
                }
                assert(without(entries, v).no_duplicates());
            }
        }
        if forall|i: int| 0 <= i < entries.len() ==> #[trigger] entries[i] != v {
            assert(forall|i: int| 0 <= i < prefix.len() ==> #[trigger] prefix[i] != v);
            assert(last != v);
            assert(without(entries, v) =~= entries);
        }
    }
}

/// Unfolds `without` over a push: the appended value stays exactly when it
/// differs from the removed one.
pub proof fn lemma_without_push(entries: Seq<Seq<char>>, x: Seq<char>, v: Seq<char>)
    ensures
        without(entries.push(x), v) == if x == v {
            without(entries, v)
        } else {
            without(entries, v).push(x)
        },
{
    reveal(Seq::filter);
    assert(entries.push(x).drop_last() =~= entries);
    assert(entries.push(x).last() == x);
}

/// The in-memory clipboard history: an ordered, deduplicated, size-bounded
/// list of copied values (most recent last) plus a marker for the most recent
/// value the engine itself wrote to the system clipboard.
pub struct HistoryState {
    entries: Vec<String>,
    last_self_write: Option<String>,
}

impl HistoryState {
    /// The retained values, oldest first.
    pub closed spec fn entries_view(&self) -> Seq<Seq<char>> {
        view_of(self.entries@)
    }

    /// The most recent value the engine itself wrote to the system clipboard,
    /// if any.
    pub closed spec fn self_write_view(&self) -> Option<Seq<char>> {
        match self.last_self_write {
            Some(s) => Some(s@),
            None => None,
        }
    }

    /// The history invariant: within capacity, free of duplicates, free of
    /// blank values.
    pub open spec fn wf(&self) -> bool {
        &&& self.entries_view().len() <= CAPACITY
        &&& self.entries_view().no_duplicates()
        &&& forall|i: int|
            0 <= i < self.entries_view().len() ==> !is_blank(#[trigger] self.entries_view()[i])
    }

    /// A fresh, empty history.
    pub fn new() -> (r: HistoryState)
        ensures
            r.wf(),
            r.entries_view() == Seq::<Seq<char>>::empty(),
            r.self_write_view() is None,
    {
        let r = HistoryState { entries: Vec::new(), last_self_write: None };
        proof {
            assert(r.entries_view() =~= Seq::<Seq<char>>::empty());
        }
        r
    }

    /// Records a newly observed copied value: a blank value is ignored, an
    /// existing occurrence is removed first, the value becomes the most
    /// recent entry, and the oldest entries are dropped down to capacity.
    pub fn push(&mut self, value: String)
        requires
            old(self).wf(),
        ensures
            final(self).wf(),
            final(self).entries_view() == pushed(old(self).entries_view(), value@),
            final(self).self_write_view() == old(self).self_write_view(),
    {
        if is_blank_str(value.as_str()) {
            return;
        }
        let ghost v0 = self.entries_view();
        let kept = self.entries_without(&value);
        let mut kept = kept;
        kept.push(value);
        proof {
            lemma_without_props(v0, value@);
            assert(view_of(kept@) =~= without(v0, value@).push(value@));
        }
        if kept.len() > CAPACITY {
            let ghost before = view_of(kept@);
            kept.remove(0);
            proof {
                assert(view_of(kept@) =~= before.subrange(
                    before.len() - CAPACITY,
                    before.len() as int,
                ));
            }
        }
        self.entries = kept;
        proof {
            let appended = without(v0, value@).push(value@);
            assert(self.entries_view() == pushed(v0, value@));
            // Well-formedness of the result.
            assert(appended.no_duplicates());
            assert forall|i: int|
                0 <= i < self.entries_view().len() implies !is_blank(
                #[trigger] self.entries_view()[i],
            ) by {
                let x = self.entries_view()[i];
                if x != value@ {
                    assert(appended.contains(x));
                    let j = choose|j: int| 0 <= j < appended.len() && appended[j] == x;
                    assert(without(v0, value@)[j] == x);
                    assert(v0.contains(x));
                    let k = choose|k: int| 0 <= k < v0.len() && v0[k] == x;
                }
            }
        }
    }

    /// Builds the entry list with every occurrence of `value` removed; the
    /// history itself is left unchanged.
    fn entries_without(&self, value: &String) -> (r: Vec<String>)
        ensures
            view_of(r@) == without(self.entries_view(), value@),
    {
        let mut kept: Vec<String> = Vec::new();
        let n = self.entries.len();
        let mut i: usize = 0;
        while i < n
            invariant
                i <= n,
                n == self.entries.len(),
                view_of(kept@) == without(self.entries_view().take(i as int), value@),
            decreases n - i,
        {
            let ghost taken = self.entries_view().take(i as int);
            let e = &self.entries[i];
            if !(*e == *value) {
                kept.push(e.clone());
            }
            proof {
                assert(self.entries_view().take(i + 1) =~= taken.push(self.entries_view()[i as int]));
                lemma_without_push(taken, self.entries_view()[i as int], value@);
                if self.entries_view()[i as int] != value@ {
                    assert(view_of(kept@) =~= without(taken, value@).push(e@));
                }
            }
            i += 1;
        }
        proof {
            assert(self.entries_view().take(n as int) =~= self.entries_view());
        }
        kept
    }

    /// Removes the occurrence of `value`; reports `NotFound` when it is
    /// absent, leaving the history unchanged.
    pub fn remove(&mut self, value: &String) -> (r: Result<(), EngineError>)
        requires
            old(self).wf(),
        ensures
            final(self).wf(),
            final(self).self_write_view() == old(self).self_write_view(),
            r is Ok <==> old(self).entries_view().contains(value@),
            r is Ok ==> final(self).entries_view() == without(old(self).entries_view(), value@),
            r is Err ==> *final(self) == *old(self) && r == Err::<(), EngineError>(
                EngineError::NotFound,
            ),
    {
        let ghost v0 = self.entries_view();
        let found = self.contains_value(value);
        if !found {
            return Err(EngineError::NotFound);
        }
        let kept = self.entries_without(value);
        self.entries = kept;
        proof {
            lemma_without_props(v0, value@);
            assert forall|i: int|
                0 <= i < self.entries_view().len() implies !is_blank(
                #[trigger] self.entries_view()[i],
            ) by {
                let x = self.entries_view()[i];
                assert(v0.contains(x));
                let k = choose|k: int| 0 <= k < v0.len() && v0[k] == x;
            }
        }
        Ok(())
    }

    /// Whether `value` is currently retained.
    pub fn contains_value(&self, value: &String) -> (r: bool)
        ensures
            r == self.entries_view().contains(value@),
    {
        let n = self.entries.len();
        let mut i: usize = 0;
        while i < n
            invariant
                i <= n,
                n == self.entries.len(),
                forall|j: int| 0 <= j < i ==> #[trigger] self.entries_view()[j] != value@,
            decreases n - i,
        {
            if self.entries[i] == *value {
                proof {
                    assert(self.entries_view()[i as int] == value@);
                }
                return true;
            }
            i += 1;
        }
        proof {
            assert(forall|j: int|
                0 <= j < self.entries_view().len() ==> #[trigger] self.entries_view()[j] != value@);
        }
        false
    }

    /// The current entries, oldest first; the history is not changed.
    pub fn snapshot(&self) -> (r: Vec<String>)
        ensures
            view_of(r@) == self.entries_view(),
    {
        let mut out: Vec<String> = Vec::new();
        let n = self.entries.len();
        let mut i: usize = 0;
        while i < n
            invariant
                i <= n,
                n == self.entries.len(),
                view_of(out@) == self.entries_view().take(i as int),
            decreases n - i,
        {
            let ghost taken = self.entries_view().take(i as int);
            out.push(self.entries[i].clone());
            proof {
                assert(self.entries_view().take(i + 1) =~= taken.push(self.entries_view()[i as int]));
                assert(view_of(out@) =~= taken.push(self.entries_view()[i as int]));
            }
            i += 1;
        }
        proof {
            assert(self.entries_view().take(n as int) =~= self.entries_view());
        }
        out
    }

    /// Records `value` as the engine's own most recent clipboard write, so
    /// the next poll tick does not re-observe it as an external copy.
    pub fn mark_self_write(&mut self, value: String)
        requires
            old(self).wf(),
        ensures
            final(self).wf(),
            final(self).entries_view() == old(self).entries_view(),
            final(self).self_write_view() == Some(value@),
    {
        self.last_self_write = Some(value);
    }

    /// The most recent entry, if any.
    pub fn last_entry(&self) -> (r: Option<&String>)
        ensures
            r is None <==> self.entries_view().len() == 0,
            r matches Some(s) ==> s@ == self.entries_view().last(),
    {
        if self.entries.len() == 0 {
            None
        } else {
            Some(&self.entries[self.entries.len() - 1])
        }
    }

    /// Whether `observed` equals the engine's most recent self-write marker.
    pub fn is_self_write(&self, observed: &String) -> (r: bool)
        ensures
            r == (self.self_write_view() == Some(observed@)),
    {
        match &self.last_self_write {
            Some(w) => *w == *observed,
            None => false,
        }
    }
}

} // verus!
