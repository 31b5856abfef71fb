use vstd::prelude::*;

use crate::history::{is_blank, lemma_without_props, pushed, without, CAPACITY};
use crate::poller::{last_known, tick_pushes};

verus! {

/// Pushing a blank value never changes the history.
pub proof fn lemma_blank_push_is_noop(entries: Seq<Seq<char>>, v: Seq<char>)
    requires
        is_blank(v),
    ensures
        pushed(entries, v) == entries,
{
}

/// After a push of a non-blank value the history holds exactly one
/// occurrence of it, positioned as the most recent entry; the bound on the
/// length holds after every push.
pub proof fn lemma_push_dedups(entries: Seq<Seq<char>>, v: Seq<char>)
    requires
        !is_blank(v),
    ensures
        pushed(entries, v).len() <= CAPACITY,
        pushed(entries, v).len() > 0,
        pushed(entries, v).last() == v,
        forall|i: int| 0 <= i < pushed(entries, v).len() - 1 ==> #[trigger] pushed(entries, v)[i]
            != v,
{
    lemma_without_props(entries, v);
    let appended = without(entries, v).push(v);
    if appended.len() > CAPACITY {
        assert(pushed(entries, v) =~= appended.subrange(
            appended.len() - CAPACITY,
            appended.len() as int,
        ));
    }
}

/// Pushing the same value twice consecutively gives the same history as
/// pushing it once: the second push removes the copy it then re-appends.
pub proof fn lemma_push_idempotent(entries: Seq<Seq<char>>, v: Seq<char>)
    requires
        !is_blank(v),
    ensures
        pushed(pushed(entries, v), v) == pushed(entries, v),
{
    lemma_push_dedups(entries, v);
    let once = pushed(entries, v);
    let pre = once.drop_last();
    assert(pre.push(v) =~= once);
    crate::history::lemma_without_push(pre, v, v);
    lemma_without_props(pre, v);
    assert(forall|i: int| 0 <= i < pre.len() ==> #[trigger] pre[i] != v);
    assert(without(once, v) == pre);
    assert(once.len() <= CAPACITY);
    assert(pushed(once, v) =~= once);
}

/// Folds a whole sequence of pushes, oldest first, into the history.
pub open spec fn pushed_all(entries: Seq<Seq<char>>, vs: Seq<Seq<char>>) -> Seq<Seq<char>>
    decreases vs.len(),
{
    if vs.len() == 0 {
        entries
    } else {
        pushed(pushed_all(entries, vs.drop_last()), vs.last())
    }
}

/// Capacity law: pushing any number of distinct non-blank values into an
/// empty history keeps the length within the bound after every push, and
/// retains exactly the most recently pushed values, in push order.
pub proof fn lemma_capacity(vs: Seq<Seq<char>>)
    requires
        forall|i: int, j: int| 0 <= i < j < vs.len() ==> vs[i] != vs[j],
        forall|i: int| 0 <= i < vs.len() ==> !is_blank(#[trigger] vs[i]),
    ensures
        forall|k: int| 0 <= k <= vs.len() ==> #[trigger] pushed_all(
            Seq::empty(),
            vs.take(k),
        ).len() <= CAPACITY,
        pushed_all(Seq::empty(), vs) == vs.subrange(
            if vs.len() <= CAPACITY {
                0
            } else {
                vs.len() - CAPACITY
            },
            vs.len() as int,
        ),
    decreases vs.len(),
{
    let empty = Seq::<Seq<char>>::empty();
    assert forall|k: int| 0 <= k < vs.len() implies #[trigger] pushed_all(
        empty,
        vs.take(k),
    ).len() <= CAPACITY by {
        lemma_capacity(vs.take(k));
        assert(pushed_all(empty, vs.take(k)) == vs.take(k).subrange(
            if k <= CAPACITY {
                0int
            } else {
                k - CAPACITY
            },
            k,
        ));
    }
    assert(vs.take(vs.len() as int) =~= vs);
    if vs.len() == 0 {
        assert(pushed_all(empty, vs) =~= vs.subrange(0, 0));
    } else {
        let prefix = vs.drop_last();
        let v = vs.last();
        lemma_capacity(prefix);
        let p = pushed_all(empty, prefix);
        let lo: int = if prefix.len() <= CAPACITY {
            0
        } else {
            prefix.len() - CAPACITY
        };
        assert(p == prefix.subrange(lo, prefix.len() as int));
        assert forall|i: int| 0 <= i < p.len() implies #[trigger] p[i] != v by {
            assert(p[i] == vs[lo + i]);
            assert(vs[lo + i] != vs[vs.len() - 1]);
        }
        lemma_without_props(p, v);
        assert(without(p, v) == p);
        let appended = p.push(v);
        if appended.len() > CAPACITY {
            assert(pushed(p, v) =~= vs.subrange(vs.len() - CAPACITY, vs.len() as int));
        } else {
            assert(pushed(p, v) =~= vs.subrange(
                if vs.len() <= CAPACITY {
                    0int
                } else {
                    vs.len() - CAPACITY
                },
                vs.len() as int,
            ));
        }
    }
}

/// Self-write suppression law: a tick that observes exactly the value the
/// engine last wrote to the clipboard itself takes no action and fires no
/// notification; a later tick that observes a different, non-blank value
/// that is not already the top history entry does push it and does fire.
/// The suppression compares by value, so it holds whatever was observed
/// or written before.
pub proof fn lemma_self_write_suppression(
    entries: Seq<Seq<char>>,
    x: Seq<char>,
    y: Seq<char>,
)
    ensures
        !tick_pushes(entries, Some(x), x),
        y != x && !is_blank(y) && y != last_known(entries) ==> tick_pushes(entries, Some(x), y),
{
}

} // verus!
