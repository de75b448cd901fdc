//! A directory tree as the classification sees it, the verdict on each
//! entry of it, and the laws that verdict obeys.
use vstd::prelude::*;
use crate::trackedness::{
    Trackedness, Tally, absorb_spec, empty_tally, leaf_spec, settled_spec, verdict_spec,
};

verus! {

broadcast use vstd::seq::group_seq_axioms;

/// An entry of a directory tree, reduced to what decides its verdict.
pub enum Entry {
    /// A file or symlink, and whether the index holds its path.
    Leaf { in_index: bool },
    /// The repository's own metadata directory.
    MetaDir,
    /// Any other directory, with its children in the order they are listed.
    Dir { children: Seq<Entry> },
}

/// The verdict on an entry.
pub open spec fn class(e: Entry) -> Trackedness
    decreases e, 0int,
{
    match e {
        Entry::Leaf { in_index } => leaf_spec(in_index),
        Entry::MetaDir => Trackedness::Untracked,
        Entry::Dir { children } => verdict_spec(tally_upto(children, children.len() as int)),
    }
}

/// The tally of the first `n` children of a directory, each folded in by
/// its own verdict.
pub open spec fn tally_upto(children: Seq<Entry>, n: int) -> Tally
    decreases children, n,
{
    if n <= 0 || n > children.len() {
        empty_tally()
    } else {
        absorb_spec(tally_upto(children, n - 1), class(children[n - 1]))
    }
}

/// The verdicts on the children of a directory, in listing order.
pub open spec fn verdicts(children: Seq<Entry>) -> Seq<Trackedness> {
    Seq::new(children.len(), |i: int| class(children[i]))
}

/// Folds verdicts into a tally one by one, and stops as soon as the tally is
/// settled: what comes after is never looked at.
pub open spec fn scan(t: Tally, vs: Seq<Trackedness>) -> Tally
    decreases vs.len(),
{
    if vs.len() == 0 || settled_spec(t) {
        t
    } else {
        scan(absorb_spec(t, vs[0]), vs.drop_first())
    }
}

/// The tally that folding all of `vs` into `t` would give.
pub open spec fn full_tally(t: Tally, vs: Seq<Trackedness>) -> Tally {
    Tally {
        any_tracked: t.any_tracked || exists|i: int|
            0 <= i < vs.len() && vs[i] != Trackedness::Untracked,
        any_untracked: t.any_untracked || exists|i: int|
            0 <= i < vs.len() && vs[i] != Trackedness::All,
    }
}

/// Cutting the fold short once the tally is settled leaves the verdict as it is.
pub proof fn lemma_scan_verdict(t: Tally, vs: Seq<Trackedness>)
    ensures
        verdict_spec(scan(t, vs)) == verdict_spec(full_tally(t, vs)),
    decreases vs.len(),
{
    if vs.len() == 0 || settled_spec(t) {
    } else {
        let t2 = absorb_spec(t, vs[0]);
        let rest = vs.drop_first();
        lemma_scan_verdict(t2, rest);
        let f1 = full_tally(t2, rest);
        let f0 = full_tally(t, vs);
        if f0.any_tracked {
            if !t.any_tracked && vs[0] == Trackedness::Untracked {
                let i = choose|i: int| 0 <= i < vs.len() && vs[i] != Trackedness::Untracked;
                assert(rest[i - 1] == vs[i]);
            }
        }
        if f1.any_tracked && !t2.any_tracked {
            let i = choose|i: int| 0 <= i < rest.len() && rest[i] != Trackedness::Untracked;
            assert(vs[i + 1] == rest[i]);
        }
        if f0.any_untracked {
            if !t.any_untracked && vs[0] == Trackedness::All {
                let i = choose|i: int| 0 <= i < vs.len() && vs[i] != Trackedness::All;
                assert(rest[i - 1] == vs[i]);
            }
        }
        if f1.any_untracked && !t2.any_untracked {
            let i = choose|i: int| 0 <= i < rest.len() && rest[i] != Trackedness::All;
            assert(vs[i + 1] == rest[i]);
        }
        assert(f0 == f1);
    }
}

/// The tally of the first `n` children records exactly whether one of them
/// is tracked in whole or in part, and whether one is untracked in whole or in part.
proof fn lemma_tally_upto(children: Seq<Entry>, n: int)
    requires
        0 <= n <= children.len(),
    ensures
        tally_upto(children, n).any_tracked <==> exists|i: int|
            0 <= i < n && #[trigger] class(children[i]) != Trackedness::Untracked,
        tally_upto(children, n).any_untracked <==> exists|i: int|
            0 <= i < n && #[trigger] class(children[i]) != Trackedness::All,
    decreases n,
{
    if n > 0 {
        lemma_tally_upto(children, n - 1);
        let prev = tally_upto(children, n - 1);
        let last = class(children[n - 1]);
        assert(tally_upto(children, n) == absorb_spec(prev, last));
        if prev.any_tracked {
            let i = choose|i: int| 0 <= i < n - 1 && #[trigger] class(children[i]) != Trackedness::Untracked;
        }
        if prev.any_untracked {
            let i = choose|i: int| 0 <= i < n - 1 && #[trigger] class(children[i]) != Trackedness::All;
        }
        if exists|i: int| 0 <= i < n && #[trigger] class(children[i]) != Trackedness::Untracked {
            let i = choose|i: int| 0 <= i < n && #[trigger] class(children[i]) != Trackedness::Untracked;
            if i < n - 1 {
                assert(tally_upto(children, n - 1).any_tracked);
            }
        }
        if exists|i: int| 0 <= i < n && #[trigger] class(children[i]) != Trackedness::All {
            let i = choose|i: int| 0 <= i < n && #[trigger] class(children[i]) != Trackedness::All;
            if i < n - 1 {
                assert(tally_upto(children, n - 1).any_untracked);
            }
        }
    }
}

/// A directory's verdict is the verdict of its children's tally, folded in
/// listing order and cut short once both kinds have been seen.
pub proof fn lemma_dir_is_scan(children: Seq<Entry>)
    ensures
        class(Entry::Dir { children }) == verdict_spec(scan(empty_tally(), verdicts(children))),
{
    let vs = verdicts(children);
    lemma_tally_upto(children, children.len() as int);
    lemma_scan_verdict(empty_tally(), vs);
    let f = full_tally(empty_tally(), vs);
    if f.any_tracked {
        let i = choose|i: int| 0 <= i < vs.len() && vs[i] != Trackedness::Untracked;
        assert(class(children[i]) != Trackedness::Untracked);
    }
    if f.any_untracked {
        let i = choose|i: int| 0 <= i < vs.len() && vs[i] != Trackedness::All;
        assert(class(children[i]) != Trackedness::All);
    }
    let t = tally_upto(children, children.len() as int);
    if t.any_tracked {
        let i = choose|i: int| 0 <= i < children.len() && #[trigger] class(children[i]) != Trackedness::Untracked;
        assert(vs[i] != Trackedness::Untracked);
    }
    if t.any_untracked {
        let i = choose|i: int| 0 <= i < children.len() && #[trigger] class(children[i]) != Trackedness::All;
        assert(vs[i] != Trackedness::All);
    }
    assert(t == f);
}

/// A directory with no entries is untracked.
pub proof fn lemma_empty_dir_untracked(children: Seq<Entry>)
    requires
        children.len() == 0,
    ensures
        class(Entry::Dir { children }) == Trackedness::Untracked,
{
}

/// A non-empty directory whose children are all wholly tracked is wholly tracked.
pub proof fn lemma_all_tracked_dir(children: Seq<Entry>)
    requires
        children.len() > 0,
        forall|i: int| 0 <= i < children.len() ==> class(#[trigger] children[i]) == Trackedness::All,
    ensures
        class(Entry::Dir { children }) == Trackedness::All,
{
    lemma_tally_upto(children, children.len() as int);
    assert(class(children[0]) != Trackedness::Untracked);
}

/// A directory with a child that is tracked in whole or in part, and a child
/// that is untracked in whole or in part, is partly tracked.
pub proof fn lemma_mixed_dir_partial(children: Seq<Entry>, i: int, j: int)
    requires
        0 <= i < children.len(),
        0 <= j < children.len(),
        class(children[i]) != Trackedness::Untracked,
        class(children[j]) != Trackedness::All,
    ensures
        class(Entry::Dir { children }) == Trackedness::Partial,
{
    lemma_tally_upto(children, children.len() as int);
}

/// Listing a directory's children in another order never changes its verdict.
pub proof fn lemma_order_independent(c1: Seq<Entry>, c2: Seq<Entry>)
    requires
        c1.to_multiset() =~= c2.to_multiset(),
    ensures
        class(Entry::Dir { children: c1 }) == class(Entry::Dir { children: c2 }),
{
    broadcast use vstd::seq_lib::to_multiset_contains;

    lemma_tally_upto(c1, c1.len() as int);
    lemma_tally_upto(c2, c2.len() as int);
    assert forall|i: int| 0 <= i < c1.len() implies c2.contains(#[trigger] c1[i]) by {
        assert(c1.contains(c1[i]));
        assert(c1.to_multiset().count(c1[i]) > 0);
    }
    assert forall|i: int| 0 <= i < c2.len() implies c1.contains(#[trigger] c2[i]) by {
        assert(c2.contains(c2[i]));
        assert(c2.to_multiset().count(c2[i]) > 0);
    }
    if exists|i: int| 0 <= i < c1.len() && #[trigger] class(c1[i]) != Trackedness::Untracked {
        let i = choose|i: int| 0 <= i < c1.len() && #[trigger] class(c1[i]) != Trackedness::Untracked;
        assert(c2.contains(c1[i]));
        let j = choose|j: int| 0 <= j < c2.len() && c2[j] == c1[i];
        assert(class(c2[j]) != Trackedness::Untracked);
    }
    if exists|i: int| 0 <= i < c2.len() && #[trigger] class(c2[i]) != Trackedness::Untracked {
        let i = choose|i: int| 0 <= i < c2.len() && #[trigger] class(c2[i]) != Trackedness::Untracked;
        assert(c1.contains(c2[i]));
        let j = choose|j: int| 0 <= j < c1.len() && c1[j] == c2[i];
        assert(class(c1[j]) != Trackedness::Untracked);
    }
    if exists|i: int| 0 <= i < c1.len() && #[trigger] class(c1[i]) != Trackedness::All {
        let i = choose|i: int| 0 <= i < c1.len() && #[trigger] class(c1[i]) != Trackedness::All;
        assert(c2.contains(c1[i]));
        let j = choose|j: int| 0 <= j < c2.len() && c2[j] == c1[i];
        assert(class(c2[j]) != Trackedness::All);
    }
    if exists|i: int| 0 <= i < c2.len() && #[trigger] class(c2[i]) != Trackedness::All {
        let i = choose|i: int| 0 <= i < c2.len() && #[trigger] class(c2[i]) != Trackedness::All;
        assert(c1.contains(c2[i]));
        let j = choose|j: int| 0 <= j < c1.len() && c1[j] == c2[i];
        assert(class(c1[j]) != Trackedness::All);
    }
    assert(tally_upto(c1, c1.len() as int) == tally_upto(c2, c2.len() as int));
}

} // verus!
