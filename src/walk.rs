//! The decisions of a depth-first walk that classifies a directory tree.
//!
//! The walker never touches the filesystem. Whoever drives it lists the
//! directories, reports each entry it meets as an [`Event`], and does what the
//! returned [`Action`] says: read on in the directory it is in, or stop
//! reading that directory and report its end.
use vstd::prelude::*;
use crate::model::{Entry, class, lemma_dir_is_scan, scan, verdicts};
use crate::trackedness::{
    Tally, Trackedness, absorb_spec, empty_tally, leaf_spec, settled_spec, verdict_spec,
};

verus! {

/// What the driver of a walk has just met.
#[derive(Debug, Clone, Copy, PartialEq, Eq, Structural)]
pub enum Event {
    /// A file or symlink, and whether the index holds its path.
    Leaf { in_index: bool },
    /// A directory; `meta` when it is the repository's own metadata directory.
    /// The driver opens an ordinary directory and reports its entries next.
    Dir { meta: bool },
    /// The directory that was opened last has no more entries, or the driver
    /// stopped reading it because it was told to.
    End,
}

/// What the walker asks of its driver.
#[derive(Debug, Clone, Copy, PartialEq, Eq, Structural)]
pub enum Action {
    /// Report the next entry of the directory opened last.
    Next,
    /// The directory opened last is decided: stop reading it and report `End`.
    Close,
    /// The entry the walk started from has this verdict.
    Done { verdict: Trackedness },
}

/// Hands a finished verdict to the directory that holds the entry, or ends
/// the walk when there is none.
pub open spec fn deliver(stack: Seq<Tally>, t: Trackedness) -> (Seq<Tally>, Action) {
    if stack.len() == 0 {
        (stack, Action::Done { verdict: t })
    } else {
        let top = absorb_spec(stack.last(), t);
        (
            stack.update(stack.len() - 1, top),
            if settled_spec(top) {
                Action::Close
            } else {
                Action::Next
            },
        )
    }
}

/// One step of the walk: the new stack of open directories' tallies and the action.
pub open spec fn step_spec(stack: Seq<Tally>, ev: Event) -> (Seq<Tally>, Action) {
    match ev {
        Event::Leaf { in_index } => deliver(stack, leaf_spec(in_index)),
        Event::Dir { meta } => if meta {
            deliver(stack, Trackedness::Untracked)
        } else {
            (stack.push(empty_tally()), Action::Next)
        },
        Event::End => deliver(stack.drop_last(), verdict_spec(stack.last())),
    }
}

/// The state of a walk: one tally for each directory that is open, the
/// outermost first, and the verdict once the walk is over.
pub struct Walker {
    open: Vec<Tally>,
    outcome: Option<Trackedness>,
}

impl Walker {
    /// The tallies of the open directories, the outermost first.
    pub closed spec fn stack(&self) -> Seq<Tally> {
        self.open@
    }

    /// The verdict, once the walk has ended.
    pub closed spec fn outcome(&self) -> Option<Trackedness> {
        self.outcome
    }

    /// A walk that has not met its first entry.
    pub fn new() -> (w: Walker)
        ensures
            w.stack() == Seq::<Tally>::empty(),
            w.outcome() is None,
    {
        Walker { open: Vec::new(), outcome: Option::None }
    }

    /// How many directories are open.
    pub fn depth(&self) -> (r: usize)
        ensures
            r == self.stack().len(),
    {
        self.open.len()
    }

    /// The verdict, once the walk has ended.
    pub fn verdict(&self) -> (r: Option<Trackedness>)
        ensures
            r == self.outcome(),
    {
        self.outcome
    }

    /// Takes in what the driver met and says what it should do next.
    pub fn step(&mut self, ev: Event) -> (a: Action)
        requires
            old(self).outcome() is None,
            ev is End ==> old(self).stack().len() > 0,
        ensures
            (final(self).stack(), a) == step_spec(old(self).stack(), ev),
            final(self).outcome() == (match a {
                Action::Done { verdict } => Option::Some(verdict),
                _ => Option::None,
            }),
    {
        match ev {
            Event::Leaf { in_index } => {
                let t = if in_index {
                    Trackedness::All
                } else {
                    Trackedness::Untracked
                };
                self.deliver(t)
            },
            Event::Dir { meta } => {
                if meta {
                    self.deliver(Trackedness::Untracked)
                } else {
                    self.open.push(Tally::new());
                    Action::Next
                }
            },
            Event::End => {
                let top = self.open.pop().unwrap();
                proof {
                    assert(self.open@ == old(self).open@.drop_last());
                }
                self.deliver(top.verdict())
            },
        }
    }

    fn deliver(&mut self, t: Trackedness) -> (a: Action)
        requires
            old(self).outcome() is None,
        ensures
            (final(self).stack(), a) == deliver(old(self).stack(), t),
            final(self).outcome() == (match a {
                Action::Done { verdict } => Option::Some(verdict),
                _ => Option::None,
            }),
    {
        let n = self.open.len();
        if n == 0 {
            self.outcome = Option::Some(t);
            Action::Done { verdict: t }
        } else {
            let top = self.open[n - 1].absorb(t);
            self.open.set(n - 1, top);
            if top.is_settled() {
                Action::Close
            } else {
                Action::Next
            }
        }
    }
}

/// Feeds `evs` to a walk whose stack is `stack` and whose last action was
/// `last`, as a driver that keeps to the protocol would: nothing after `Done`,
/// `End` only while a directory is open, and no further entry after `Close`.
/// `None` when the events break it.
pub open spec fn run(stack: Seq<Tally>, last: Action, evs: Seq<Event>) -> Option<(Seq<Tally>, Action)>
    decreases evs.len(),
{
    if evs.len() == 0 {
        Option::Some((stack, last))
    } else if last is Done || (evs[0] is End && stack.len() == 0) || (!(evs[0] is End)
        && last is Close) {
        Option::None
    } else {
        let (s2, a) = step_spec(stack, evs[0]);
        run(s2, a, evs.drop_first())
    }
}

/// The events a driver reports for the entry `e` when it reads each directory
/// only until the walker tells it to close it.
pub open spec fn entry_events(e: Entry) -> Seq<Event>
    decreases e, 0int,
{
    match e {
        Entry::Leaf { in_index } => seq![Event::Leaf { in_index }],
        Entry::MetaDir => seq![Event::Dir { meta: true }],
        Entry::Dir { children } => seq![Event::Dir { meta: false }] + child_events(
            children,
            0,
            empty_tally(),
        ) + seq![Event::End],
    }
}

/// The events for the children of a directory from the `i`-th on, while the
/// directory's tally is `t`: none once the tally is settled.
pub open spec fn child_events(cs: Seq<Entry>, i: int, t: Tally) -> Seq<Event>
    decreases cs, cs.len() - i,
{
    if i < 0 || i >= cs.len() || settled_spec(t) {
        Seq::empty()
    } else {
        entry_events(cs[i]) + child_events(cs, i + 1, absorb_spec(t, class(cs[i])))
    }
}

/// The action the walker gives after folding a verdict into the tally `t` of
/// an open directory.
pub open spec fn after(t: Tally) -> Action {
    if settled_spec(t) {
        Action::Close
    } else {
        Action::Next
    }
}

proof fn lemma_run_append(stack: Seq<Tally>, last: Action, e1: Seq<Event>, e2: Seq<Event>)
    ensures
        match run(stack, last, e1) {
            Option::Some((s1, a1)) => run(stack, last, e1 + e2) == run(s1, a1, e2),
            Option::None => true,
        },
    decreases e1.len(),
{
    if e1.len() == 0 {
        assert(e1 + e2 =~= e2);
    } else {
        let (s2, a) = step_spec(stack, e1[0]);
        assert((e1 + e2).drop_first() =~= e1.drop_first() + e2);
        assert((e1 + e2)[0] == e1[0]);
        lemma_run_append(s2, a, e1.drop_first(), e2);
    }
}

/// Walking an entry hands its verdict to the directory that holds it, or
/// ends the walk with it. Nothing else changes: the tallies of the
/// directories further out stay as they were, and no state outlives a walk.
pub proof fn lemma_walk_entry(stack: Seq<Tally>, e: Entry)
    ensures
        run(stack, Action::Next, entry_events(e)) == Option::Some(deliver(stack, class(e))),
    decreases e, 0int,
{
    reveal_with_fuel(run, 2);
    match e {
        Entry::Leaf { in_index } => {
            let evs = entry_events(e);
            assert(evs.drop_first() =~= Seq::<Event>::empty());
        },
        Entry::MetaDir => {
            let evs = entry_events(e);
            assert(evs.drop_first() =~= Seq::<Event>::empty());
        },
        Entry::Dir { children } => {
            let first = seq![Event::Dir { meta: false }];
            let mid = child_events(children, 0, empty_tally());
            let end = seq![Event::End];
            let pushed = stack.push(empty_tally());
            assert(run(stack, Action::Next, first) == Option::Some((pushed, Action::Next))) by {
                assert(first.drop_first() =~= Seq::<Event>::empty());
            }
            lemma_run_append(stack, Action::Next, first, mid);
            lemma_walk_children(stack, children, 0, empty_tally());
            let vs = verdicts(children);
            assert(vs.subrange(0, vs.len() as int) =~= vs);
            let full = scan(empty_tally(), vs);
            let before_end = stack.push(full);
            lemma_run_append(stack, Action::Next, first + mid, end);
            assert(end.drop_first() =~= Seq::<Event>::empty());
            assert(before_end.drop_last() =~= stack);
            lemma_dir_is_scan(children);
        },
    }
}

/// Walking the children of a directory from the `i`-th on folds their
/// verdicts into its tally until it is settled.
proof fn lemma_walk_children(stack: Seq<Tally>, cs: Seq<Entry>, i: int, t: Tally)
    requires
        0 <= i <= cs.len(),
    ensures
        run(stack.push(t), after(t), child_events(cs, i, t)) == Option::Some(
            (stack.push(scan(t, verdicts(cs).subrange(i, cs.len() as int))), after(
                scan(t, verdicts(cs).subrange(i, cs.len() as int)),
            )),
        ),
    decreases cs, cs.len() - i,
{
    let vs = verdicts(cs);
    let rest = vs.subrange(i, cs.len() as int);
    if i >= cs.len() || settled_spec(t) {
    } else {
        let c = cs[i];
        let t2 = absorb_spec(t, class(c));
        let evs = entry_events(c);
        lemma_walk_entry(stack.push(t), c);
        assert(stack.push(t).update(stack.len() as int, t2) =~= stack.push(t2));
        lemma_run_append(stack.push(t), after(t), evs, child_events(cs, i + 1, t2));
        lemma_walk_children(stack, cs, i + 1, t2);
        assert(rest.drop_first() =~= vs.subrange(i + 1, cs.len() as int));
        assert(rest[0] == class(c));
    }
}

/// A walk driven over the entry `e`, reading each directory only until the
/// walker closes it, keeps to the protocol and ends with the verdict `class(e)`.
pub proof fn lemma_walk_classifies(e: Entry)
    ensures
        run(Seq::empty(), Action::Next, entry_events(e)) == Option::Some(
            (Seq::<Tally>::empty(), Action::Done { verdict: class(e) }),
        ),
{
    lemma_walk_entry(Seq::empty(), e);
}

} // verus!
