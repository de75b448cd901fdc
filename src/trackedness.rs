//! The three-valued verdict on an entry, and the tally that a directory
//! builds from the verdicts on its children.
use vstd::prelude::*;

verus! {

/// How much of a filesystem entry the index tracks.
#[derive(Debug, Clone, Copy, PartialEq, Eq, Structural)]
pub enum Trackedness {
    /// A tracked file or symlink, or a directory whose every leaf below is tracked.
    All,
    /// A directory with both tracked and untracked leaves below it.
    Partial,
    /// An untracked file or symlink, or a directory with nothing tracked below it.
    Untracked,
}

/// What the verdicts on the children of a directory have shown so far.
#[derive(Debug, Clone, Copy, PartialEq, Eq, Structural)]
pub struct Tally {
    pub any_tracked: bool,
    pub any_untracked: bool,
}

/// The tally of a directory before any child has been seen.
pub open spec fn empty_tally() -> Tally {
    Tally { any_tracked: false, any_untracked: false }
}

/// Folds one child's verdict into a tally: `All` counts as tracked,
/// `Untracked` as untracked, `Partial` as both.
pub open spec fn absorb_spec(t: Tally, c: Trackedness) -> Tally {
    Tally {
        any_tracked: t.any_tracked || c != Trackedness::Untracked,
        any_untracked: t.any_untracked || c != Trackedness::All,
    }
}

/// The verdict on a directory whose children gave the tally `t`.
pub open spec fn verdict_spec(t: Tally) -> Trackedness {
    if t.any_tracked && t.any_untracked {
        Trackedness::Partial
    } else if t.any_tracked {
        Trackedness::All
    } else {
        Trackedness::Untracked
    }
}

/// Once both kinds have been seen the verdict is `Partial`, whatever follows.
pub open spec fn settled_spec(t: Tally) -> bool {
    t.any_tracked && t.any_untracked
}

/// The verdict on a leaf, given whether the index holds its path.
pub open spec fn leaf_spec(in_index: bool) -> Trackedness {
    if in_index {
        Trackedness::All
    } else {
        Trackedness::Untracked
    }
}

/// The mark printed after a directory's name.
pub open spec fn indicator_spec(t: Trackedness) -> Seq<char> {
    match t {
        Trackedness::All => seq!['*'],
        Trackedness::Partial => seq!['+'],
        Trackedness::Untracked => seq!['^'],
    }
}

impl Tally {
    pub fn new() -> (r: Tally)
        ensures
            r == empty_tally(),
    {
        Tally { any_tracked: false, any_untracked: false }
    }

    pub fn absorb(self, c: Trackedness) -> (r: Tally)
        ensures
            r == absorb_spec(self, c),
    {
        match c {
            Trackedness::All => Tally { any_tracked: true, any_untracked: self.any_untracked },
            Trackedness::Partial => Tally { any_tracked: true, any_untracked: true },
            Trackedness::Untracked => Tally { any_tracked: self.any_tracked, any_untracked: true },
        }
    }

    pub fn verdict(self) -> (r: Trackedness)
        ensures
            r == verdict_spec(self),
    {
        if self.any_tracked {
            if self.any_untracked {
                Trackedness::Partial
            } else {
                Trackedness::All
            }
        } else {
            Trackedness::Untracked
        }
    }

    pub fn is_settled(self) -> (r: bool)
        ensures
            r == settled_spec(self),
    {
        self.any_tracked && self.any_untracked
    }
}

/// The verdict on a file or symlink.
pub fn leaf_verdict(in_index: bool) -> (r: Trackedness)
    ensures
        r == leaf_spec(in_index),
{
    if in_index {
        Trackedness::All
    } else {
        Trackedness::Untracked
    }
}

/// The mark shown beside a directory: `*` when all of it is tracked, `+` when
/// part of it is, `^` when none of it is.
pub fn dir_track_indecator(track: Trackedness) -> (r: &'static str)
    ensures
        r@ == indicator_spec(track),
{
    match track {
        Trackedness::All => {
            proof { reveal_strlit("*"); }
            "*"
        },
        Trackedness::Partial => {
            proof { reveal_strlit("+"); }
            "+"
        },
        Trackedness::Untracked => {
            proof { reveal_strlit("^"); }
            "^"
        },
    }
}

} // verus!
