//! Reports how much of a directory tree a git index tracks.
//!
//! - `trackedness`: the verdict on an entry (all, part or none of it tracked)
//!   and the tally a directory folds its children's verdicts into.
//! - `model`: a directory tree as a mathematical value, the verdict on each
//!   entry of it, and the laws that verdict obeys.
//! - `walk`: the decisions of a depth-first walk that reads each directory
//!   only until its verdict is settled, proved to reach the verdict of the model.
//! - `paths`: the repository-relative key an entry is looked up by, and the
//!   lookup in the index.
//! - `display`: what is printed for an entry.
pub mod trackedness;
pub mod model;
pub mod walk;
pub mod paths;
pub mod display;
