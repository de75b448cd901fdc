use git_ls_color::display::{entry_line, strip_dot};
use git_ls_color::paths::{is_repo_key, key_from_diff, leaf_target, ClassifyError, Context};
use git_ls_color::trackedness::{dir_track_indecator, leaf_verdict, Tally, Trackedness};
use git_ls_color::walk::{Action, Event, Walker};

fn entry(path: &str) -> git2::IndexEntry {
    git2::IndexEntry {
        ctime: git2::IndexTime::new(0, 0),
        mtime: git2::IndexTime::new(0, 0),
        dev: 0,
        ino: 0,
        mode: 0o100644,
        uid: 0,
        gid: 0,
        file_size: 0,
        id: git2::Oid::from_str("0123456789abcdef0123456789abcdef01234567").unwrap(),
        flags: 0,
        flags_extended: 0,
        path: path.as_bytes().to_vec(),
    }
}

fn context(held: &[&str]) -> Context {
    let mut index = git2::Index::new().unwrap();
    for p in held {
        index.add(&entry(p)).unwrap();
    }
    Context::new("/repo".to_string(), index)
}

fn run(events: &[Event]) -> Vec<Action> {
    let mut w = Walker::new();
    let mut out = Vec::new();
    for e in events {
        out.push(w.step(*e));
    }
    out
}

const DIR: Event = Event::Dir { meta: false };
const YES: Event = Event::Leaf { in_index: true };
const NO: Event = Event::Leaf { in_index: false };

#[test]
fn root_with_tracked_and_untracked_file_is_partial() {
    let ctx = context(&["a.txt"]);
    let a = ctx.classify_leaf("/repo/a.txt").unwrap();
    let b = ctx.classify_leaf("/repo/b.txt").unwrap();
    assert_eq!(a, Trackedness::All);
    assert_eq!(b, Trackedness::Untracked);
    let acts = run(&[
        DIR,
        Event::Leaf { in_index: a == Trackedness::All },
        Event::Leaf { in_index: b == Trackedness::All },
        Event::End,
    ]);
    assert_eq!(acts, vec![Action::Next, Action::Next, Action::Close, Action::Done { verdict: Trackedness::Partial }]);
}

#[test]
fn dir_of_tracked_files_is_all_and_marked_star() {
    let acts = run(&[DIR, YES, YES, YES, Event::End]);
    assert_eq!(acts.last(), Some(&Action::Done { verdict: Trackedness::All }));
    assert_eq!(dir_track_indecator(Trackedness::All), "*");
}

#[test]
fn empty_dir_is_untracked() {
    let acts = run(&[DIR, Event::End]);
    assert_eq!(acts, vec![Action::Next, Action::Done { verdict: Trackedness::Untracked }]);
}

#[test]
fn meta_dir_is_untracked_whatever_it_holds() {
    let ctx = context(&["config"]);
    assert!(ctx.is_meta_dir("/repo/.git"));
    assert!(!ctx.is_meta_dir("/repo/src/.git"));
    assert!(!ctx.is_meta_dir("/repo/.gitignore"));
    let acts = run(&[Event::Dir { meta: true }]);
    assert_eq!(acts, vec![Action::Done { verdict: Trackedness::Untracked }]);
    let acts = run(&[DIR, Event::Dir { meta: true }, YES, Event::End]);
    assert_eq!(acts.last(), Some(&Action::Done { verdict: Trackedness::Partial }));
}

#[test]
fn dot_segment_gives_same_key_and_verdict() {
    let ctx = context(&["src/a.txt"]);
    let k1 = ctx.relative_key("/repo/./src/a.txt").unwrap();
    let k2 = ctx.relative_key("/repo/src/a.txt").unwrap();
    assert_eq!(k1, "src/a.txt");
    assert_eq!(k1, k2);
    assert_eq!(ctx.classify_leaf("/repo/./src/a.txt"), Ok(Trackedness::All));
    assert_eq!(strip_dot("./src/a.txt"), "src/a.txt");
}

#[test]
fn leaf_verdict_follows_index() {
    let ctx = context(&["src/a.txt", "README"]);
    assert_eq!(ctx.is_tracked("/repo/README"), Ok(true));
    assert_eq!(ctx.is_tracked("/repo/src/b.txt"), Ok(false));
    assert_eq!(ctx.classify_leaf("/repo/src/b.txt"), Ok(Trackedness::Untracked));
    assert_eq!(ctx.classify_leaf("/repo/src"), Ok(Trackedness::Untracked));
    assert_eq!(leaf_verdict(true), Trackedness::All);
    assert_eq!(leaf_verdict(false), Trackedness::Untracked);
}

#[test]
fn repeated_classification_agrees() {
    let ctx = context(&["src/a.txt"]);
    assert_eq!(ctx.classify_leaf("/repo/src/a.txt"), ctx.classify_leaf("/repo/src/a.txt"));
    assert_eq!(run(&[DIR, YES, NO, Event::End]), run(&[DIR, YES, NO, Event::End]));
}

#[test]
fn child_order_does_not_matter() {
    let one = run(&[DIR, YES, DIR, YES, Event::End, YES, Event::End]);
    let two = run(&[DIR, DIR, YES, Event::End, YES, YES, Event::End]);
    assert_eq!(one.last(), Some(&Action::Done { verdict: Trackedness::All }));
    assert_eq!(one.last(), two.last());
    let three = run(&[DIR, NO, YES, Event::End]);
    let four = run(&[DIR, YES, NO, Event::End]);
    assert_eq!(three.last(), four.last());
    assert_eq!(three.last(), Some(&Action::Done { verdict: Trackedness::Partial }));
}

#[test]
fn partial_child_settles_every_parent() {
    let acts = run(&[DIR, DIR, YES, NO, Event::End, Event::End]);
    assert_eq!(
        acts,
        vec![
            Action::Next,
            Action::Next,
            Action::Next,
            Action::Close,
            Action::Close,
            Action::Done { verdict: Trackedness::Partial }
        ]
    );
}

#[test]
fn untracked_only_dir_is_untracked() {
    let acts = run(&[DIR, NO, DIR, Event::End, Event::End]);
    assert_eq!(acts.last(), Some(&Action::Done { verdict: Trackedness::Untracked }));
}

#[test]
fn walker_reports_depth_and_verdict() {
    let mut w = Walker::new();
    assert_eq!(w.depth(), 0);
    assert_eq!(w.verdict(), None);
    w.step(DIR);
    w.step(DIR);
    assert_eq!(w.depth(), 2);
    w.step(Event::End);
    assert_eq!(w.depth(), 1);
    w.step(Event::End);
    assert_eq!(w.verdict(), Some(Trackedness::Untracked));
}

#[test]
fn single_leaf_walk_ends_at_once() {
    assert_eq!(run(&[YES]), vec![Action::Done { verdict: Trackedness::All }]);
    assert_eq!(run(&[NO]), vec![Action::Done { verdict: Trackedness::Untracked }]);
}

#[test]
fn paths_outside_the_repository_are_refused() {
    let ctx = context(&["a"]);
    assert_eq!(ctx.relative_key("/other/a"), Err(ClassifyError::PathResolution));
    assert_eq!(ctx.relative_key("relative/a"), Err(ClassifyError::PathResolution));
    assert_eq!(ctx.relative_key("/repo"), Err(ClassifyError::PathResolution));
    assert_eq!(ctx.classify_leaf("/other/a"), Err(ClassifyError::PathResolution));
    assert_eq!(ctx.is_tracked("/"), Err(ClassifyError::PathResolution));
    assert_eq!(ctx.git_root(), "/repo");
}

#[test]
fn key_from_diff_checks_the_key() {
    assert_eq!(key_from_diff(Some("a/b".to_string())), Ok("a/b".to_string()));
    assert_eq!(key_from_diff(Some("../a".to_string())), Err(ClassifyError::PathResolution));
    assert_eq!(key_from_diff(Some(String::new())), Err(ClassifyError::PathResolution));
    assert_eq!(key_from_diff(None), Err(ClassifyError::PathResolution));
}

#[test]
fn repo_keys() {
    assert!(is_repo_key("a"));
    assert!(is_repo_key(".gitignore"));
    assert!(is_repo_key("..a/b"));
    assert!(is_repo_key("a/../b"));
    assert!(!is_repo_key(""));
    assert!(!is_repo_key("."));
    assert!(!is_repo_key(".."));
    assert!(!is_repo_key("./a"));
    assert!(!is_repo_key("../a"));
    assert!(!is_repo_key("/a"));
    assert!(!is_repo_key("a\0b"));
}

#[test]
fn leaf_target_appends_the_name() {
    assert_eq!(leaf_target("/repo/src", "link"), "/repo/src/link");
    assert_eq!(leaf_target("/", "x"), "/x");
    assert_eq!(leaf_target("", "x"), "x");
}

#[test]
fn strip_dot_cases() {
    assert_eq!(strip_dot("."), ".");
    assert_eq!(strip_dot("./"), ".");
    assert_eq!(strip_dot("./foo"), "foo");
    assert_eq!(strip_dot("a/./b/"), "a/b");
    assert_eq!(strip_dot("a//b"), "a/b");
    assert_eq!(strip_dot("/./x"), "/x");
    assert_eq!(strip_dot("/"), "/");
    assert_eq!(strip_dot("../x"), "../x");
    assert_eq!(strip_dot(""), "");
}

#[test]
fn indicators() {
    assert_eq!(dir_track_indecator(Trackedness::All), "*");
    assert_eq!(dir_track_indecator(Trackedness::Partial), "+");
    assert_eq!(dir_track_indecator(Trackedness::Untracked), "^");
}

#[test]
fn tally_folds() {
    let t = Tally::new();
    assert!(!t.is_settled());
    assert_eq!(t.verdict(), Trackedness::Untracked);
    let t = t.absorb(Trackedness::All);
    assert_eq!(t.verdict(), Trackedness::All);
    let t = t.absorb(Trackedness::Untracked);
    assert!(t.is_settled());
    assert_eq!(t.verdict(), Trackedness::Partial);
    let p = Tally::new().absorb(Trackedness::Partial);
    assert!(p.is_settled());
}

#[test]
fn tracked_dir_line_carries_star() {
    assert_eq!(entry_line("src", true, false, Trackedness::All), Some("src *".to_string()));
    assert_eq!(entry_line("src", true, true, Trackedness::All), Some("src: *".to_string()));
    assert_eq!(entry_line("docs", true, false, Trackedness::Partial), Some("docs +".to_string()));
}

#[test]
fn untracked_dir_and_file_are_not_shown() {
    assert_eq!(entry_line("build", true, false, Trackedness::Untracked), None);
    assert_eq!(entry_line("build", true, true, Trackedness::Untracked), None);
    assert_eq!(entry_line("b.txt", false, false, Trackedness::Untracked), None);
    assert_eq!(entry_line("a.txt", false, false, Trackedness::All), Some("a.txt".to_string()));
}
