//! Turning a filesystem path into the repository-relative key that the index
//! is looked up by, and the lookup itself.
use vstd::prelude::*;
use crate::trackedness::{Trackedness, leaf_spec};

verus! {

#[verifier::external_type_specification]
#[verifier::external_body]
pub struct ExIndex(git2::Index);

/// The paths of the entries that the index holds at stage 0.
pub uninterp spec fn staged_paths(index: git2::Index) -> Set<Seq<char>>;

/// The path of `path` relative to `base`, as `pathdiff::diff_paths` computes it.
pub uninterp spec fn path_diff(path: Seq<char>, base: Seq<char>) -> Option<Seq<char>>;

/// Why an entry could not be classified.
#[derive(Debug, Clone, Copy, PartialEq, Eq, Structural)]
pub enum ClassifyError {
    /// The path cannot be related to the repository root, or relates to a
    /// place outside it.
    PathResolution,
    /// A directory could not be read, or an entry's type could not be told.
    Filesystem,
}

/// A key that names a place inside the repository: not empty, not absolute,
/// not starting with a `.` or `..` component, and free of NUL characters.
pub open spec fn repo_key(k: Seq<char>) -> bool {
    &&& k.len() > 0
    &&& k[0] != '/'
    &&& !k.contains('\0')
    &&& k != seq!['.']
    &&& k != seq!['.', '.']
    &&& !(k.len() >= 2 && k[0] == '.' && k[1] == '/')
    &&& !(k.len() >= 3 && k[0] == '.' && k[1] == '.' && k[2] == '/')
}

/// The lookup key of an entry at `target`, when there is one.
pub open spec fn key_spec(target: Seq<char>, root: Seq<char>) -> Option<Seq<char>> {
    match path_diff(target, root) {
        Option::Some(k) => if repo_key(k) {
            Option::Some(k)
        } else {
            Option::None
        },
        Option::None => Option::None,
    }
}

/// `name` appended to the directory `dir` as one more path component.
pub open spec fn join_spec(dir: Seq<char>, name: Seq<char>) -> Seq<char> {
    if dir.len() == 0 {
        name
    } else if dir.last() == '/' {
        dir + name
    } else {
        dir + seq!['/'] + name
    }
}

/// The name of the repository's metadata directory.
pub open spec fn meta_name() -> Seq<char> {
    seq!['.', 'g', 'i', 't']
}

/// Relies on pathdiff::diff_paths: the path of `path` relative to `base`, or
/// none when it has none. Each component it yields comes from one of the two
/// strings or is `..`, so the text conversion loses nothing.
#[verifier::external_body]
fn diff_paths(path: &str, base: &str) -> (r: Option<String>)
    ensures
        path_diff(path@, base@) == (match r {
            Option::Some(s) => Option::Some(s@),
            Option::None => Option::None,
        }),
{
    pathdiff::diff_paths(path, base).map(|p| p.to_string_lossy().into_owned())
}

/// Relies on git2::Index::get_path with stage 0: whether the index holds an
/// entry at `key`. It panics on a key that `repo_key` rules out.
#[verifier::external_body]
fn index_holds(index: &git2::Index, key: &str) -> (r: bool)
    requires
        repo_key(key@),
    ensures
        r == staged_paths(*index).contains(key@),
{
    index.get_path(std::path::Path::new(key), 0).is_some()
}

/// Whether `k` names a place inside the repository.
pub fn is_repo_key(k: &str) -> (r: bool)
    ensures
        r == repo_key(k@),
{
    let n = k.unicode_len();
    if n == 0 {
        return false;
    }
    let c0 = k.get_char(0);
    if c0 == '/' {
        return false;
    }
    if c0 == '.' {
        if n == 1 {
            assert(k@ =~= seq!['.']);
            return false;
        }
        let c1 = k.get_char(1);
        if c1 == '/' {
            return false;
        }
        if c1 == '.' {
            if n == 2 {
                assert(k@ =~= seq!['.', '.']);
                return false;
            }
            if k.get_char(2) == '/' {
                return false;
            }
        }
    }
    let mut i: usize = 0;
    while i < n
        invariant
            n == k@.len(),
            0 <= i <= n,
            forall|j: int| 0 <= j < i ==> k@[j] != '\0',
        decreases n - i,
    {
        if k.get_char(i) == '\0' {
            assert(k@.contains('\0'));
            return false;
        }
        i = i + 1;
    }
    assert(k@ != seq!['.']) by {
        if k@ == seq!['.'] {
            assert(n == 1);
        }
    }
    assert(k@ != seq!['.', '.']) by {
        if k@ == seq!['.', '.'] {
            assert(k@[1] == '.');
        }
    }
    true
}

/// The lookup key, from what `pathdiff::diff_paths` returned for the entry and
/// the root: the relative path when it names a place inside the repository.
pub fn key_from_diff(d: Option<String>) -> (r: Result<String, ClassifyError>)
    ensures
        match d {
            Option::Some(k) => if repo_key(k@) {
                r == Ok::<String, ClassifyError>(k)
            } else {
                r == Err::<String, ClassifyError>(ClassifyError::PathResolution)
            },
            Option::None => r == Err::<String, ClassifyError>(ClassifyError::PathResolution),
        },
{
    match d {
        Option::Some(k) => {
            if is_repo_key(k.as_str()) {
                Ok(k)
            } else {
                Err(ClassifyError::PathResolution)
            }
        },
        Option::None => Err(ClassifyError::PathResolution),
    }
}

/// The path of an entry that is a directory or a symlink: its parent, with
/// links resolved, and its own name appended, so that a symlink is known by
/// its own place and not by what it points to.
pub fn leaf_target(parent: &str, name: &str) -> (r: String)
    ensures
        r@ == join_spec(parent@, name@),
{
    let n = parent.unicode_len();
    let mut out = String::from_str(parent);
    if n > 0 && parent.get_char(n - 1) != '/' {
        proof { reveal_strlit("/"); }
        out.append("/");
    }
    out.append(name);
    proof {
        if n == 0 {
            assert(out@ =~= name@);
        }
    }
    out
}

/// What classification reads from the repository: its root, with links
/// resolved, and its index.
pub struct Context {
    root: String,
    index: git2::Index,
}

impl Context {
    /// The repository root.
    pub closed spec fn root(&self) -> Seq<char> {
        self.root@
    }

    /// The index that entries are looked up in.
    pub closed spec fn index(&self) -> git2::Index {
        self.index
    }

    pub fn new(root: String, index: git2::Index) -> (c: Context)
        ensures
            c.root() == root@,
            c.index() == index,
    {
        Context { root, index }
    }

    /// The repository root.
    pub fn git_root(&self) -> (r: &str)
        ensures
            r@ == self.root(),
    {
        self.root.as_str()
    }

    /// The lookup key of the entry at `target`, a path whose directories have
    /// their links resolved.
    pub fn relative_key(&self, target: &str) -> (r: Result<String, ClassifyError>)
        ensures
            match key_spec(target@, self.root()) {
                Option::Some(k) => r is Ok && r->Ok_0@ == k,
                Option::None => r == Err::<String, ClassifyError>(ClassifyError::PathResolution),
            },
    {
        key_from_diff(diff_paths(target, self.root.as_str()))
    }

    /// Whether the index holds the entry at `target`.
    pub fn is_tracked(&self, target: &str) -> (r: Result<bool, ClassifyError>)
        ensures
            match key_spec(target@, self.root()) {
                Option::Some(k) => r == Ok::<bool, ClassifyError>(
                    staged_paths(self.index()).contains(k),
                ),
                Option::None => r == Err::<bool, ClassifyError>(ClassifyError::PathResolution),
            },
    {
        let k = self.relative_key(target)?;
        Ok(index_holds(&self.index, k.as_str()))
    }

    /// The verdict on the file or symlink at `target`: `All` exactly when the
    /// index holds its key, `Untracked` otherwise.
    pub fn classify_leaf(&self, target: &str) -> (r: Result<Trackedness, ClassifyError>)
        ensures
            match key_spec(target@, self.root()) {
                Option::Some(k) => r == Ok::<Trackedness, ClassifyError>(
                    leaf_spec(staged_paths(self.index()).contains(k)),
                ),
                Option::None => r == Err::<Trackedness, ClassifyError>(
                    ClassifyError::PathResolution,
                ),
            },
    {
        let b = self.is_tracked(target)?;
        Ok(crate::trackedness::leaf_verdict(b))
    }

    /// Whether the directory at `canonical`, a path with every link resolved,
    /// is the repository's own metadata directory.
    pub fn is_meta_dir(&self, canonical: &str) -> (r: bool)
        ensures
            r == (canonical@ == join_spec(self.root(), meta_name())),
    {
        proof { reveal_strlit(".git"); }
        let m = leaf_target(self.root.as_str(), ".git");
        assert(".git"@ =~= meta_name());
        let c = String::from_str(canonical);
        m == c
    }
}

} // verus!
