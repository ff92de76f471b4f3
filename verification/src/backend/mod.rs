//! What a repository looks like to the rest of the program, whichever tool
//! (git or jj) reads it.

use vstd::prelude::*;

use crate::backend::jj::JjBackend;
use crate::config::Config;
use crate::text::strings_view;

pub mod git;
pub mod jj;

verus! {

/// How a file differs from the other side of its section.
#[derive(Debug, Clone, PartialEq)]
pub enum FileKind {
    Modified,
    Added,
    Deleted,
    Renamed(String),
    Untracked,
    Conflicted,
}

/// `FileKind` with the renamed path as characters.
pub enum FileKindView {
    Modified,
    Added,
    Deleted,
    Renamed(Seq<char>),
    Untracked,
    Conflicted,
}

impl View for FileKind {
    type V = FileKindView;

    open spec fn view(&self) -> FileKindView {
        match self {
            FileKind::Modified => FileKindView::Modified,
            FileKind::Added => FileKindView::Added,
            FileKind::Deleted => FileKindView::Deleted,
            FileKind::Renamed(to) => FileKindView::Renamed(to@),
            FileKind::Untracked => FileKindView::Untracked,
            FileKind::Conflicted => FileKindView::Conflicted,
        }
    }
}

impl FileKind {
    /// A copy with the same view.
    pub fn copy(&self) -> (r: FileKind)
        ensures
            r@ == self@,
    {
        match self {
            FileKind::Modified => FileKind::Modified,
            FileKind::Added => FileKind::Added,
            FileKind::Deleted => FileKind::Deleted,
            FileKind::Renamed(to) => FileKind::Renamed(to.clone()),
            FileKind::Untracked => FileKind::Untracked,
            FileKind::Conflicted => FileKind::Conflicted,
        }
    }

    /// The word shown for the kind (`renamed → new/path` for renames).
    pub fn describe(&self) -> (r: String)
        ensures
            r@ == self@.describe(),
    {
        match self {
            FileKind::Modified => String::from_str("modified"),
            FileKind::Added => String::from_str("added"),
            FileKind::Deleted => String::from_str("deleted"),
            FileKind::Renamed(to) => {
                let s = String::from_str("renamed → ");
                s.concat(to.as_str())
            },
            FileKind::Untracked => String::from_str("untracked"),
            FileKind::Conflicted => String::from_str("conflicted"),
        }
    }
}

impl FileKindView {
    pub open spec fn describe(self) -> Seq<char> {
        match self {
            FileKindView::Modified => "modified"@,
            FileKindView::Added => "added"@,
            FileKindView::Deleted => "deleted"@,
            FileKindView::Renamed(to) => "renamed → "@ + to,
            FileKindView::Untracked => "untracked"@,
            FileKindView::Conflicted => "conflicted"@,
        }
    }
}

#[derive(Debug, Clone)]
pub struct FileEntry {
    pub path: String,
    pub kind: FileKind,
}

impl View for FileEntry {
    type V = (Seq<char>, FileKindView);

    open spec fn view(&self) -> (Seq<char>, FileKindView) {
        (self.path@, self.kind@)
    }
}

impl FileEntry {
    /// A copy with the same view.
    pub fn copy(&self) -> (r: FileEntry)
        ensures
            r@ == self@,
    {
        FileEntry { path: self.path.clone(), kind: self.kind.copy() }
    }
}

#[derive(Debug, Clone)]
pub struct CommitInfo {
    pub short_hash: String,
    pub summary: String,
    pub author: String,
}

impl View for CommitInfo {
    type V = (Seq<char>, Seq<char>, Seq<char>);

    open spec fn view(&self) -> (Seq<char>, Seq<char>, Seq<char>) {
        (self.short_hash@, self.summary@, self.author@)
    }
}

impl CommitInfo {
    /// A copy with the same view.
    pub fn copy(&self) -> (r: CommitInfo)
        ensures
            r@ == self@,
    {
        CommitInfo {
            short_hash: self.short_hash.clone(),
            summary: self.summary.clone(),
            author: self.author.clone(),
        }
    }
}

#[derive(Debug, Clone)]
pub struct StashInfo {
    pub index: usize,
    pub summary: String,
}

impl View for StashInfo {
    type V = (usize, Seq<char>);

    open spec fn view(&self) -> (usize, Seq<char>) {
        (self.index, self.summary@)
    }
}

impl StashInfo {
    /// A copy with the same view.
    pub fn copy(&self) -> (r: StashInfo)
        ensures
            r@ == self@,
    {
        StashInfo { index: self.index, summary: self.summary.clone() }
    }
}

#[derive(Debug, Clone)]
pub struct BranchInfo {
    pub name: String,
    pub is_current: bool,
}

impl View for BranchInfo {
    type V = (Seq<char>, bool);

    open spec fn view(&self) -> (Seq<char>, bool) {
        (self.name@, self.is_current)
    }
}

#[derive(Debug, Clone)]
pub struct RepoStatus {
    pub head: Option<String>,
    pub head_short_hash: Option<String>,
    pub head_summary: Option<String>,
    pub upstream: Option<String>,
    pub staged: Vec<FileEntry>,
    pub unstaged: Vec<FileEntry>,
    pub untracked: Vec<FileEntry>,
    /// Capped for display; see `unpushed_total` for the real count.
    pub unpushed: Vec<CommitInfo>,
    /// Real count, even when `unpushed` is truncated.
    pub unpushed_total: usize,
}

impl RepoStatus {
    /// A status with nothing in it.
    pub fn empty() -> (r: RepoStatus)
        ensures
            r.head is None,
            r.head_short_hash is None,
            r.head_summary is None,
            r.upstream is None,
            r.staged@.len() == 0,
            r.unstaged@.len() == 0,
            r.untracked@.len() == 0,
            r.unpushed@.len() == 0,
            r.unpushed_total == 0,
    {
        RepoStatus {
            head: None,
            head_short_hash: None,
            head_summary: None,
            upstream: None,
            staged: Vec::new(),
            unstaged: Vec::new(),
            untracked: Vec::new(),
            unpushed: Vec::new(),
            unpushed_total: 0,
        }
    }
}

impl Default for RepoStatus {
    fn default() -> (r: RepoStatus)
        ensures
            r.head is None,
            r.staged@.len() == 0,
            r.unstaged@.len() == 0,
            r.untracked@.len() == 0,
            r.unpushed@.len() == 0,
            r.unpushed_total == 0,
    {
        RepoStatus::empty()
    }
}

/// Which tool reads the repository.
#[derive(Debug, Clone, Copy, PartialEq, Eq, Structural)]
pub enum BackendKind {
    Git,
    Jj,
}

/// Whether two characters are equal ignoring ASCII case.
pub open spec fn char_eq_ignore_ascii_case(a: char, b: char) -> bool {
    let (x, y) = (a as u32, b as u32);
    x == y || (65 <= x <= 90 && x + 32 == y) || (65 <= y <= 90 && y + 32 == x)
}

/// ASCII case-insensitive equality of two character sequences.
pub open spec fn eq_ignore_ascii_case(a: Seq<char>, b: Seq<char>) -> bool {
    a.len() == b.len() && forall|i: int|
        0 <= i < a.len() ==> #[trigger] char_eq_ignore_ascii_case(a[i], b[i])
}

/// The backend a name selects, ignoring ASCII case (`"git"` or `"jj"`).
pub open spec fn spec_parse_backend_kind(s: Seq<char>) -> Option<BackendKind> {
    if eq_ignore_ascii_case(s, "git"@) {
        Some(BackendKind::Git)
    } else if eq_ignore_ascii_case(s, "jj"@) {
        Some(BackendKind::Jj)
    } else {
        None
    }
}

/// `eq_ignore_ascii_case` on vectors of characters.
fn chars_eq_ignore_ascii_case(a: &Vec<char>, b: &Vec<char>) -> (r: bool)
    ensures
        r == eq_ignore_ascii_case(a@, b@),
{
    if a.len() != b.len() {
        return false;
    }
    let mut i: usize = 0;
    while i < a.len()
        invariant
            a@.len() == b@.len(),
            i <= a@.len(),
            forall|j: int| 0 <= j < i ==> #[trigger] char_eq_ignore_ascii_case(a@[j], b@[j]),
        decreases a@.len() - i,
    {
        let x = a[i] as u32;
        let y = b[i] as u32;
        if !(x == y || (65 <= x && x <= 90 && x + 32 == y) || (65 <= y && y <= 90 && y + 32 == x)) {
            assert(!char_eq_ignore_ascii_case(a@[i as int], b@[i as int]));
            return false;
        }
        i += 1;
    }
    true
}

impl BackendKind {
    /// The backend named by `s`, ignoring ASCII case; `None` for any other name.
    pub fn parse(s: &str) -> (r: Option<BackendKind>)
        ensures
            r == spec_parse_backend_kind(s@),
    {
        let v = crate::text::chars_of(s);
        let git = crate::text::chars_of("git");
        let jj = crate::text::chars_of("jj");
        if chars_eq_ignore_ascii_case(&v, &git) {
            Some(BackendKind::Git)
        } else if chars_eq_ignore_ascii_case(&v, &jj) {
            Some(BackendKind::Jj)
        } else {
            None
        }
    }
}

/// The backend to use: the command line's choice wins, then the config's
/// (when it names one), then jj if a `.jj` directory was found, else git.
pub open spec fn spec_choose_backend(
    forced: Option<BackendKind>,
    configured: Option<Seq<char>>,
    jj_root_found: bool,
) -> BackendKind {
    match forced {
        Some(k) => k,
        None => match configured {
            Some(name) if spec_parse_backend_kind(name) is Some => spec_parse_backend_kind(name)->0,
            _ => if jj_root_found {
                BackendKind::Jj
            } else {
                BackendKind::Git
            },
        },
    }
}

/// The backend to use (see `spec_choose_backend`).
pub fn choose_backend(forced: Option<BackendKind>, configured: Option<&str>, jj_root_found: bool) -> (r:
    BackendKind)
    ensures
        r == spec_choose_backend(
            forced,
            match configured {
                Some(s) => Some(s@),
                None => None,
            },
            jj_root_found,
        ),
{
    match forced {
        Some(k) => k,
        None => {
            let parsed = match configured {
                Some(name) => BackendKind::parse(name),
                None => None,
            };
            match parsed {
                Some(k) => k,
                None => if jj_root_found {
                    BackendKind::Jj
                } else {
                    BackendKind::Git
                },
            }
        },
    }
}

/// What `std::path::Path::parent` gives for the path `p`: `p` without its
/// final component, or `None` when `p` ends in a root or prefix or is empty.
pub uninterp spec fn path_parent(p: Seq<char>) -> Option<Seq<char>>;

/// `std::path::Path::parent` on a path written as text. The parent is a
/// part of `p` without its last component, so it is shorter than `p`.
#[verifier::external_body]
fn parent_of(p: &str) -> (r: Option<String>)
    ensures
        match r {
            Some(q) => path_parent(p@) == Some(q@) && q@.len() < p@.len(),
            None => path_parent(p@) is None,
        },
{
    match std::path::Path::new(p).parent() {
        Some(q) => Some(q.to_string_lossy().into_owned()),
        None => None,
    }
}

/// `p` and its ancestors, nearest first, as `Path::ancestors` yields them.
pub open spec fn ancestors_of(p: Seq<char>) -> Seq<Seq<char>>
    decreases p.len(),
{
    match path_parent(p) {
        Some(q) => if q.len() < p.len() {
            seq![p] + ancestors_of(q)
        } else {
            seq![p]
        },
        None => seq![p],
    }
}

/// `path` and each directory above it, nearest first: where a `.jj`
/// directory may be looked for.
pub fn path_ancestors(path: &str) -> (r: Vec<String>)
    ensures
        strings_view(r@) == ancestors_of(path@),
{
    let mut out: Vec<String> = Vec::new();
    let mut cur = String::from_str(path);
    loop
        invariant
            ancestors_of(path@) == strings_view(out@) + ancestors_of(cur@),
        decreases cur@.len(),
    {
        let ghost before = out@;
        let next = parent_of(cur.as_str());
        let ghost c = cur@;
        out.push(cur);
        assert(strings_view(out@) =~= strings_view(before).push(c));
        match next {
            Some(q) => {
                assert(ancestors_of(c) =~= seq![c] + ancestors_of(q@));
                assert(strings_view(out@) + ancestors_of(q@) =~= strings_view(before) + ancestors_of(c));
                cur = q;
            },
            None => {
                assert(ancestors_of(c) =~= seq![c]);
                assert(strings_view(out@) =~= strings_view(before) + ancestors_of(c));
                return out;
            },
        }
    }
}

/// The first of `dirs` whose mark in `marks` is set, looking no further
/// than either sequence goes.
pub open spec fn first_marked(dirs: Seq<Seq<char>>, marks: Seq<bool>) -> Option<Seq<char>>
    decreases dirs.len(),
{
    if dirs.len() == 0 || marks.len() == 0 {
        None
    } else if marks[0] {
        Some(dirs[0])
    } else {
        first_marked(dirs.drop_first(), marks.drop_first())
    }
}

/// The nearest of `ancestors` (see `path_ancestors`) holding a `.jj`
/// directory, where `has_jj_dir[i]` says whether `ancestors[i]` holds one.
pub fn find_jj_root(ancestors: &Vec<String>, has_jj_dir: &Vec<bool>) -> (r: Option<String>)
    ensures
        match r {
            Some(d) => first_marked(strings_view(ancestors@), has_jj_dir@) == Some(d@),
            None => first_marked(strings_view(ancestors@), has_jj_dir@) is None,
        },
{
    let mut i: usize = 0;
    let ghost dirs = strings_view(ancestors@);
    assert(dirs.skip(0) =~= dirs);
    assert(has_jj_dir@.skip(0) =~= has_jj_dir@);
    while i < ancestors.len() && i < has_jj_dir.len()
        invariant
            dirs == strings_view(ancestors@),
            i <= ancestors@.len(),
            i <= has_jj_dir@.len(),
            first_marked(dirs, has_jj_dir@) == first_marked(dirs.skip(i as int), has_jj_dir@.skip(i as int)),
        decreases ancestors@.len() - i,
    {
        if has_jj_dir[i] {
            assert(dirs.skip(i as int)[0] == ancestors@[i as int]@);
            return Some(ancestors[i].clone());
        }
        assert(dirs.skip(i as int).drop_first() =~= dirs.skip(i + 1));
        assert(has_jj_dir@.skip(i as int).drop_first() =~= has_jj_dir@.skip(i + 1));
        i += 1;
    }
    None
}

/// The backend to open.
pub enum Detected {
    Git,
    Jj(JjBackend),
}

/// Which backend to open for `path`: the command line's choice, else the
/// config's, else jj when a `.jj` directory was found above `path`
/// (`jj_root`), else git. Choosing jj with no `.jj` directory fails.
pub fn detect_backend(path: &str, forced: Option<BackendKind>, config: &Config, jj_root: Option<String>) -> (r:
    Result<Detected, String>)
    ensures
        ({
            let kind = spec_choose_backend(
                forced,
                match config.backend {
                    Some(s) => Some(s@),
                    None => None,
                },
                jj_root is Some,
            );
            match kind {
                BackendKind::Git => r matches Ok(Detected::Git),
                BackendKind::Jj => match jj_root {
                    Some(root) => r matches Ok(Detected::Jj(b)) && b.root@ == root@,
                    None => r matches Err(e) && e@ == jj::no_root_message(path@),
                },
            }
        }),
{
    let configured = match &config.backend {
        Some(s) => Some(s.as_str()),
        None => None,
    };
    let kind = choose_backend(forced, configured, jj_root.is_some());
    match kind {
        BackendKind::Git => Ok(Detected::Git),
        BackendKind::Jj => match JjBackend::new(jj_root, path) {
            Ok(b) => Ok(Detected::Jj(b)),
            Err(e) => Err(e),
        },
    }
}

} // verus!
