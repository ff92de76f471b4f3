//! Reading a git repository: how the status flags of each path sort it into
//! the staged, unstaged and untracked lists, how a diff is printed, how
//! branches are ordered, and the texts handed to `git` itself. Talking to
//! the repository is the program's job; it hands these functions what it
//! read.

use vstd::prelude::*;

use crate::backend::{BranchInfo, CommitInfo, FileEntry, FileKind, FileKindView, RepoStatus, StashInfo};
use crate::backend::jj::entries_view;
use crate::diff::{decimal, decimal_string};
use crate::text::{
    chars_contain, chars_of, contains_seq, string_of, string_of_range, trim, trim_end, trim_end_str, trim_str,
};

verus! {

/// The status bits of one path that decide where it is listed.
#[derive(Clone, Copy, Debug, PartialEq, Eq, Structural)]
pub struct StatusFlags {
    pub index_new: bool,
    pub index_modified: bool,
    pub index_deleted: bool,
    pub index_renamed: bool,
    pub wt_new: bool,
    pub wt_modified: bool,
    pub wt_deleted: bool,
    pub wt_renamed: bool,
    pub conflicted: bool,
}

/// One path of the repository's status, with the new paths of its renames.
pub struct StatusEntry {
    pub path: String,
    pub flags: StatusFlags,
    /// New path of a rename between HEAD and the index, when one is known.
    pub renamed_in_index: Option<String>,
    /// New path of a rename between the index and the worktree, when one is known.
    pub renamed_in_worktree: Option<String>,
}

pub open spec fn or_empty(s: Option<String>) -> Seq<char> {
    match s {
        Some(p) => p@,
        None => seq![],
    }
}

/// The kind under which `e` is listed as staged, if it is.
pub open spec fn staged_kind(e: StatusEntry) -> Option<FileKindView> {
    if e.flags.index_new {
        Some(FileKindView::Added)
    } else if e.flags.index_modified {
        Some(FileKindView::Modified)
    } else if e.flags.index_deleted {
        Some(FileKindView::Deleted)
    } else if e.flags.index_renamed {
        Some(FileKindView::Renamed(or_empty(e.renamed_in_index)))
    } else {
        None
    }
}

/// The kind under which `e`'s worktree change is listed as unstaged, if it is.
pub open spec fn worktree_kind(e: StatusEntry) -> Option<FileKindView> {
    if e.flags.wt_modified {
        Some(FileKindView::Modified)
    } else if e.flags.wt_deleted {
        Some(FileKindView::Deleted)
    } else if e.flags.wt_renamed {
        Some(FileKindView::Renamed(or_empty(e.renamed_in_worktree)))
    } else {
        None
    }
}

/// Whether `e` is listed as untracked: new in the worktree and no other
/// worktree change.
pub open spec fn is_untracked(e: StatusEntry) -> bool {
    worktree_kind(e) is None && e.flags.wt_new
}

pub open spec fn listed(path: Seq<char>, kind: Option<FileKindView>) -> Seq<(Seq<char>, FileKindView)> {
    match kind {
        Some(k) => seq![(path, k)],
        None => seq![],
    }
}

/// The staged list of `es`, in order.
pub open spec fn staged_list(es: Seq<StatusEntry>) -> Seq<(Seq<char>, FileKindView)>
    decreases es.len(),
{
    if es.len() == 0 {
        seq![]
    } else {
        staged_list(es.drop_last()) + listed(es.last().path@, staged_kind(es.last()))
    }
}

/// The unstaged list of `es`, in order: each path's worktree change, then
/// its conflict.
pub open spec fn unstaged_list(es: Seq<StatusEntry>) -> Seq<(Seq<char>, FileKindView)>
    decreases es.len(),
{
    if es.len() == 0 {
        seq![]
    } else {
        let e = es.last();
        unstaged_list(es.drop_last()) + listed(e.path@, worktree_kind(e)) + listed(
            e.path@,
            if e.flags.conflicted {
                Some(FileKindView::Conflicted)
            } else {
                None
            },
        )
    }
}

/// The untracked list of `es`, in order.
pub open spec fn untracked_list(es: Seq<StatusEntry>) -> Seq<(Seq<char>, FileKindView)>
    decreases es.len(),
{
    if es.len() == 0 {
        seq![]
    } else {
        untracked_list(es.drop_last()) + listed(
            es.last().path@,
            if is_untracked(es.last()) {
                Some(FileKindView::Untracked)
            } else {
                None
            },
        )
    }
}

fn copy_opt(s: &Option<String>) -> (r: String)
    ensures
        r@ == or_empty(*s),
{
    match s {
        Some(p) => p.clone(),
        None => String::new(),
    }
}

/// A status whose file lists come from `entries` and whose head and
/// upstream fields are the given ones.
pub fn build_status(
    entries: &Vec<StatusEntry>,
    head: Option<String>,
    head_short_hash: Option<String>,
    head_summary: Option<String>,
    upstream: Option<String>,
    unpushed: Vec<CommitInfo>,
    unpushed_total: usize,
) -> (r: RepoStatus)
    ensures
        entries_view(r.staged@) == staged_list(entries@),
        entries_view(r.unstaged@) == unstaged_list(entries@),
        entries_view(r.untracked@) == untracked_list(entries@),
        r.head == head && r.head_short_hash == head_short_hash && r.head_summary == head_summary,
        r.upstream == upstream && r.unpushed == unpushed && r.unpushed_total == unpushed_total,
{
    let mut staged: Vec<FileEntry> = Vec::new();
    let mut unstaged: Vec<FileEntry> = Vec::new();
    let mut untracked: Vec<FileEntry> = Vec::new();
    let mut i: usize = 0;
    while i < entries.len()
        invariant
            i <= entries@.len(),
            entries_view(staged@) == staged_list(entries@.take(i as int)),
            entries_view(unstaged@) == unstaged_list(entries@.take(i as int)),
            entries_view(untracked@) == untracked_list(entries@.take(i as int)),
        decreases entries@.len() - i,
    {
        let e = &entries[i];
        let ghost es = entries@.take(i + 1);
        assert(es.drop_last() =~= entries@.take(i as int));
        assert(es.last() == *e);
        let f = e.flags;
        let ghost s0 = staged@;
        let ghost u0 = unstaged@;
        let ghost t0 = untracked@;
        let staged_kind_now = if f.index_new {
            Some(FileKind::Added)
        } else if f.index_modified {
            Some(FileKind::Modified)
        } else if f.index_deleted {
            Some(FileKind::Deleted)
        } else if f.index_renamed {
            Some(FileKind::Renamed(copy_opt(&e.renamed_in_index)))
        } else {
            None
        };
        match staged_kind_now {
            Some(kind) => {
                staged.push(FileEntry { path: e.path.clone(), kind });
                assert(entries_view(staged@) =~= entries_view(s0) + listed(e.path@, staged_kind(*e)));
            },
            None => {
                assert(entries_view(staged@) =~= entries_view(s0) + listed(e.path@, staged_kind(*e)));
            },
        }
        let wt_kind = if f.wt_modified {
            Some(FileKind::Modified)
        } else if f.wt_deleted {
            Some(FileKind::Deleted)
        } else if f.wt_renamed {
            Some(FileKind::Renamed(copy_opt(&e.renamed_in_worktree)))
        } else {
            None
        };
        match wt_kind {
            Some(kind) => {
                unstaged.push(FileEntry { path: e.path.clone(), kind });
            },
            None => {
                if f.wt_new {
                    untracked.push(FileEntry { path: e.path.clone(), kind: FileKind::Untracked });
                }
            },
        }
        let ghost u1 = unstaged@;
        assert(entries_view(u1) =~= entries_view(u0) + listed(e.path@, worktree_kind(*e)));
        assert(entries_view(untracked@) =~= entries_view(t0) + listed(
            e.path@,
            if is_untracked(*e) {
                Some(FileKindView::Untracked)
            } else {
                None
            },
        ));
        if f.conflicted {
            unstaged.push(FileEntry { path: e.path.clone(), kind: FileKind::Conflicted });
        }
        assert(entries_view(unstaged@) =~= entries_view(u1) + listed(
            e.path@,
            if e.flags.conflicted {
                Some(FileKindView::Conflicted)
            } else {
                None
            },
        ));
        i += 1;
    }
    assert(entries@.take(entries@.len() as int) =~= entries@);
    RepoStatus {
        head,
        head_short_hash,
        head_summary,
        upstream,
        staged,
        unstaged,
        untracked,
        unpushed,
        unpushed_total,
    }
}

/// How HEAD is shown: its short name, in parentheses when HEAD is detached.
pub open spec fn spec_head_label(name: Seq<char>, is_branch: bool) -> Seq<char> {
    if is_branch {
        name
    } else {
        seq!['('] + name + seq![')']
    }
}

/// `spec_head_label`, computed.
pub fn head_label(name: &str, is_branch: bool) -> (r: String)
    ensures
        r@ == spec_head_label(name@, is_branch),
{
    if is_branch {
        String::from_str(name)
    } else {
        let mut v: Vec<char> = Vec::new();
        v.push('(');
        let n = chars_of(name);
        let mut i: usize = 0;
        while i < n.len()
            invariant
                i <= n@.len(),
                v@ == seq!['('] + n@.take(i as int),
            decreases n@.len() - i,
        {
            v.push(n[i]);
            assert(n@.take(i + 1) =~= n@.take(i as int).push(n@[i as int]));
            i += 1;
        }
        v.push(')');
        assert(n@.take(n@.len() as int) =~= n@);
        assert(v@ =~= seq!['('] + name@ + seq![')']);
        string_of(&v)
    }
}

/// The first seven characters of a commit id (all of it when shorter).
pub open spec fn spec_short_hash(id: Seq<char>) -> Seq<char> {
    if id.len() <= 7 {
        id
    } else {
        id.take(7)
    }
}

/// `spec_short_hash`, computed.
pub fn short_hash(id: &str) -> (r: String)
    ensures
        r@ == spec_short_hash(id@),
{
    let v = chars_of(id);
    let n = if v.len() <= 7 { v.len() } else { 7 };
    assert(v@.subrange(0, v@.len() as int) =~= v@);
    assert(v@.subrange(0, 7) =~= v@.take(7));
    string_of_range(&v, 0, n)
}

/// A commit as the lists show it: its short id, and its summary and author
/// name (empty when missing).
pub fn commit_info(id: &str, summary: Option<&str>, author: Option<&str>) -> (r: CommitInfo)
    ensures
        r.short_hash@ == spec_short_hash(id@),
        r.summary@ == (match summary {
            Some(s) => s@,
            None => seq![],
        }),
        r.author@ == (match author {
            Some(s) => s@,
            None => seq![],
        }),
{
    CommitInfo {
        short_hash: short_hash(id),
        summary: match summary {
            Some(s) => String::from_str(s),
            None => String::new(),
        },
        author: match author {
            Some(s) => String::from_str(s),
            None => String::new(),
        },
    }
}

/// One printed line of a diff: its origin (`+`, `-`, ` ` or another mark)
/// and its text.
pub struct DiffLine {
    pub origin: char,
    pub content: String,
}

/// What a diff line contributes: its origin when that is `+`, `-` or a
/// space, then its text.
pub open spec fn diff_line_text(l: DiffLine) -> Seq<char> {
    if l.origin == '+' || l.origin == '-' || l.origin == ' ' {
        seq![l.origin] + l.content@
    } else {
        l.content@
    }
}

/// The patch text of `lines`, in order.
pub open spec fn spec_diff_text(lines: Seq<DiffLine>) -> Seq<char>
    decreases lines.len(),
{
    if lines.len() == 0 {
        seq![]
    } else {
        spec_diff_text(lines.drop_last()) + diff_line_text(lines.last())
    }
}

/// The patch text of a printed diff (see `spec_diff_text`).
pub fn diff_text(lines: &Vec<DiffLine>) -> (r: String)
    ensures
        r@ == spec_diff_text(lines@),
{
    let mut out: Vec<char> = Vec::new();
    let mut i: usize = 0;
    while i < lines.len()
        invariant
            i <= lines@.len(),
            out@ == spec_diff_text(lines@.take(i as int)),
        decreases lines@.len() - i,
    {
        let l = &lines[i];
        assert(lines@.take(i + 1).drop_last() =~= lines@.take(i as int));
        let ghost before = out@;
        if l.origin == '+' || l.origin == '-' || l.origin == ' ' {
            out.push(l.origin);
        }
        let ghost mid = out@;
        let c = chars_of(l.content.as_str());
        let mut j: usize = 0;
        while j < c.len()
            invariant
                j <= c@.len(),
                out@ == mid + c@.take(j as int),
            decreases c@.len() - j,
        {
            out.push(c[j]);
            assert(c@.take(j + 1) =~= c@.take(j as int).push(c@[j as int]));
            j += 1;
        }
        assert(c@.take(c@.len() as int) =~= c@);
        assert(out@ =~= before + diff_line_text(*l));
        i += 1;
    }
    assert(lines@.take(lines@.len() as int) =~= lines@);
    string_of(&out)
}

/// Whether a failed `git push` failed only for want of an upstream branch.
pub open spec fn spec_needs_upstream(message: Seq<char>) -> bool {
    contains_seq(message, "no upstream branch"@) || contains_seq(message, "has no upstream"@)
}

/// `spec_needs_upstream`, computed.
pub fn needs_upstream(message: &str) -> (r: bool)
    ensures
        r == spec_needs_upstream(message@),
{
    let m = chars_of(message);
    let a = chars_of("no upstream branch");
    let b = chars_of("has no upstream");
    chars_contain(&m, &a) || chars_contain(&m, &b)
}

/// Where the autosquash rebase starts: the parent of `hash`, or the root
/// when `hash` has no parent.
pub fn rebase_base(hash: &str, has_parent: bool) -> (r: String)
    ensures
        r@ == if has_parent {
            hash@ + "^"@
        } else {
            "--root"@
        },
{
    if has_parent {
        String::from_str(hash).concat("^")
    } else {
        String::from_str("--root")
    }
}

/// A reword needs a message with something other than white space in it;
/// else it is refused with "empty commit message" before the repository
/// is touched.
pub fn check_reword_message(message: &str) -> (r: Result<(), String>)
    ensures
        r is Ok <==> trim(message@).len() > 0,
        r matches Err(e) ==> e@ == "empty commit message"@,
{
    let t = trim_str(message);
    if chars_of(t.as_str()).len() == 0 {
        Err(String::from_str("empty commit message"))
    } else {
        Ok(())
    }
}

/// The message file of a reword: the `amend!` subject that autosquash
/// matches, a blank line, then the new message without trailing white space.
pub open spec fn spec_reword_file(full_hash: Seq<char>, message: Seq<char>) -> Seq<char> {
    "amend! "@ + full_hash + "\n\n"@ + trim_end(message) + "\n"@
}

/// `spec_reword_file`, computed.
pub fn reword_file(full_hash: &str, message: &str) -> (r: String)
    ensures
        r@ == spec_reword_file(full_hash@, message@),
{
    let body = trim_end_str(message);
    String::from_str("amend! ").concat(full_hash).concat("\n\n").concat(body.as_str()).concat("\n")
}

/// The name git gives stash `index`: `stash@{index}`.
pub fn stash_ref(index: usize) -> (r: String)
    ensures
        r@ == "stash@{"@ + decimal(index as nat) + "}"@,
{
    let n = decimal_string(index);
    String::from_str("stash@{").concat(n.as_str()).concat("}")
}

/// The stashes whose reflog messages are `messages`, newest first, numbered
/// from 0; a missing message reads as empty.
pub fn stash_entries(messages: &Vec<Option<String>>) -> (r: Vec<StashInfo>)
    ensures
        r@.len() == messages@.len(),
        forall|i: int| 0 <= i < r@.len() ==> (#[trigger] r@[i]).index == i && r@[i].summary@ == or_empty(messages@[i]),
{
    let mut out: Vec<StashInfo> = Vec::new();
    let mut i: usize = 0;
    while i < messages.len()
        invariant
            i <= messages@.len(),
            out@.len() == i,
            forall|j: int| 0 <= j < i ==> (#[trigger] out@[j]).index == j && out@[j].summary@ == or_empty(messages@[j]),
        decreases messages@.len() - i,
    {
        out.push(StashInfo { index: i, summary: copy_opt(&messages[i]) });
        i += 1;
    }
    out
}

/// How many unpushed commits are listed with their details; the rest are
/// only counted.
pub const UNPUSHED_DISPLAY_LIMIT: usize = 100;

/// Commits reachable from HEAD but not from its upstream, as a walk finds
/// them: the first `UNPUSHED_DISPLAY_LIMIT` with details, and how many in all.
pub struct UnpushedTally {
    pub commits: Vec<CommitInfo>,
    pub total: usize,
}

impl UnpushedTally {
    pub fn new() -> (r: UnpushedTally)
        ensures
            r.commits@.len() == 0,
            r.total == 0,
    {
        UnpushedTally { commits: Vec::new(), total: 0 }
    }

    /// Counts one more commit; returns whether its details are still wanted.
    pub fn count_one(&mut self) -> (r: bool)
        ensures
            final(self).commits == old(self).commits,
            final(self).total == (if old(self).total < usize::MAX { old(self).total + 1 } else { usize::MAX as int }),
            r == (old(self).commits@.len() < UNPUSHED_DISPLAY_LIMIT),
    {
        self.total = self.total.saturating_add(1);
        self.commits.len() < UNPUSHED_DISPLAY_LIMIT
    }

    /// Keeps the details of the commit just counted.
    pub fn add(&mut self, info: CommitInfo)
        ensures
            final(self).commits@ == old(self).commits@.push(info),
            final(self).total == old(self).total,
    {
        self.commits.push(info);
    }
}

// ---------------------------------------------------------------------------
// Branch order
// ---------------------------------------------------------------------------

/// Whether name `a` sorts before name `b`: character by character, by code
/// point, a proper prefix first (the order of `str`'s `<`).
pub open spec fn name_lt(a: Seq<char>, b: Seq<char>) -> bool
    decreases a.len(),
{
    if a.len() == 0 {
        b.len() > 0
    } else if b.len() == 0 {
        false
    } else if a[0] != b[0] {
        (a[0] as u32) < (b[0] as u32)
    } else {
        name_lt(a.drop_first(), b.drop_first())
    }
}

/// Whether branch `x` is listed before branch `y`: the current branch
/// first, then by name.
pub open spec fn branch_before(x: (Seq<char>, bool), y: (Seq<char>, bool)) -> bool {
    (x.1 && !y.1) || (x.1 == y.1 && name_lt(x.0, y.0))
}

/// No branch of `s` comes after one that it follows.
pub open spec fn branches_sorted(s: Seq<(Seq<char>, bool)>) -> bool {
    forall|i: int, j: int| 0 <= i < j < s.len() ==> !branch_before(#[trigger] s[j], #[trigger] s[i])
}

pub open spec fn branches_view(v: Seq<BranchInfo>) -> Seq<(Seq<char>, bool)> {
    v.map_values(|b: BranchInfo| b@)
}

/// `name_lt` is transitive.
pub proof fn lemma_name_lt_transitive(a: Seq<char>, b: Seq<char>, c: Seq<char>)
    requires
        name_lt(a, b),
        name_lt(b, c),
    ensures
        name_lt(a, c),
    decreases a.len(),
{
    if a.len() > 0 && b.len() > 0 && c.len() > 0 && a[0] == b[0] && b[0] == c[0] {
        lemma_name_lt_transitive(a.drop_first(), b.drop_first(), c.drop_first());
    }
}

/// `name_lt` is irreflexive.
pub proof fn lemma_name_lt_irreflexive(a: Seq<char>)
    ensures
        !name_lt(a, a),
    decreases a.len(),
{
    if a.len() > 0 {
        lemma_name_lt_irreflexive(a.drop_first());
    }
}

/// `branch_before` is transitive.
pub proof fn lemma_branch_before_transitive(x: (Seq<char>, bool), y: (Seq<char>, bool), z: (Seq<char>, bool))
    requires
        branch_before(x, y),
        branch_before(y, z),
    ensures
        branch_before(x, z),
{
    if x.1 == y.1 && y.1 == z.1 {
        lemma_name_lt_transitive(x.0, y.0, z.0);
    }
}

/// `name_lt(a, b)`, computed.
fn name_less(a: &str, b: &str) -> (r: bool)
    ensures
        r == name_lt(a@, b@),
{
    let x = chars_of(a);
    let y = chars_of(b);
    let mut i: usize = 0;
    assert(x@.skip(0) =~= x@);
    assert(y@.skip(0) =~= y@);
    while i < x.len() && i < y.len() && x[i] == y[i]
        invariant
            i <= x@.len(),
            i <= y@.len(),
            x@.take(i as int) == y@.take(i as int),
            name_lt(x@, y@) == name_lt(x@.skip(i as int), y@.skip(i as int)),
        decreases x@.len() - i,
    {
        assert(x@.skip(i as int).drop_first() =~= x@.skip(i + 1));
        assert(y@.skip(i as int).drop_first() =~= y@.skip(i + 1));
        assert(x@.take(i + 1) =~= x@.take(i as int).push(x@[i as int]));
        assert(y@.take(i + 1) =~= y@.take(i as int).push(y@[i as int]));
        i += 1;
    }
    if i == x.len() {
        i < y.len()
    } else if i == y.len() {
        false
    } else {
        assert(x@.skip(i as int)[0] == x@[i as int]);
        assert(y@.skip(i as int)[0] == y@[i as int]);
        (x[i] as u32) < (y[i] as u32)
    }
}

fn before(x: &BranchInfo, y: &BranchInfo) -> (r: bool)
    ensures
        r == branch_before(x@, y@),
{
    (x.is_current && !y.is_current) || (x.is_current == y.is_current && name_less(x.name.as_str(), y.name.as_str()))
}

/// The branches in the order the picker lists them: the current branch
/// first, then by name. The result holds the same branches.
pub fn sort_branches(branches: Vec<BranchInfo>) -> (r: Vec<BranchInfo>)
    ensures
        branches_sorted(branches_view(r@)),
        branches_view(r@).to_multiset() == branches_view(branches@).to_multiset(),
{
    broadcast use vstd::seq_lib::group_to_multiset_ensures;
    let mut out: Vec<BranchInfo> = Vec::new();
    let mut i: usize = 0;
    let n = branches.len();
    let ghost input = branches_view(branches@);
    while i < n
        invariant
            n == branches@.len(),
            input == branches_view(branches@),
            i <= n,
            branches_sorted(branches_view(out@)),
            branches_view(out@).to_multiset() == input.take(i as int).to_multiset(),
        decreases n - i,
    {
        let b = &branches[i];
        let mut pos: usize = 0;
        while pos < out.len() && !before(b, &out[pos])
            invariant
                pos <= out@.len(),
                forall|j: int| 0 <= j < pos ==> !branch_before(b@, #[trigger] out@[j]@),
            decreases out@.len() - pos,
        {
            pos += 1;
        }
        let ghost old_out = branches_view(out@);
        let x = BranchInfo { name: b.name.clone(), is_current: b.is_current };
        assert(x@ == b@);
        out.insert(pos, x);
        let ghost new_out = branches_view(out@);
        proof {
            assert(new_out =~= old_out.insert(pos as int, b@));
            assert forall|p: int, q: int| 0 <= p < q < new_out.len() implies !branch_before(
                #[trigger] new_out[q],
                #[trigger] new_out[p],
            ) by {
                if p < pos && q < pos {
                    assert(new_out[p] == old_out[p] && new_out[q] == old_out[q]);
                } else if p < pos && q == pos {
                    assert(new_out[p] == out@[p]@);
                } else if p < pos {
                    assert(new_out[p] == old_out[p] && new_out[q] == old_out[q - 1]);
                } else if p == pos {
                    assert(new_out[q] == old_out[q - 1]);
                    assert(pos < old_out.len());
                    assert(branch_before(b@, old_out[pos as int]));
                    if branch_before(old_out[q - 1], b@) {
                        lemma_branch_before_transitive(old_out[q - 1], b@, old_out[pos as int]);
                        if q - 1 == pos {
                            lemma_name_lt_irreflexive(old_out[pos as int].0);
                        }
                    }
                } else {
                    assert(new_out[p] == old_out[p - 1] && new_out[q] == old_out[q - 1]);
                }
            }
            assert(new_out.remove(pos as int) =~= old_out);
            assert(new_out[pos as int] == b@);
            assert(input.take(i + 1) =~= input.take(i as int).push(b@));
            let m = new_out.to_multiset();
            new_out.to_multiset_ensures();
            input.take(i as int).to_multiset_ensures();
            assert(new_out.remove(pos as int).to_multiset() =~= m.remove(new_out[pos as int]));
            assert(new_out.contains(b@));
            assert(m.count(b@) > 0);
            assert(m =~= old_out.to_multiset().insert(b@));
            assert(input.take(i + 1).to_multiset() =~= input.take(i as int).to_multiset().insert(b@));
        }
        i += 1;
    }
    assert(input.take(n as int) =~= input);
    out
}

} // verus!
