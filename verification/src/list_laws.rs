//! What the lists, filters and actions of the library are for, stated over
//! their inputs and results.

use vstd::prelude::*;

use crate::backend::git::{
    StatusEntry, is_untracked, listed, staged_kind, staged_list, unstaged_list, untracked_list, worktree_kind,
};
use crate::backend::{CommitInfo, FileKindView};
use crate::app::{
    CursorActionView, EditorIntent, FixupMode, ItemView, Section, begin_section, diff_items, entry_paths, file_items,
    lemma_matching_indices, spec_discard_action, spec_log_filtered, spec_section_entries, spec_stage_action,
    spec_status_items, spec_unstage_action, with_files,
};
use crate::backend::RepoStatus;
use crate::backend::jj::entries_view;
use crate::keybindings::{Action, Key, KeyCode, chord_action};
use crate::session::{Command, Route, key_post, key_route};
use crate::app::App;
use crate::text::{contains_seq, lowercase};

verus! {

// ---------------------------------------------------------------------------
// The repository's status lists
// ---------------------------------------------------------------------------

proof fn lemma_staged_members(es: Seq<StatusEntry>)
    ensures
        forall|i: int|
            0 <= i < es.len() && #[trigger] staged_kind(es[i]) is Some ==> staged_list(es).contains(
                (es[i].path@, staged_kind(es[i])->0),
            ),
        forall|j: int|
            #![trigger staged_list(es)[j]]
            0 <= j < staged_list(es).len() ==> exists|i: int|
                0 <= i < es.len() && es[i].path@ == (#[trigger] staged_list(es)[j]).0 && staged_kind(es[i])
                    == Some(staged_list(es)[j].1),
    decreases es.len(),
{
    if es.len() > 0 {
        let p = es.drop_last();
        lemma_staged_members(p);
        let last = es.last();
        let tail = listed(last.path@, staged_kind(last));
        assert(staged_list(es) == staged_list(p) + tail);
        assert forall|i: int|
            0 <= i < es.len() && #[trigger] staged_kind(es[i]) is Some implies staged_list(es).contains(
                (es[i].path@, staged_kind(es[i])->0),
            ) by {
            if i < p.len() {
                assert(p[i] == es[i]);
                let w = choose|w: int| 0 <= w < staged_list(p).len() && staged_list(p)[w] == (p[i].path@, staged_kind(p[i])->0);
                assert(staged_list(es)[w] == staged_list(p)[w]);
            } else {
                assert(staged_list(es)[staged_list(p).len() as int] == tail[0]);
            }
        }
        assert forall|j: int|
        #![trigger staged_list(es)[j]]
        0 <= j < staged_list(es).len() implies exists|i: int|
            0 <= i < es.len() && es[i].path@ == (#[trigger] staged_list(es)[j]).0 && staged_kind(es[i]) == Some(
                staged_list(es)[j].1,
            ) by {
            if j < staged_list(p).len() {
                assert(staged_list(es)[j] == staged_list(p)[j]);
                let i = choose|i: int|
                    0 <= i < p.len() && p[i].path@ == (#[trigger] staged_list(p)[j]).0 && staged_kind(p[i]) == Some(
                        staged_list(p)[j].1,
                    );
                assert(p[i] == es[i]);
            } else {
                assert(staged_list(es)[j] == tail[j - staged_list(p).len()]);
                assert(es[es.len() - 1] == last);
            }
        }
    }
}

/// Some entry of `es` for `path` has a change in the index.
pub open spec fn index_changed(es: Seq<StatusEntry>, path: Seq<char>) -> bool {
    exists|i: int|
        #![trigger es[i]]
        0 <= i < es.len() && es[i].path@ == path && (es[i].flags.index_new || es[i].flags.index_modified
            || es[i].flags.index_deleted || es[i].flags.index_renamed)
}

/// What `git status` shows as staged is listed as staged: a path added to
/// the index is listed as `Added`, one modified in the index (and not new)
/// as `Modified`, one deleted from the index (and neither new nor modified)
/// as `Deleted`; and nothing is listed as staged but a path with a change
/// in the index.
pub proof fn law_staged_list_holds_the_index_changes(es: Seq<StatusEntry>)
    ensures
        forall|i: int|
            0 <= i < es.len() && (#[trigger] es[i]).flags.index_new ==> staged_list(es).contains(
                (es[i].path@, FileKindView::Added),
            ),
        forall|i: int|
            0 <= i < es.len() && !(#[trigger] es[i]).flags.index_new && es[i].flags.index_modified
                ==> staged_list(es).contains((es[i].path@, FileKindView::Modified)),
        forall|i: int|
            0 <= i < es.len() && !(#[trigger] es[i]).flags.index_new && !es[i].flags.index_modified
                && es[i].flags.index_deleted ==> staged_list(es).contains((es[i].path@, FileKindView::Deleted)),
        forall|j: int| 0 <= j < staged_list(es).len() ==> index_changed(es, (#[trigger] staged_list(es)[j]).0),
{
    lemma_staged_members(es);
    assert forall|i: int| 0 <= i < es.len() && (#[trigger] es[i]).flags.index_new implies staged_list(es).contains(
        (es[i].path@, FileKindView::Added),
    ) by {
        assert(staged_kind(es[i]) is Some);
    }
    assert forall|i: int|
        0 <= i < es.len() && !(#[trigger] es[i]).flags.index_new && es[i].flags.index_modified implies staged_list(
        es,
    ).contains((es[i].path@, FileKindView::Modified)) by {
        assert(staged_kind(es[i]) is Some);
    }
    assert forall|i: int|
        0 <= i < es.len() && !(#[trigger] es[i]).flags.index_new && !es[i].flags.index_modified
            && es[i].flags.index_deleted implies staged_list(es).contains((es[i].path@, FileKindView::Deleted)) by {
        assert(staged_kind(es[i]) is Some);
    }
    assert forall|j: int| 0 <= j < staged_list(es).len() implies index_changed(es, (#[trigger] staged_list(es)[j]).0) by {
        let i = choose|i: int|
            0 <= i < es.len() && es[i].path@ == (#[trigger] staged_list(es)[j]).0 && staged_kind(es[i]) == Some(
                staged_list(es)[j].1,
            );
        assert(staged_kind(es[i]) is Some);
        assert(es[i].path@ == staged_list(es)[j].0);
    }
}

/// The conflict entry of `e`, if it has one.
spec fn conflict_kind(e: StatusEntry) -> Option<FileKindView> {
    if e.flags.conflicted {
        Some(FileKindView::Conflicted)
    } else {
        None
    }
}

proof fn lemma_unstaged_members(es: Seq<StatusEntry>)
    ensures
        forall|i: int|
            0 <= i < es.len() && #[trigger] worktree_kind(es[i]) is Some ==> unstaged_list(es).contains(
                (es[i].path@, worktree_kind(es[i])->0),
            ),
        forall|i: int|
            0 <= i < es.len() && (#[trigger] es[i]).flags.conflicted ==> unstaged_list(es).contains(
                (es[i].path@, FileKindView::Conflicted),
            ),
        forall|j: int| 0 <= j < unstaged_list(es).len() ==> worktree_changed(es, (#[trigger] unstaged_list(es)[j]).0),
    decreases es.len(),
{
    if es.len() > 0 {
        let p = es.drop_last();
        lemma_unstaged_members(p);
        let last = es.last();
        let t1 = listed(last.path@, worktree_kind(last));
        let t2 = listed(last.path@, conflict_kind(last));
        let u = unstaged_list(p);
        assert(unstaged_list(es) == u + t1 + t2);
        assert forall|i: int|
            0 <= i < es.len() && #[trigger] worktree_kind(es[i]) is Some implies unstaged_list(es).contains(
                (es[i].path@, worktree_kind(es[i])->0),
            ) by {
            if i < p.len() {
                assert(p[i] == es[i]);
                let w = choose|w: int| 0 <= w < u.len() && u[w] == (p[i].path@, worktree_kind(p[i])->0);
                assert(unstaged_list(es)[w] == u[w]);
            } else {
                assert(unstaged_list(es)[u.len() as int] == t1[0]);
            }
        }
        assert forall|i: int|
            0 <= i < es.len() && (#[trigger] es[i]).flags.conflicted implies unstaged_list(es).contains(
                (es[i].path@, FileKindView::Conflicted),
            ) by {
            if i < p.len() {
                assert(p[i] == es[i]);
                let w = choose|w: int| 0 <= w < u.len() && u[w] == (p[i].path@, FileKindView::Conflicted);
                assert(unstaged_list(es)[w] == u[w]);
            } else {
                assert(unstaged_list(es)[(u.len() + t1.len()) as int] == t2[0]);
            }
        }
        assert forall|j: int| 0 <= j < unstaged_list(es).len() implies worktree_changed(
            es,
            (#[trigger] unstaged_list(es)[j]).0,
        ) by {
            if j < u.len() {
                assert(unstaged_list(es)[j] == u[j]);
                assert(worktree_changed(p, u[j].0));
                let i = choose|i: int|
                    #![trigger p[i]]
                    0 <= i < p.len() && p[i].path@ == u[j].0 && (p[i].flags.wt_modified || p[i].flags.wt_deleted
                        || p[i].flags.wt_renamed || p[i].flags.conflicted);
                assert(p[i] == es[i]);
            } else {
                let k = es.len() - 1;
                assert(es[k] == last);
                if j < u.len() + t1.len() {
                    assert(unstaged_list(es)[j] == t1[j - u.len()]);
                } else {
                    assert(unstaged_list(es)[j] == t2[j - u.len() - t1.len()]);
                }
            }
        }
    }
}

/// Some entry of `es` for `path` has a change in the worktree or a conflict.
pub open spec fn worktree_changed(es: Seq<StatusEntry>, path: Seq<char>) -> bool {
    exists|i: int|
        #![trigger es[i]]
        0 <= i < es.len() && es[i].path@ == path && (es[i].flags.wt_modified || es[i].flags.wt_deleted
            || es[i].flags.wt_renamed || es[i].flags.conflicted)
}

/// What `git status` shows as changed in the worktree is listed as
/// unstaged: a path modified in the worktree as `Modified`, one deleted
/// from it (and not modified) as `Deleted`, a path with a conflict as
/// `Conflicted`; and nothing else is listed as unstaged.
pub proof fn law_unstaged_list_holds_the_worktree_changes(es: Seq<StatusEntry>)
    ensures
        forall|i: int|
            0 <= i < es.len() && (#[trigger] es[i]).flags.wt_modified ==> unstaged_list(es).contains(
                (es[i].path@, FileKindView::Modified),
            ),
        forall|i: int|
            0 <= i < es.len() && !(#[trigger] es[i]).flags.wt_modified && es[i].flags.wt_deleted
                ==> unstaged_list(es).contains((es[i].path@, FileKindView::Deleted)),
        forall|i: int|
            0 <= i < es.len() && (#[trigger] es[i]).flags.conflicted ==> unstaged_list(es).contains(
                (es[i].path@, FileKindView::Conflicted),
            ),
        forall|j: int| 0 <= j < unstaged_list(es).len() ==> worktree_changed(es, (#[trigger] unstaged_list(es)[j]).0),
{
    lemma_unstaged_members(es);
    assert forall|i: int| 0 <= i < es.len() && (#[trigger] es[i]).flags.wt_modified implies unstaged_list(es).contains(
        (es[i].path@, FileKindView::Modified),
    ) by {
        assert(worktree_kind(es[i]) is Some);
    }
    assert forall|i: int|
        0 <= i < es.len() && !(#[trigger] es[i]).flags.wt_modified && es[i].flags.wt_deleted implies unstaged_list(
        es,
    ).contains((es[i].path@, FileKindView::Deleted)) by {
        assert(worktree_kind(es[i]) is Some);
    }
}

/// Some entry of `es` for `path` is new in the worktree.
pub open spec fn new_in_worktree(es: Seq<StatusEntry>, path: Seq<char>) -> bool {
    exists|i: int| #![trigger es[i]] 0 <= i < es.len() && es[i].path@ == path && es[i].flags.wt_new
}

proof fn lemma_untracked_members(es: Seq<StatusEntry>)
    ensures
        forall|i: int|
            0 <= i < es.len() && #[trigger] is_untracked(es[i]) ==> untracked_list(es).contains(
                (es[i].path@, FileKindView::Untracked),
            ),
        forall|j: int| 0 <= j < untracked_list(es).len() ==> new_in_worktree(es, (#[trigger] untracked_list(es)[j]).0),
    decreases es.len(),
{
    if es.len() > 0 {
        let p = es.drop_last();
        lemma_untracked_members(p);
        let last = es.last();
        let u = untracked_list(p);
        let t = listed(last.path@, if is_untracked(last) { Some(FileKindView::Untracked) } else { None });
        assert(untracked_list(es) == u + t);
        assert forall|i: int|
            0 <= i < es.len() && #[trigger] is_untracked(es[i]) implies untracked_list(es).contains(
                (es[i].path@, FileKindView::Untracked),
            ) by {
            if i < p.len() {
                assert(p[i] == es[i]);
                let w = choose|w: int| 0 <= w < u.len() && u[w] == (p[i].path@, FileKindView::Untracked);
                assert(untracked_list(es)[w] == u[w]);
            } else {
                assert(untracked_list(es)[u.len() as int] == t[0]);
            }
        }
        assert forall|j: int| 0 <= j < untracked_list(es).len() implies new_in_worktree(
            es,
            (#[trigger] untracked_list(es)[j]).0,
        ) by {
            if j < u.len() {
                assert(untracked_list(es)[j] == u[j]);
                assert(new_in_worktree(p, u[j].0));
                let i = choose|i: int| #![trigger p[i]] 0 <= i < p.len() && p[i].path@ == u[j].0 && p[i].flags.wt_new;
                assert(p[i] == es[i]);
            } else {
                let k = es.len() - 1;
                assert(es[k] == last);
                assert(untracked_list(es)[j] == t[j - u.len()]);
            }
        }
    }
}

/// A path new in the worktree with no other worktree change is listed as
/// untracked, and nothing but a path new in the worktree is.
pub proof fn law_untracked_list_holds_the_new_files(es: Seq<StatusEntry>)
    ensures
        forall|i: int|
            0 <= i < es.len() && (#[trigger] es[i]).flags.wt_new && !es[i].flags.wt_modified && !es[i].flags.wt_deleted
                && !es[i].flags.wt_renamed ==> untracked_list(es).contains((es[i].path@, FileKindView::Untracked)),
        forall|j: int| 0 <= j < untracked_list(es).len() ==> new_in_worktree(es, (#[trigger] untracked_list(es)[j]).0),
{
    lemma_untracked_members(es);
    assert forall|i: int|
        0 <= i < es.len() && (#[trigger] es[i]).flags.wt_new && !es[i].flags.wt_modified && !es[i].flags.wt_deleted
            && !es[i].flags.wt_renamed implies untracked_list(es).contains((es[i].path@, FileKindView::Untracked)) by {
        assert(is_untracked(es[i]));
    }
}

// ---------------------------------------------------------------------------
// The log filter
// ---------------------------------------------------------------------------

/// Whether commit `c` mentions the query `q` in its hash, summary or
/// author, ignoring case.
pub open spec fn mentions(c: CommitInfo, q: Seq<char>) -> bool {
    ||| contains_seq(lowercase(c.short_hash@), lowercase(q))
    ||| contains_seq(lowercase(c.summary@), lowercase(q))
    ||| contains_seq(lowercase(c.author@), lowercase(q))
}

/// Whether the log filter `filter` lets commit `c` through: any commit when
/// there is no query or an empty one, else one that mentions it.
pub open spec fn let_through(c: CommitInfo, filter: Option<Seq<char>>) -> bool {
    match filter {
        Some(q) => q.len() == 0 || mentions(c, q),
        None => true,
    }
}

/// The log filter lists exactly the commits that mention a non-empty query
/// in their hash, summary or author, ignoring case; with no query, or an
/// empty one, it lists every commit.
pub proof fn law_log_filter_lists_the_commits_that_mention_it(log: Seq<CommitInfo>, filter: Option<Seq<char>>)
    requires
        log.len() <= usize::MAX,
    ensures
        forall|i: int|
            0 <= i < spec_log_filtered(log, filter).len() ==> #[trigger] spec_log_filtered(log, filter)[i] < log.len(),
        forall|k: int|
            0 <= k < log.len() ==> (spec_log_filtered(log, filter).contains(k as usize) <==> #[trigger] let_through(
                log[k],
                filter,
            )),
{
    match filter {
        Some(q) if q.len() > 0 => {
            let query = lowercase(q);
            lemma_matching_indices(log, query);
            let m = spec_log_filtered(log, filter);
            assert forall|k: int|
                0 <= k < log.len() implies (m.contains(k as usize) <==> #[trigger] let_through(log[k], filter)) by {
                if m.contains(k as usize) {
                    let w = choose|w: int| 0 <= w < m.len() && m[w] == k as usize;
                    assert(m[w] < log.len());
                    assert(m[w] as int == k);
                }
                if mentions(log[k], q) {
                    assert(crate::app::commit_matches(log[k]@, query));
                }
            }
        },
        _ => {
            let m = spec_log_filtered(log, filter);
            assert forall|k: int| 0 <= k < log.len() implies (m.contains(k as usize) <==> #[trigger] let_through(
                log[k],
                filter,
            )) by {
                assert(m[k] == k as usize);
            }
        },
    }
}

// ---------------------------------------------------------------------------
// What stage, unstage and discard act on
// ---------------------------------------------------------------------------

/// The paths an action changes in the repository.
pub open spec fn touched(a: CursorActionView, status: RepoStatus) -> Set<Seq<char>> {
    match a {
        CursorActionView::Nothing | CursorActionView::Message(_) => Set::empty(),
        CursorActionView::StageFile(p) | CursorActionView::UnstageFile(p) | CursorActionView::DeleteUntracked(p)
        | CursorActionView::DiscardStagedFile(p) | CursorActionView::DiscardFile(p) => set![p],
        CursorActionView::StageSection { paths, .. } | CursorActionView::DeleteAllUntracked(paths) => paths.to_set(),
        CursorActionView::UnstageAll | CursorActionView::DiscardAllStaged => entry_paths(status.staged@).to_set(),
        CursorActionView::DiscardAllUnstaged => entry_paths(status.unstaged@).to_set(),
        CursorActionView::Hunk { file_path, .. } | CursorActionView::Line { file_path, .. }
        | CursorActionView::DiscardHunk { file_path, .. } => set![file_path],
    }
}

/// Whether an action throws changes away (from the worktree or the index).
pub open spec fn discards(a: CursorActionView) -> bool {
    ||| a is DeleteUntracked
    ||| a is DeleteAllUntracked
    ||| a is DiscardStagedFile
    ||| a is DiscardFile
    ||| a is DiscardAllStaged
    ||| a is DiscardAllUnstaged
    ||| a is DiscardHunk
}

/// On a file, staging, unstaging and discarding act on that file and on
/// no other path: unstaging a staged file unstages it alone (a file in
/// another section has nothing to unstage), staging a file that is not
/// staged stages it alone (a staged one is already staged), and
/// discarding acts on the file alone. Staging and unstaging never throw a
/// change away.
pub proof fn law_file_actions_touch_only_that_file(item: ItemView, status: RepoStatus)
    requires
        item is File,
    ensures
        ({
            let p = item->File_entry.0;
            let s = item->File_section;
            &&& touched(spec_unstage_action(item), status) == (if s == Section::Staged {
                set![p]
            } else {
                Set::empty()
            })
            &&& s == Section::Staged ==> spec_unstage_action(item) is UnstageFile
            &&& touched(spec_stage_action(item, status), status) == (if s == Section::Staged {
                Set::empty()
            } else {
                set![p]
            })
            &&& s != Section::Staged ==> spec_stage_action(item, status) is StageFile
            &&& touched(spec_discard_action(item, status), status) == set![p]
            &&& discards(spec_discard_action(item, status))
        }),
        !discards(spec_unstage_action(item)),
        !discards(spec_stage_action(item, status)),
{
}

/// Whatever is under the cursor, staging and unstaging never throw a change
/// away.
pub proof fn law_staging_never_discards(item: ItemView, status: RepoStatus)
    ensures
        !discards(spec_unstage_action(item)),
        !discards(spec_stage_action(item, status)),
{
}

// ---------------------------------------------------------------------------
// Chords
// ---------------------------------------------------------------------------

/// No two chords ask for the same action.
pub proof fn law_chords_are_distinct(p1: char, s1: char, p2: char, s2: char)
    requires
        chord_action(p1, s1) != Action::NoOp,
        chord_action(p1, s1) == chord_action(p2, s2),
    ensures
        p1 == p2 && s1 == s2,
{
}

/// In the key map with `c` pending, `c` asks for the editor of a new
/// commit, `a` for the editor amending HEAD, and `F`, `s`, `w` for the
/// commit picker to fix up, squash into or reword a commit.
pub proof fn law_commit_chords(o: App, n: App, second: char, r: Command)
    requires
        key_route(o, Key { code: KeyCode::Char(second), ctrl: false, alt: false, shift: false }) == Route::KeyMap,
        o.pending_key == Some('c'),
        key_post(o, n, Key { code: KeyCode::Char(second), ctrl: false, alt: false, shift: false }, r),
    ensures
        second == 'c' ==> r == Command::CommitEditor(EditorIntent::Commit),
        second == 'a' ==> r == Command::CommitEditor(EditorIntent::Amend),
        second == 'F' ==> r == Command::PickCommit(FixupMode::Fixup),
        second == 's' ==> r == Command::PickCommit(FixupMode::Squash),
        second == 'w' ==> r == Command::PickCommit(FixupMode::Reword),
{
}

// ---------------------------------------------------------------------------
// The files of each section
// ---------------------------------------------------------------------------

/// The entries of the file items of section `s` in `items`, in order.
pub open spec fn files_in(items: Seq<ItemView>, s: Section) -> Seq<(Seq<char>, FileKindView)>
    decreases items.len(),
{
    if items.len() == 0 {
        seq![]
    } else {
        let prev = files_in(items.drop_last(), s);
        match items.last() {
            ItemView::File { entry, section, .. } => if section == s {
                prev.push(entry)
            } else {
                prev
            },
            _ => prev,
        }
    }
}

proof fn lemma_files_in_append(a: Seq<ItemView>, b: Seq<ItemView>, s: Section)
    ensures
        files_in(a + b, s) == files_in(a, s) + files_in(b, s),
    decreases b.len(),
{
    if b.len() == 0 {
        assert(a + b =~= a);
        assert(files_in(a, s) + files_in(b, s) =~= files_in(a, s));
    } else {
        lemma_files_in_append(a, b.drop_last(), s);
        assert((a + b).drop_last() =~= a + b.drop_last());
        assert((a + b).last() == b.last());
    }
}

proof fn lemma_files_in_push(a: Seq<ItemView>, x: ItemView, s: Section)
    ensures
        files_in(a.push(x), s) == (match x {
            ItemView::File { entry, section, .. } => if section == s {
                files_in(a, s).push(entry)
            } else {
                files_in(a, s)
            },
            _ => files_in(a, s),
        }),
{
    assert(a.push(x).drop_last() =~= a);
    assert(a.push(x).last() == x);
}

/// Items with no file item among them.
pub open spec fn no_files(items: Seq<ItemView>) -> bool {
    forall|i: int| 0 <= i < items.len() ==> !(#[trigger] items[i] is File)
}

proof fn lemma_no_files(items: Seq<ItemView>, s: Section)
    requires
        no_files(items),
    ensures
        files_in(items, s) == Seq::<(Seq<char>, FileKindView)>::empty(),
    decreases items.len(),
{
    if items.len() > 0 {
        let p = items.drop_last();
        assert(no_files(p)) by {
            assert forall|i: int| 0 <= i < p.len() implies !(#[trigger] p[i] is File) by {
                assert(p[i] == items[i]);
            }
        }
        lemma_no_files(p, s);
        assert(!(items[items.len() - 1] is File));
    }
}

proof fn lemma_diff_items_no_files(ls: Seq<Seq<char>>, file_path: Seq<char>, section: Section)
    ensures
        no_files(diff_items(ls, file_path, section)),
    decreases ls.len(),
{
    if ls.len() > 0 {
        lemma_diff_items_no_files(ls.drop_last(), file_path, section);
        let prev = diff_items(ls.drop_last(), file_path, section);
        let d = diff_items(ls, file_path, section);
        assert forall|i: int| 0 <= i < d.len() implies !(#[trigger] d[i] is File) by {
            if i < prev.len() {
                assert(d[i] == prev[i]);
            }
        }
    }
}

proof fn lemma_file_items_files(
    es: Seq<crate::backend::FileEntry>,
    section: Section,
    expanded: Set<(Section, Seq<char>)>,
    cache: Map<(Section, Seq<char>), Seq<char>>,
    s: Section,
)
    ensures
        files_in(file_items(es, section, expanded, cache), s) == (if section == s {
            entries_view(es)
        } else {
            Seq::empty()
        }),
    decreases es.len(),
{
    if es.len() > 0 {
        let e = es.last();
        let key = (section, e.path@);
        let is_expanded = expanded.contains(key);
        let diff = if is_expanded && cache.contains_key(key) {
            diff_items(crate::text::lines_of(cache[key]), e.path@, section)
        } else {
            seq![]
        };
        let prev = file_items(es.drop_last(), section, expanded, cache);
        let file = seq![ItemView::File { entry: e@, section, is_expanded }];
        lemma_file_items_files(es.drop_last(), section, expanded, cache, s);
        lemma_diff_items_no_files(crate::text::lines_of(cache[key]), e.path@, section);
        lemma_no_files(diff, s);
        lemma_files_in_append(prev + file, diff, s);
        lemma_files_in_append(prev, file, s);
        assert(file.drop_last() =~= Seq::<ItemView>::empty());
        assert(file_items(es, section, expanded, cache) == prev + file + diff);
        assert(entries_view(es) =~= entries_view(es.drop_last()).push(e@));
        lemma_files_in_push(Seq::<ItemView>::empty(), ItemView::File { entry: e@, section, is_expanded }, s);
        assert(Seq::<ItemView>::empty().push(ItemView::File { entry: e@, section, is_expanded }) =~= file);
        assert(files_in(Seq::<ItemView>::empty(), s) =~= Seq::<(Seq<char>, FileKindView)>::empty());
    }
}

proof fn lemma_group_files(a: Seq<ItemView>, h: ItemView, body: Seq<ItemView>, s: Section)
    requires
        !(h is File),
    ensures
        files_in(begin_section(a).push(h) + body, s) == files_in(a, s) + files_in(body, s),
{
    let b = begin_section(a);
    lemma_files_in_append(b.push(h), body, s);
    lemma_files_in_push(b, h, s);
    if a.len() > 1 {
        lemma_files_in_push(a, ItemView::Spacer, s);
    }
}

/// Every section of the status buffer lists every one of its files, once,
/// in order: the file items of a section are that section's entries.
pub proof fn law_each_section_lists_its_files(
    status: RepoStatus,
    stashes: Seq<crate::backend::StashInfo>,
    recent: Seq<crate::backend::CommitInfo>,
    expanded: Set<(Section, Seq<char>)>,
    cache: Map<(Section, Seq<char>), Seq<char>>,
    s: Section,
)
    ensures
        files_in(spec_status_items(status, stashes, recent, expanded, cache), s) == entries_view(
            spec_section_entries(status, s),
        ),
{
    let a0 = seq![ItemView::Spacer];
    assert(files_in(a0, s) =~= Seq::<(Seq<char>, FileKindView)>::empty()) by {
        lemma_files_in_push(Seq::<ItemView>::empty(), ItemView::Spacer, s);
        assert(Seq::<ItemView>::empty().push(ItemView::Spacer) =~= a0);
        assert(files_in(Seq::<ItemView>::empty(), s) =~= Seq::<(Seq<char>, FileKindView)>::empty());
    }
    let a1 = with_files(a0, status, Section::Untracked, expanded, cache);
    let a2 = with_files(a1, status, Section::Unstaged, expanded, cache);
    let a3 = with_files(a2, status, Section::Staged, expanded, cache);
    assert forall|x: Seq<ItemView>, sec: Section|
        #![trigger with_files(x, status, sec, expanded, cache)]
        files_in(with_files(x, status, sec, expanded, cache), s) == files_in(x, s) + (if sec == s {
            entries_view(spec_section_entries(status, sec))
        } else {
            Seq::empty()
        }) by {
        let es = spec_section_entries(status, sec);
        if es.len() > 0 {
            lemma_file_items_files(es, sec, expanded, cache, s);
            lemma_group_files(
                x,
                ItemView::Header { label: sec.spec_label(), count: es.len() as usize, section: sec },
                file_items(es, sec, expanded, cache),
                s,
            );
        } else {
            assert(entries_view(es) =~= Seq::<(Seq<char>, FileKindView)>::empty());
            assert(files_in(x, s) + Seq::<(Seq<char>, FileKindView)>::empty() =~= files_in(x, s));
        }
    }
    let f3 = files_in(a3, s);
    assert(f3 =~= entries_view(spec_section_entries(status, s))) by {
        assert(files_in(a1, s) == files_in(a0, s) + (if Section::Untracked == s {
            entries_view(spec_section_entries(status, Section::Untracked))
        } else {
            Seq::empty()
        }));
        assert(files_in(a2, s) == files_in(a1, s) + (if Section::Unstaged == s {
            entries_view(spec_section_entries(status, Section::Unstaged))
        } else {
            Seq::empty()
        }));
        assert(files_in(a3, s) == files_in(a2, s) + (if Section::Staged == s {
            entries_view(spec_section_entries(status, Section::Staged))
        } else {
            Seq::empty()
        }));
    }
    let sbody = stashes.map_values(|info: crate::backend::StashInfo| ItemView::StashEntry { info: info@ });
    let a4 = if stashes.len() == 0 {
        a3
    } else {
        begin_section(a3).push(ItemView::StashHeader { count: stashes.len() as usize }) + sbody
    };
    if stashes.len() > 0 {
        lemma_no_files(sbody, s);
        lemma_group_files(a3, ItemView::StashHeader { count: stashes.len() as usize }, sbody, s);
        assert(files_in(a4, s) =~= f3);
    }
    let unpushed = status.unpushed@;
    let uh = ItemView::UnpushedHeader {
        count: if status.unpushed_total >= unpushed.len() {
            status.unpushed_total
        } else {
            unpushed.len() as usize
        },
        upstream: match status.upstream {
            Some(u) => u@,
            None => "upstream"@,
        },
    };
    let ubody = unpushed.map_values(|info: crate::backend::CommitInfo| ItemView::RecentCommit { info: info@ });
    let a5 = if unpushed.len() == 0 {
        a4
    } else {
        begin_section(a4).push(uh) + ubody
    };
    if unpushed.len() > 0 {
        lemma_no_files(ubody, s);
        lemma_group_files(a4, uh, ubody, s);
        assert(files_in(a5, s) =~= files_in(a4, s));
    }
    let rbody = recent.map_values(|info: crate::backend::CommitInfo| ItemView::RecentCommit { info: info@ });
    let items = spec_status_items(status, stashes, recent, expanded, cache);
    assert(items == (if recent.len() == 0 {
        a5
    } else {
        begin_section(a5).push(ItemView::RecentHeader) + rbody
    }));
    if recent.len() > 0 {
        lemma_no_files(rbody, s);
        lemma_group_files(a5, ItemView::RecentHeader, rbody, s);
        assert(files_in(items, s) =~= files_in(a5, s));
    }
}

} // verus!
