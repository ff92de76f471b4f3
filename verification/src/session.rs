//! What each key press does to the application state, and the outside work
//! it asks for. The program reads keys, performs the work a `Command`
//! names (talking to the repository, driving the text area), and reports
//! the outcome back through the `App` methods here.

use vstd::prelude::*;

use crate::app::{
    ActiveBuffer, App, BranchNameInputState, BranchNameMode, BranchPickerMode, BranchPickerState,
    CommitPickerState, CommitPreview, CursorAction, EditorIntent, EditorMode, FileKey, FixupMode, PatchOp,
    StashListState, StatusItem, items_view,
};
use crate::backend::{BranchInfo, CommitInfo, FileEntry, FileKindView, RepoStatus, StashInfo};
use crate::diff::{decimal, decimal_string};
use crate::editor::{
    input_state, ops_effect, redo_state, text_cursor, text_state, text_lines, text_selection, undo_state, undone_or_kept, EditorOp, EditorOutcome,
    EditorState,
};
use crate::keybindings::{Action, Key, KeyCode, key_to_action, spec_key_to_action};
use crate::text::{
    chars_of, line_spans, lines_of, pop_char, push_str_char, span_text, string_of_range, strings_view, trim,
    trim_str,
};

verus! {

// ---------------------------------------------------------------------------
// Outside work
// ---------------------------------------------------------------------------

/// A repository operation whose outcome is reported with `App::finish`.
pub enum RepoOp {
    StashSave,
    StashPop(usize),
    StashApply(usize),
    StashDrop(usize),
    CheckoutBranch(String),
    CreateBranch(String),
    RenameBranch { from: String, to: String },
    DeleteBranch(String),
    Fixup(String),
    Squash(String),
    Commit(String),
    Amend(String),
    Reword { hash: String, message: String },
}

/// Talking to the remote.
#[derive(Debug, Clone, Copy, PartialEq, Eq, Structural)]
pub enum RemoteOp {
    Push,
    PushForce,
    Pull,
}

/// The outside work a key press asks for.
pub enum Command {
    /// Nothing beyond the state change already made.
    Nothing,
    /// Apply the operation to the visual selection when there is one, else
    /// to the item under the cursor.
    Patch(PatchOp),
    StageAll,
    UnstageAll,
    /// Fetch this file's diff, then `App::finish_expand`.
    FetchDiff(FileKey),
    /// Read the log, then `App::show_log`.
    LoadLog,
    /// Read the status again, then `App::refresh`.
    Refresh,
    /// Show this commit, then `App::open_preview` with `title`.
    ShowCommit { hash: String, title: String },
    /// Open the commit editor (`App::open_commit_editor`) once the message
    /// to start from is known: HEAD's message when amending.
    CommitEditor(EditorIntent),
    /// Read the commits to pick from, then `App::open_commit_picker`.
    PickCommit(FixupMode),
    /// Read the local branches, then `App::open_branch_picker`.
    PickBranch(BranchPickerMode),
    /// Read the stashes, then `App::open_stash_list`.
    ListStashes,
    /// Move half a screen, once the screen's height is known (`half_page`).
    Page { down: bool },
    /// Talk to the remote (the busy message is already showing); refresh
    /// whatever came of it, then `App::finish`.
    Remote { op: RemoteOp, done: &'static str, failed: &'static str },
    /// Run `op`; when it worked, refresh; then `App::finish`.
    Repo { op: RepoOp, done: String, failed: &'static str },
    /// Read this commit's message, then `App::open_reword_editor`.
    RewordEditor { hash: String, summary: String },
}

// ---------------------------------------------------------------------------
// Messages
// ---------------------------------------------------------------------------

/// The first line of `s`, or `s` itself when it has none.
pub open spec fn spec_first_line(s: Seq<char>) -> Seq<char> {
    if lines_of(s).len() > 0 {
        lines_of(s)[0]
    } else {
        s
    }
}

/// `spec_first_line`, computed.
pub fn first_line(s: &str) -> (r: String)
    ensures
        r@ == spec_first_line(s@),
{
    let v = chars_of(s);
    let spans = line_spans(&v);
    if spans.len() > 0 {
        let (a, b) = spans[0];
        assert(crate::text::spans_text(v@, spans@)[0] == span_text(v@, spans@[0]));
        string_of_range(&v, a, b)
    } else {
        String::from_str(s)
    }
}

/// An error as the footer shows it: its first line after the prefix.
pub open spec fn error_text(prefix: Seq<char>, err: Seq<char>) -> Seq<char> {
    prefix + ": "@ + spec_first_line(err)
}

/// The text a section-wide staging shows.
pub open spec fn stage_section_text(section: crate::app::Section) -> Seq<char> {
    if section == crate::app::Section::Untracked {
        "Staged all untracked files"@
    } else {
        "Staged all unstaged changes"@
    }
}

impl CursorAction {
    /// What the footer says once the action worked. Hunks and lines say it
    /// themselves (`hunk_message`, `lines_message`); a message is shown as it is.
    pub fn done_message(&self) -> (r: Option<String>)
        ensures
            match *self {
                CursorAction::Nothing => r is None,
                CursorAction::Message(m) => r matches Some(t) && t@ == m@,
                CursorAction::StageFile(p) => r matches Some(t) && t@ == "Staged: "@ + p@,
                CursorAction::UnstageFile(p) => r matches Some(t) && t@ == "Unstaged: "@ + p@,
                CursorAction::StageSection { section, .. } => r matches Some(t) && t@ == stage_section_text(section),
                CursorAction::UnstageAll => r matches Some(t) && t@ == "Unstaged all changes"@,
                CursorAction::Hunk { .. } => r is None,
                CursorAction::Line { .. } => r is None,
                CursorAction::DeleteUntracked(p) => r matches Some(t) && t@ == "Deleted: "@ + p@,
                CursorAction::DeleteAllUntracked(_) => r matches Some(t) && t@ == "Deleted all untracked files"@,
                CursorAction::DiscardStagedFile(p) => r matches Some(t) && t@ == "Discarded: "@ + p@,
                CursorAction::DiscardFile(p) => r matches Some(t) && t@ == "Discarded: "@ + p@,
                CursorAction::DiscardAllStaged => r matches Some(t) && t@ == "Discarded all staged changes"@,
                CursorAction::DiscardAllUnstaged => r matches Some(t) && t@ == "Discarded all unstaged changes"@,
                CursorAction::DiscardHunk { hunk_index, .. } => if hunk_index < usize::MAX {
                    r matches Some(t) && t@ == "Discarded hunk "@ + decimal((hunk_index + 1) as nat)
                } else {
                    r is None
                },
            },
    {
        match self {
            CursorAction::Nothing => None,
            CursorAction::Message(m) => Some(m.clone()),
            CursorAction::StageFile(p) => Some(String::from_str("Staged: ").concat(p.as_str())),
            CursorAction::UnstageFile(p) => Some(String::from_str("Unstaged: ").concat(p.as_str())),
            CursorAction::StageSection { section, .. } => Some(
                if *section == crate::app::Section::Untracked {
                    String::from_str("Staged all untracked files")
                } else {
                    String::from_str("Staged all unstaged changes")
                },
            ),
            CursorAction::UnstageAll => Some(String::from_str("Unstaged all changes")),
            CursorAction::Hunk { .. } => None,
            CursorAction::Line { .. } => None,
            CursorAction::DeleteUntracked(p) => Some(String::from_str("Deleted: ").concat(p.as_str())),
            CursorAction::DeleteAllUntracked(_) => Some(String::from_str("Deleted all untracked files")),
            CursorAction::DiscardStagedFile(p) => Some(String::from_str("Discarded: ").concat(p.as_str())),
            CursorAction::DiscardFile(p) => Some(String::from_str("Discarded: ").concat(p.as_str())),
            CursorAction::DiscardAllStaged => Some(String::from_str("Discarded all staged changes")),
            CursorAction::DiscardAllUnstaged => Some(String::from_str("Discarded all unstaged changes")),
            CursorAction::DiscardHunk { hunk_index, .. } => {
                if *hunk_index < usize::MAX {
                    let n = decimal_string(*hunk_index + 1);
                    Some(String::from_str("Discarded hunk ").concat(n.as_str()))
                } else {
                    None
                }
            },
        }
    }
}

/// What the footer says after one change line was applied: `"{verb} line"`.
pub fn line_message(op: PatchOp) -> (r: String)
    ensures
        r@ == op.spec_verb() + " line"@,
{
    String::from_str(op.verb()).concat(" line")
}

/// Half the screen's height, and at least one line: how far a page key moves.
pub fn half_page(height: u16) -> (r: usize)
    ensures
        r == (if height / 2 >= 1 { height / 2 } else { 1 }),
{
    let h = (height / 2) as usize;
    if h >= 1 { h } else { 1 }
}

/// `j`/`k` movement in a popup list of `len` entries: `j` moves down while
/// there is room, `k` moves up to the top. Returns whether `code` was a
/// movement key.
pub fn step_cursor(cursor: &mut usize, len: usize, code: KeyCode) -> (r: bool)
    ensures
        r == (code == KeyCode::Char('j') || code == KeyCode::Down || code == KeyCode::Char('k') || code
            == KeyCode::Up),
        (code == KeyCode::Char('j') || code == KeyCode::Down) ==> *final(cursor) == (if *old(cursor) + 1 < len {
            *old(cursor) + 1
        } else {
            *old(cursor) as int
        }),
        (code == KeyCode::Char('k') || code == KeyCode::Up) ==> *final(cursor) == (if *old(cursor) > 0 {
            *old(cursor) - 1
        } else {
            0
        }),
        !r ==> *final(cursor) == *old(cursor),
{
    match code {
        KeyCode::Char('j') | KeyCode::Down => {
            if len > 0 && *cursor < len - 1 {
                *cursor = *cursor + 1;
            }
            true
        },
        KeyCode::Char('k') | KeyCode::Up => {
            *cursor = if *cursor > 0 { *cursor - 1 } else { 0 };
            true
        },
        _ => false,
    }
}

impl App {
    /// Show an error in the footer: the prefix, then the error's first line
    /// (the footer has one line; git errors can have many).
    pub fn show_error(&mut self, prefix: &str, err: &str)
        ensures
            final(self).status_msg matches Some(m) && m@ == error_text(prefix@, err@),
            *final(self) == (App { status_msg: final(self).status_msg, ..*old(self) }),
    {
        let line = first_line(err);
        self.status_msg = Some(String::from_str(prefix).concat(": ").concat(line.as_str()));
    }

    /// Report an operation that shows its own message when it works: only a
    /// failure changes the footer.
    pub fn report(&mut self, result: Result<(), String>)
        ensures
            match result {
                Ok(()) => *final(self) == *old(self),
                Err(e) => final(self).status_msg matches Some(m) && m@ == error_text("Error"@, e@)
                    && *final(self) == (App { status_msg: final(self).status_msg, ..*old(self) }),
            },
    {
        if let Err(e) = result {
            self.show_error("Error", e.as_str());
        }
    }

    /// Report an operation that changed the repository (already refreshed
    /// when it worked): `done`, or the error after `failed`.
    pub fn finish(&mut self, result: Result<(), String>, done: &str, failed: &str)
        ensures
            final(self).status_msg matches Some(m) && m@ == (match result {
                Ok(()) => done@,
                Err(e) => error_text(failed@, e@),
            }),
            *final(self) == (App { status_msg: final(self).status_msg, ..*old(self) }),
    {
        match result {
            Ok(()) => self.status_msg = Some(String::from_str(done)),
            Err(e) => self.show_error(failed, e.as_str()),
        }
    }

    /// Report staging every change (the repository already refreshed when
    /// that worked).
    pub fn stage_all(&mut self, result: Result<(), String>)
        ensures
            final(self).status_msg matches Some(m) && m@ == (match result {
                Ok(()) => "Staged all changes"@,
                Err(e) => error_text("Error"@, e@),
            }),
            *final(self) == (App { status_msg: final(self).status_msg, ..*old(self) }),
    {
        self.finish(result, "Staged all changes", "Error");
    }

    /// Report unstaging every change (the repository already refreshed when
    /// that worked).
    pub fn unstage_all(&mut self, result: Result<(), String>)
        ensures
            final(self).status_msg matches Some(m) && m@ == (match result {
                Ok(()) => "Unstaged all changes"@,
                Err(e) => error_text("Error"@, e@),
            }),
            *final(self) == (App { status_msg: final(self).status_msg, ..*old(self) }),
    {
        self.finish(result, "Unstaged all changes", "Error");
    }

    /// Take in a fresh status, recent commits and stashes: rebuild the items
    /// and keep the cursor on one.
    pub fn refresh(&mut self, status: RepoStatus, recent_commits: Vec<CommitInfo>, stashes: Vec<StashInfo>)
        ensures
            final(self).status == status,
            final(self).recent_commits == recent_commits,
            final(self).stashes == stashes,
            items_view(final(self).items@) == final(self).expected_items(),
            final(self).items@.len() == 0 ==> final(self).cursor == 0,
            final(self).items@.len() > 0 ==> final(self).cursor < final(self).items@.len(),
            final(self).cursor > 0 ==> !(final(self).items@[final(self).cursor as int]@ is Spacer),
            *final(self) == (App {
                status: final(self).status,
                recent_commits: final(self).recent_commits,
                stashes: final(self).stashes,
                items: final(self).items,
                cursor: final(self).cursor,
                ..*old(self)
            }),
    {
        self.status = status;
        self.recent_commits = recent_commits;
        self.stashes = stashes;
        self.finish_refresh();
    }

    /// Take in a fresh status only (the commit list did not move).
    pub fn set_status(&mut self, status: RepoStatus)
        ensures
            final(self).status == status,
            *final(self) == (App { status: final(self).status, ..*old(self) }),
    {
        self.status = status;
    }

    /// Focus the editor.
    pub fn open_editor(&mut self, editor: EditorState)
        ensures
            final(self).editor == Some(editor),
            final(self).buffer == ActiveBuffer::Editor,
            *final(self) == (App { editor: final(self).editor, buffer: ActiveBuffer::Editor, ..*old(self) }),
    {
        self.editor = Some(editor);
        self.buffer = ActiveBuffer::Editor;
    }

    /// Show a commit's text in the preview, from the top.
    pub fn open_preview(&mut self, title: String, content: String)
        ensures
            final(self).commit_preview matches Some(p) && p.title == title && p.content == content && p.scroll == 0,
            *final(self) == (App { commit_preview: final(self).commit_preview, ..*old(self) }),
    {
        self.commit_preview = Some(CommitPreview { title, content, scroll: 0 });
    }

    /// Switch to the log buffer showing `log`, unfiltered.
    pub fn show_log(&mut self, log: Vec<CommitInfo>)
        ensures
            final(self).buffer == ActiveBuffer::Log,
            final(self).log == log,
            final(self).log_filter is None,
            final(self).log_filtered@ == crate::app::spec_log_filtered(log@, None),
            final(self).cursor == 0,
            *final(self) == (App {
                buffer: ActiveBuffer::Log,
                log: final(self).log,
                log_filter: None,
                log_filtered: final(self).log_filtered,
                cursor: 0,
                ..*old(self)
            }),
    {
        self.load_log(log);
        self.buffer = ActiveBuffer::Log;
        self.set_log_filter(None);
    }

    /// Open the commit picker over `commits`; with none, say there is
    /// nothing to pick.
    pub fn open_commit_picker(&mut self, mode: FixupMode, commits: Vec<CommitInfo>)
        ensures
            commits@.len() == 0 ==> (final(self).status_msg matches Some(m) && m@ == "No commits to "@
                + picker_verb(mode) && *final(self) == (App { status_msg: final(self).status_msg, ..*old(self) })),
            commits@.len() > 0 ==> (final(self).commit_picker matches Some(p) && p.commits == commits && p.cursor
                == 0 && p.mode == mode && *final(self) == (App {
                commit_picker: final(self).commit_picker,
                ..*old(self)
            })),
    {
        if commits.len() == 0 {
            let what = match mode {
                FixupMode::Fixup => "fixup into",
                FixupMode::Squash => "squash into",
                FixupMode::Reword => "reword",
            };
            self.status_msg = Some(String::from_str("No commits to ").concat(what));
        } else {
            self.commit_picker = Some(CommitPickerState { commits, cursor: 0, mode });
        }
    }

    /// Open the branch picker over `branches`, on the current branch to
    /// check out, or on the first other branch to delete; with none, say so.
    pub fn open_branch_picker(&mut self, mode: BranchPickerMode, branches: Vec<BranchInfo>)
        ensures
            branches@.len() == 0 ==> (final(self).status_msg matches Some(m) && m@ == "No local branches"@
                && *final(self) == (App { status_msg: final(self).status_msg, ..*old(self) })),
            branches@.len() > 0 ==> (final(self).branch_picker matches Some(p) && p.branches == branches && p.mode
                == mode && p.cursor == picker_start(branches@, mode == BranchPickerMode::Checkout)
                && *final(self) == (App { branch_picker: final(self).branch_picker, ..*old(self) })),
    {
        if branches.len() == 0 {
            self.status_msg = Some(String::from_str("No local branches"));
            return;
        }
        let want = mode == BranchPickerMode::Checkout;
        let mut i: usize = 0;
        let n = branches.len();
        while i < n && branches[i].is_current != want
            invariant
                n == branches@.len(),
                i <= n,
                forall|j: int| 0 <= j < i ==> (#[trigger] branches@[j]).is_current != want,
            decreases n - i,
        {
            i += 1;
        }
        proof {
            lemma_first_with(branches@, want, i as int);
        }
        self.branch_picker = Some(BranchPickerState { branches, cursor: if i < n { i } else { 0 }, mode });
    }

    /// Open the stash list; with no stashes, say so.
    pub fn open_stash_list(&mut self, stashes: Vec<StashInfo>)
        ensures
            stashes@.len() == 0 ==> (final(self).status_msg matches Some(m) && m@ == "No stashes"@
                && *final(self) == (App { status_msg: final(self).status_msg, ..*old(self) })),
            stashes@.len() > 0 ==> (final(self).stash_list matches Some(l) && l.stashes == stashes && l.cursor == 0
                && *final(self) == (App { stash_list: final(self).stash_list, ..*old(self) })),
    {
        if stashes.len() == 0 {
            self.status_msg = Some(String::from_str("No stashes"));
        } else {
            self.stash_list = Some(StashListState { stashes, cursor: 0 });
        }
    }
}

/// What the commit picker's empty message says it cannot do.
pub open spec fn picker_verb(mode: FixupMode) -> Seq<char> {
    match mode {
        FixupMode::Fixup => "fixup into"@,
        FixupMode::Squash => "squash into"@,
        FixupMode::Reword => "reword"@,
    }
}

/// Index of the first branch whose `is_current` is `want`; the length when
/// none is.
pub open spec fn first_with(bs: Seq<BranchInfo>, want: bool) -> nat
    decreases bs.len(),
{
    if bs.len() == 0 {
        0
    } else if bs[0].is_current == want {
        0
    } else {
        1 + first_with(bs.drop_first(), want)
    }
}

/// Where the branch picker starts: the first branch whose `is_current` is
/// `want`, else the top.
pub open spec fn picker_start(bs: Seq<BranchInfo>, want: bool) -> usize {
    if first_with(bs, want) < bs.len() {
        first_with(bs, want) as usize
    } else {
        0
    }
}

/// `first_with` is the first index where `is_current == want`.
pub proof fn lemma_first_with(bs: Seq<BranchInfo>, want: bool, k: int)
    requires
        0 <= k <= bs.len(),
        forall|j: int| 0 <= j < k ==> (#[trigger] bs[j]).is_current != want,
        k == bs.len() || bs[k].is_current == want,
    ensures
        first_with(bs, want) == k,
    decreases bs.len(),
{
    if bs.len() > 0 && bs[0].is_current != want {
        let t = bs.drop_first();
        assert forall|j: int| 0 <= j < k - 1 implies (#[trigger] t[j]).is_current != want by {
            assert(t[j] == bs[j + 1]);
        }
        if k < bs.len() {
            assert(t[k - 1] == bs[k]);
        }
        lemma_first_with(t, want, k - 1);
    }
}

// ---------------------------------------------------------------------------
// The commit editor
// ---------------------------------------------------------------------------

/// The commit editor's title.
pub open spec fn commit_title(intent: EditorIntent) -> Seq<char> {
    if intent is Amend {
        "Amend Commit"@
    } else {
        "Commit Message"@
    }
}

/// How the commit editor lists one staged file.
pub open spec fn staged_line(e: FileEntry) -> Seq<char> {
    "  "@ + e.kind@.describe() + " "@ + e.path@
}

/// The commit editor's comments: what to do, then the staged files.
pub open spec fn commit_comments(intent: EditorIntent, staged: Seq<FileEntry>) -> Seq<Seq<char>> {
    let (prompt, label) = if intent is Amend {
        ("Amend the commit message above."@, "Staged changes (will be included in amended commit):"@)
    } else {
        ("Enter commit message above."@, "Staged changes:"@)
    };
    seq![prompt, "Lines starting with # are ignored."@, seq![], label] + staged.map_values(
        |e: FileEntry| staged_line(e),
    )
}

/// The reword editor's comments.
pub open spec fn reword_comments(hash: Seq<char>, summary: Seq<char>) -> Seq<Seq<char>> {
    seq![
        "Reword "@ + hash + " "@ + summary + "."@,
        "Only the message changes. Later commits are replayed."@,
        "Staged changes are not included."@,
        "Lines starting with # are ignored."@,
    ]
}

/// A freshly opened editor with this title, comments and intent.
pub open spec fn fresh_editor(e: EditorState, title: Seq<char>, comments: Seq<Seq<char>>, intent: EditorIntent) -> bool {
    &&& e.mode == EditorMode::Insert
    &&& e.title@ == title
    &&& strings_view(e.comments@) == comments
    &&& e.intent == intent
    &&& !e.pending_colon && !e.pending_ctrl_c && !e.pending_d && !e.pending_g
}

fn staged_lines(staged: &Vec<FileEntry>) -> (r: Vec<String>)
    ensures
        strings_view(r@) == staged@.map_values(|e: FileEntry| staged_line(e)),
{
    let mut out: Vec<String> = Vec::new();
    let mut i: usize = 0;
    while i < staged.len()
        invariant
            i <= staged@.len(),
            strings_view(out@) == staged@.take(i as int).map_values(|e: FileEntry| staged_line(e)),
        decreases staged@.len() - i,
    {
        let e = &staged[i];
        let line = String::from_str("  ").concat(e.kind.describe().as_str()).concat(" ").concat(e.path.as_str());
        let ghost before = out@;
        out.push(line);
        assert(staged@.take(i + 1) =~= staged@.take(i as int).push(*e));
        assert(strings_view(out@) =~= strings_view(before).push(staged_line(*e)));
        assert(staged@.take(i + 1).map_values(|e: FileEntry| staged_line(e)) =~= staged@.take(i as int).map_values(
            |e: FileEntry| staged_line(e),
        ).push(staged_line(*e)));
        i += 1;
    }
    assert(staged@.take(staged@.len() as int) =~= staged@);
    out
}

impl App {
    /// Open the editor for a new commit, or to amend HEAD, whose message is
    /// `head_message`. The text starts as HEAD's message when amending, and
    /// empty otherwise.
    pub fn open_commit_editor(&mut self, intent: EditorIntent, head_message: &str)
        ensures
            final(self).editor matches Some(e) && fresh_editor(
                e,
                commit_title(intent),
                commit_comments(intent, old(self).status.staged@),
                intent,
            ) && text_lines(e.textarea) == crate::editor::spec_initial_lines(
                if intent is Amend {
                    head_message@
                } else {
                    seq![]
                },
            ),
            *final(self) == (App { editor: final(self).editor, buffer: ActiveBuffer::Editor, ..*old(self) }),
    {
        let amend = match &intent {
            EditorIntent::Amend => true,
            _ => false,
        };
        let (title, prompt, label) = if amend {
            ("Amend Commit", "Amend the commit message above.", "Staged changes (will be included in amended commit):")
        } else {
            ("Commit Message", "Enter commit message above.", "Staged changes:")
        };
        let mut comments: Vec<String> = Vec::new();
        comments.push(String::from_str(prompt));
        comments.push(String::from_str("Lines starting with # are ignored."));
        comments.push(String::new());
        comments.push(String::from_str(label));
        let mut files = staged_lines(&self.status.staged);
        comments.append(&mut files);
        let message = if amend { head_message } else { "" };
        proof {
            reveal_strlit("");
        }
        assert(strings_view(comments@) =~= commit_comments(intent, self.status.staged@));
        self.open_editor(EditorState::new(String::from_str(title), message, comments, intent));
    }

    /// Open the editor to rewrite the message of commit `hash` (`summary`),
    /// starting from its current `message`.
    pub fn open_reword_editor(&mut self, hash: &str, summary: &str, message: &str)
        ensures
            final(self).editor matches Some(e) && e.intent matches EditorIntent::Reword { hash: h } && h@ == hash@
                && fresh_editor(e, "Reword "@ + hash@, reword_comments(hash@, summary@), e.intent) && text_lines(
                e.textarea,
            ) == crate::editor::spec_initial_lines(message@),
            *final(self) == (App { editor: final(self).editor, buffer: ActiveBuffer::Editor, ..*old(self) }),
    {
        let mut comments: Vec<String> = Vec::new();
        comments.push(String::from_str("Reword ").concat(hash).concat(" ").concat(summary).concat("."));
        comments.push(String::from_str("Only the message changes. Later commits are replayed."));
        comments.push(String::from_str("Staged changes are not included."));
        comments.push(String::from_str("Lines starting with # are ignored."));
        assert(strings_view(comments@) =~= reword_comments(hash@, summary@));
        let title = String::from_str("Reword ").concat(hash);
        let intent = EditorIntent::Reword { hash: String::from_str(hash) };
        self.open_editor(EditorState::new(title, message, comments, intent));
    }

    /// Leave the editor without saving.
    pub fn abort_editor(&mut self)
        ensures
            final(self).editor is None,
            final(self).buffer == ActiveBuffer::Status,
            final(self).status_msg matches Some(m) && m@ == "Commit aborted"@,
            *final(self) == (App {
                editor: None,
                buffer: ActiveBuffer::Status,
                status_msg: final(self).status_msg,
                ..*old(self)
            }),
    {
        self.editor = None;
        self.buffer = ActiveBuffer::Status;
        self.status_msg = Some(String::from_str("Commit aborted"));
    }

    /// Close the editor and say what to do with its message: nothing when
    /// it is empty, else commit, amend or reword with it.
    pub fn save_editor(&mut self) -> (r: Command)
        ensures
            save_post(*old(self), *final(self), r),
    {
        let mut taken: Option<EditorState> = None;
        std::mem::swap(&mut taken, &mut self.editor);
        let state = match taken {
            Some(s) => s,
            None => return Command::Nothing,
        };
        self.buffer = ActiveBuffer::Status;
        let message = state.message();
        if message.as_str().is_empty() {
            let what = match &state.intent {
                EditorIntent::Commit => "Commit",
                EditorIntent::Amend => "Amend",
                EditorIntent::Reword { .. } => "Reword",
            };
            self.status_msg = Some(String::from_str(what).concat(" aborted: empty message"));
            return Command::Nothing;
        }
        match state.intent {
            EditorIntent::Commit => Command::Repo {
                op: RepoOp::Commit(message),
                done: String::from_str("Commit created"),
                failed: "Error",
            },
            EditorIntent::Amend => Command::Repo {
                op: RepoOp::Amend(message),
                done: String::from_str("Commit amended"),
                failed: "Error",
            },
            EditorIntent::Reword { hash } => {
                let done = String::from_str("Reworded ").concat(hash.as_str());
                Command::Repo { op: RepoOp::Reword { hash, message }, done, failed: "Error" }
            },
        }
    }
}

/// What the editor's intent is called in messages.
pub open spec fn intent_word(intent: EditorIntent) -> Seq<char> {
    match intent {
        EditorIntent::Commit => "Commit"@,
        EditorIntent::Amend => "Amend"@,
        EditorIntent::Reword { .. } => "Reword"@,
    }
}

/// What saving the editor does: with no editor open, nothing; otherwise
/// the editor closes, and an empty message (its text joined and trimmed)
/// is refused, while any other is committed, amended or reworded with.
pub open spec fn save_post(o: App, n: App, r: Command) -> bool {
    match o.editor {
        None => n == o && r is Nothing,
        Some(e) => {
            let msg = trim(crate::editor::join_with_newlines(text_lines(e.textarea)));
            if msg.len() == 0 {
                &&& r is Nothing
                &&& n.status_msg matches Some(m) && m@ == intent_word(e.intent) + " aborted: empty message"@
                &&& n == (App { editor: None, buffer: ActiveBuffer::Status, status_msg: n.status_msg, ..o })
            } else {
                &&& n == (App { editor: None, buffer: ActiveBuffer::Status, ..o })
                &&& r matches Command::Repo { op, done, failed } && failed@ == "Error"@ && match e.intent {
                    EditorIntent::Commit => op matches RepoOp::Commit(m) && m@ == msg && done@ == "Commit created"@,
                    EditorIntent::Amend => op matches RepoOp::Amend(m) && m@ == msg && done@ == "Commit amended"@,
                    EditorIntent::Reword { hash } => op matches RepoOp::Reword { hash: h, message: m } && h@ == hash@
                        && m@ == msg && done@ == "Reworded "@ + hash@,
                }
            }
        },
    }
}

// ---------------------------------------------------------------------------
// Popups
// ---------------------------------------------------------------------------

/// Whether `code` moves a popup list's cursor.
pub open spec fn is_step_key(code: KeyCode) -> bool {
    code == KeyCode::Char('j') || code == KeyCode::Down || code == KeyCode::Char('k') || code == KeyCode::Up
}

/// Where a popup list's cursor goes on a movement key.
pub open spec fn stepped(cursor: usize, len: nat, code: KeyCode) -> usize {
    if code == KeyCode::Char('j') || code == KeyCode::Down {
        if cursor + 1 < len {
            (cursor + 1) as usize
        } else {
            cursor
        }
    } else if cursor > 0 {
        (cursor - 1) as usize
    } else {
        0
    }
}

/// A key in the stash list: move, apply, pop or drop the stash under the
/// cursor (closing the list), or close it with Esc.
pub open spec fn stash_key_post(o: App, n: App, code: KeyCode, r: Command) -> bool {
    let l = o.stash_list->0;
    if is_step_key(code) {
        n.stash_list matches Some(m) && m.stashes == l.stashes && m.cursor == stepped(
            l.cursor,
            l.stashes@.len(),
            code,
        ) && r is Nothing && n == (App { stash_list: n.stash_list, ..o })
    } else {
        match code {
            KeyCode::Char('a') | KeyCode::Char('p') | KeyCode::Char('d') => {
                let index = l.stashes@[l.cursor as int].index;
                &&& n == (App { stash_list: None, ..o })
                &&& r matches Command::Repo { op, done, failed } && failed@ == "Error"@ && if code == KeyCode::Char('a') {
                    op == RepoOp::StashApply(index) && done@ == "Stash applied"@
                } else if code == KeyCode::Char('p') {
                    op == RepoOp::StashPop(index) && done@ == "Stash popped"@
                } else {
                    op == RepoOp::StashDrop(index) && done@ == "Stash dropped"@
                }
            },
            KeyCode::Esc => r is Nothing && n == (App { stash_list: None, status_msg: None, ..o }),
            _ => r is Nothing && n == o,
        }
    }
}

/// A popup list whose cursor is on an entry, as the stash list always is.
pub open spec fn stash_list_ok(app: App) -> bool {
    app.stash_list matches Some(l) ==> l.cursor < l.stashes@.len()
}

/// The search prompt after the query became `query`: the filter follows it
/// live.
pub open spec fn filtered_by(o: App, n: App, query: Seq<char>) -> bool {
    &&& n.log_search matches Some(s) && s@ == query
    &&& n.log_filter matches Some(f) && f@ == query
    &&& n.log_filtered@ == crate::app::spec_log_filtered(o.log@, Some(query))
    &&& n == (App {
        log_search: n.log_search,
        log_filter: n.log_filter,
        log_filtered: n.log_filtered,
        cursor: 0,
        ..o
    })
}

/// The filter cleared.
pub open spec fn unfiltered(o: App, n: App) -> bool {
    &&& n.log_filtered@ == crate::app::spec_log_filtered(o.log@, None)
    &&& n == (App { log_filter: None, log_filtered: n.log_filtered, cursor: 0, ..o })
}

/// The query without its last character, if any.
pub open spec fn popped(q: Seq<char>) -> Seq<char> {
    if q.len() > 0 {
        q.drop_last()
    } else {
        q
    }
}

/// A key in the log search prompt: typing filters live, Enter keeps the
/// filter and closes the prompt, Esc clears both.
pub open spec fn search_key_post(o: App, n: App, code: KeyCode) -> bool {
    let q = o.log_search->0@;
    match code {
        KeyCode::Esc => unfiltered(App { log_search: None, ..o }, n),
        KeyCode::Enter => n == (App { log_search: None, ..o }),
        KeyCode::Backspace => filtered_by(o, n, popped(q)),
        KeyCode::Char(c) => filtered_by(o, n, q.push(c)),
        _ => n == o,
    }
}

/// `/` in the log opens the search prompt with an empty, live filter; Esc
/// clears the filter.
pub open spec fn filter_key_post(o: App, n: App, code: KeyCode) -> bool {
    if code == KeyCode::Char('/') {
        filtered_by(App { status_msg: None, ..o }, n, seq![])
    } else {
        unfiltered(o, n)
    }
}

/// The branch name prompt after its input became `input`.
pub open spec fn name_input_is(o: App, n: App, input: Seq<char>) -> bool {
    let st = o.branch_name_input->0;
    n.branch_name_input matches Some(t) && t.input@ == input && t.mode == st.mode && t.original == st.original
        && n == (App { branch_name_input: n.branch_name_input, ..o })
}

/// A key in the branch name prompt: typing edits the name; Enter creates
/// or renames with the trimmed name (refusing an empty one); Esc cancels.
pub open spec fn name_key_post(o: App, n: App, code: KeyCode, r: Command) -> bool {
    let st = o.branch_name_input->0;
    match code {
        KeyCode::Esc => r is Nothing && n == (App { branch_name_input: None, status_msg: None, ..o }),
        KeyCode::Backspace => r is Nothing && name_input_is(o, n, popped(st.input@)),
        KeyCode::Char(c) => r is Nothing && name_input_is(o, n, st.input@.push(c)),
        KeyCode::Enter => {
            let name = trim(st.input@);
            if name.len() == 0 {
                &&& r is Nothing
                &&& n.status_msg matches Some(m) && m@ == "Cancelled: empty name"@
                &&& n == (App { branch_name_input: None, status_msg: n.status_msg, ..o })
            } else {
                &&& n == (App { branch_name_input: None, ..o })
                &&& r matches Command::Repo { op, done, failed } && failed@ == "Error"@ && match st.mode {
                    BranchNameMode::Create => op matches RepoOp::CreateBranch(b) && b@ == name && done@
                        == "Created and switched to '"@ + name + "'"@,
                    BranchNameMode::Rename => op matches RepoOp::RenameBranch { from, to } && from@
                        == st.original@ && to@ == name && done@ == "Renamed to '"@ + name + "'"@,
                }
            }
        },
        _ => r is Nothing && n == o,
    }
}

/// A key in the branch picker: move; Enter checks out or deletes the
/// branch under the cursor (never the current one) and closes the picker;
/// Esc closes it.
pub open spec fn branch_key_post(o: App, n: App, code: KeyCode, r: Command) -> bool {
    let p = o.branch_picker->0;
    if is_step_key(code) {
        n.branch_picker matches Some(q) && q.branches == p.branches && q.mode == p.mode && q.cursor
            == stepped(p.cursor, p.branches@.len(), code) && r is Nothing && n == (App { branch_picker: n.branch_picker, ..o })
    } else {
        match code {
            KeyCode::Esc => r is Nothing && n == (App { branch_picker: None, status_msg: None, ..o }),
            KeyCode::Enter => if p.cursor >= p.branches@.len() {
                r is Nothing && n == (App { branch_picker: None, ..o })
            } else {
                let b = p.branches@[p.cursor as int];
                match p.mode {
                    BranchPickerMode::Checkout => r matches Command::Repo {
                        op: RepoOp::CheckoutBranch(x),
                        done,
                        failed,
                    } && x@ == b.name@ && done@ == "Switched to '"@ + b.name@ + "'"@ && failed@ == "Error"@
                        && n == (App { branch_picker: None, ..o }),
                    BranchPickerMode::Delete => if b.is_current {
                        &&& r is Nothing
                        &&& n.status_msg matches Some(m) && m@ == error_text(
                            "Error"@,
                            "Cannot delete the currently checked-out branch"@,
                        )
                        &&& n == (App { branch_picker: None, status_msg: n.status_msg, ..o })
                    } else {
                        r matches Command::Repo {
                            op: RepoOp::DeleteBranch(x),
                            done,
                            failed,
                        } && x@ == b.name@ && done@ == "Deleted '"@ + b.name@ + "'"@ && failed@ == "Error"@
                            && n == (App { branch_picker: None, ..o })
                    },
                }
            },
            _ => r is Nothing && n == o,
        }
    }
}

/// A key in the commit picker: move; Enter fixes up into, squashes into or
/// rewords the commit under the cursor and closes the picker (a reword is
/// refused while changes are staged); Esc closes it.
pub open spec fn commit_key_post(o: App, n: App, code: KeyCode, r: Command) -> bool {
    let p = o.commit_picker->0;
    if is_step_key(code) {
        n.commit_picker matches Some(q) && q.commits == p.commits && q.mode == p.mode && q.cursor
            == stepped(p.cursor, p.commits@.len(), code) && r is Nothing && n == (App { commit_picker: n.commit_picker, ..o })
    } else {
        match code {
            KeyCode::Esc => r is Nothing && n == (App { commit_picker: None, status_msg: None, ..o }),
            KeyCode::Enter => if p.cursor >= p.commits@.len() {
                r is Nothing && n == (App { commit_picker: None, ..o })
            } else {
                let c = p.commits@[p.cursor as int];
                match p.mode {
                    FixupMode::Reword => if o.status.staged@.len() > 0 {
                        &&& r is Nothing
                        &&& n.status_msg matches Some(m) && m@ == error_text(
                            "Error"@,
                            "cannot reword while the index has staged changes"@,
                        )
                        &&& n == (App { commit_picker: None, status_msg: n.status_msg, ..o })
                    } else {
                        r matches Command::RewordEditor { hash, summary }
                            && hash@ == c.short_hash@ && summary@ == c.summary@ && n == (App { commit_picker: None, ..o })
                    },
                    FixupMode::Fixup => r matches Command::Repo {
                        op: RepoOp::Fixup(h),
                        done,
                        failed,
                    } && h@ == c.short_hash@ && done@ == "Fixed up into "@ + c.short_hash@ && failed@ == "Error"@
                        && n == (App { commit_picker: None, ..o }),
                    FixupMode::Squash => r matches Command::Repo {
                        op: RepoOp::Squash(h),
                        done,
                        failed,
                    } && h@ == c.short_hash@ && done@ == "Squashed into "@ + c.short_hash@ && failed@ == "Error"@
                        && n == (App { commit_picker: None, ..o }),
                }
            },
            _ => r is Nothing && n == o,
        }
    }
}

/// The preview scrolled by `lines` (see `CommitPreview::scroll_by`).
pub open spec fn scrolled(o: App, n: App, lines: int) -> bool {
    let pv = o.commit_preview->0;
    n.commit_preview matches Some(q) && q.title == pv.title && q.content == pv.content && q.scroll == (if pv.scroll
        + lines < 0 {
        0
    } else if pv.scroll + lines > u16::MAX {
        u16::MAX as int
    } else {
        pv.scroll + lines
    }) && n == (App { commit_preview: n.commit_preview, ..o })
}

/// A key in the commit preview: `q`/Esc closes it; `j`/`k` scroll a line,
/// `d`/`u` twenty.
pub open spec fn preview_key_post(o: App, n: App, code: KeyCode) -> bool {
    match code {
        KeyCode::Char('q') | KeyCode::Esc => n == (App { commit_preview: None, ..o }),
        KeyCode::Char('j') | KeyCode::Down => scrolled(o, n, 1),
        KeyCode::Char('k') | KeyCode::Up => scrolled(o, n, -1),
        KeyCode::Char('d') => scrolled(o, n, 20),
        KeyCode::Char('u') => scrolled(o, n, -20),
        _ => n == o,
    }
}

/// A key in the editor (see `spec_editor_step`): the text area runs the
/// operations the key asks for; saving closes the editor with its message
/// (see `save_post`), aborting closes it without.
pub open spec fn editor_key_post(o: App, n: App, key: Key, r: Command) -> bool {
    match o.editor {
        None => r is Nothing && n == o,
        Some(e) => {
            let (keys, ops, outcome) = crate::editor::spec_editor_step(e.keys(), key);
            if outcome == EditorOutcome::Abort {
                &&& r is Nothing
                &&& n.status_msg matches Some(m) && m@ == "Commit aborted"@
                &&& n == (App { editor: None, buffer: ActiveBuffer::Status, status_msg: n.status_msg, ..o })
            } else if outcome == EditorOutcome::Save {
                save_post(o, n, r)
            } else {
                &&& r is Nothing
                &&& n.editor matches Some(f) && f.keys() == keys && f.title == e.title && f.comments == e.comments
                    && f.intent == e.intent && (ops.len() == 0 ==> f.textarea == e.textarea) && ((forall|i: int|
                    0 <= i < ops.len() ==> (#[trigger] ops[i]) is Move) ==> text_lines(f.textarea) == text_lines(
                    e.textarea,
                ))
                &&& n.editor matches Some(f) && (text_selection(e.textarea) is None ==> match ops_effect(
                    text_lines(e.textarea),
                    text_cursor(e.textarea),
                    ops,
                ) {
                    Some((l, c)) => text_lines(f.textarea) == l && text_cursor(f.textarea) == c,
                    None => true,
                }) && (ops == seq![EditorOp::Undo] || ops == seq![EditorOp::Redo] ==> undone_or_kept(
                    e.textarea,
                    f.textarea,
                )) && (ops == seq![EditorOp::Undo] ==> (text_lines(f.textarea), text_cursor(f.textarea)) == undo_state(
                    e.textarea,
                )) && (ops == seq![EditorOp::Redo] ==> (text_lines(f.textarea), text_cursor(f.textarea)) == redo_state(
                    e.textarea,
                )) && (ops.len() == 1 && ops[0] is Input ==> text_state(f.textarea) == input_state(
                    e.textarea,
                    ops[0]->Input_0,
                ))
                &&& n == (App { editor: n.editor, ..o })
            }
        },
    }
}

impl App {
    fn stash_list_key(&mut self, code: KeyCode) -> (r: Command)
        requires
            old(self).stash_list is Some,
            stash_list_ok(*old(self)),
        ensures
            stash_key_post(*old(self), *final(self), code, r),
    {
        let mut taken: Option<StashListState> = None;
        std::mem::swap(&mut taken, &mut self.stash_list);
        let mut list = match taken {
            Some(l) => l,
            None => return Command::Nothing,
        };
        let n = list.stashes.len();
        if step_cursor(&mut list.cursor, n, code) {
            self.stash_list = Some(list);
            return Command::Nothing;
        }
        match code {
            KeyCode::Char('a') | KeyCode::Char('p') | KeyCode::Char('d') => {
                let index = list.stashes[list.cursor].index;
                let (op, done) = if code == KeyCode::Char('a') {
                    (RepoOp::StashApply(index), "Stash applied")
                } else if code == KeyCode::Char('p') {
                    (RepoOp::StashPop(index), "Stash popped")
                } else {
                    (RepoOp::StashDrop(index), "Stash dropped")
                };
                Command::Repo { op, done: String::from_str(done), failed: "Error" }
            },
            KeyCode::Esc => {
                self.status_msg = None;
                Command::Nothing
            },
            _ => {
                self.stash_list = Some(list);
                Command::Nothing
            },
        }
    }

    fn log_search_key(&mut self, code: KeyCode)
        requires
            old(self).log_search is Some,
        ensures
            search_key_post(*old(self), *final(self), code),
    {
        let mut taken: Option<String> = None;
        std::mem::swap(&mut taken, &mut self.log_search);
        let mut input = match taken {
            Some(s) => s,
            None => return,
        };
        match code {
            KeyCode::Esc => {
                self.set_log_filter(None);
                return;
            },
            KeyCode::Enter => return,
            KeyCode::Backspace => {
                let _ = pop_char(&mut input);
            },
            KeyCode::Char(c) => push_str_char(&mut input, c),
            _ => {
                self.log_search = Some(input);
                return;
            },
        }
        let query = input.clone();
        self.log_search = Some(input);
        self.set_log_filter(Some(query));
    }

    fn log_filter_key(&mut self, code: KeyCode)
        ensures
            filter_key_post(*old(self), *final(self), code),
    {
        if code == KeyCode::Char('/') {
            self.status_msg = None;
            self.log_search = Some(String::new());
            self.set_log_filter(Some(String::new()));
        } else {
            self.set_log_filter(None);
        }
    }

    fn branch_name_key(&mut self, code: KeyCode) -> (r: Command)
        requires
            old(self).branch_name_input is Some,
        ensures
            name_key_post(*old(self), *final(self), code, r),
    {
        let mut taken: Option<BranchNameInputState> = None;
        std::mem::swap(&mut taken, &mut self.branch_name_input);
        let mut st = match taken {
            Some(s) => s,
            None => return Command::Nothing,
        };
        match code {
            KeyCode::Esc => {
                self.status_msg = None;
                Command::Nothing
            },
            KeyCode::Backspace => {
                let _ = pop_char(&mut st.input);
                self.branch_name_input = Some(st);
                Command::Nothing
            },
            KeyCode::Char(c) => {
                push_str_char(&mut st.input, c);
                self.branch_name_input = Some(st);
                Command::Nothing
            },
            KeyCode::Enter => {
                let name = trim_str(st.input.as_str());
                if name.as_str().is_empty() {
                    self.status_msg = Some(String::from_str("Cancelled: empty name"));
                    return Command::Nothing;
                }
                match st.mode {
                    BranchNameMode::Create => {
                        let done = String::from_str("Created and switched to '").concat(name.as_str()).concat("'");
                        Command::Repo { op: RepoOp::CreateBranch(name), done, failed: "Error" }
                    },
                    BranchNameMode::Rename => {
                        let done = String::from_str("Renamed to '").concat(name.as_str()).concat("'");
                        Command::Repo { op: RepoOp::RenameBranch { from: st.original, to: name }, done, failed: "Error" }
                    },
                }
            },
            _ => {
                self.branch_name_input = Some(st);
                Command::Nothing
            },
        }
    }

    fn branch_picker_key(&mut self, code: KeyCode) -> (r: Command)
        requires
            old(self).branch_picker is Some,
        ensures
            branch_key_post(*old(self), *final(self), code, r),
    {
        let mut taken: Option<BranchPickerState> = None;
        std::mem::swap(&mut taken, &mut self.branch_picker);
        let mut p = match taken {
            Some(p) => p,
            None => return Command::Nothing,
        };
        let n = p.branches.len();
        if step_cursor(&mut p.cursor, n, code) {
            self.branch_picker = Some(p);
            return Command::Nothing;
        }
        match code {
            KeyCode::Esc => {
                self.status_msg = None;
                Command::Nothing
            },
            KeyCode::Enter => {
                if p.cursor >= n {
                    return Command::Nothing;
                }
                let b = &p.branches[p.cursor];
                match p.mode {
                    BranchPickerMode::Checkout => {
                        let done = String::from_str("Switched to '").concat(b.name.as_str()).concat("'");
                        Command::Repo { op: RepoOp::CheckoutBranch(b.name.clone()), done, failed: "Error" }
                    },
                    BranchPickerMode::Delete => {
                        if b.is_current {
                            self.show_error("Error", "Cannot delete the currently checked-out branch");
                            Command::Nothing
                        } else {
                            let done = String::from_str("Deleted '").concat(b.name.as_str()).concat("'");
                            Command::Repo { op: RepoOp::DeleteBranch(b.name.clone()), done, failed: "Error" }
                        }
                    },
                }
            },
            _ => {
                self.branch_picker = Some(p);
                Command::Nothing
            },
        }
    }

    fn commit_picker_key(&mut self, code: KeyCode) -> (r: Command)
        requires
            old(self).commit_picker is Some,
        ensures
            commit_key_post(*old(self), *final(self), code, r),
    {
        let mut taken: Option<CommitPickerState> = None;
        std::mem::swap(&mut taken, &mut self.commit_picker);
        let mut p = match taken {
            Some(p) => p,
            None => return Command::Nothing,
        };
        let n = p.commits.len();
        if step_cursor(&mut p.cursor, n, code) {
            self.commit_picker = Some(p);
            return Command::Nothing;
        }
        match code {
            KeyCode::Esc => {
                self.status_msg = None;
                Command::Nothing
            },
            KeyCode::Enter => {
                if p.cursor >= n {
                    return Command::Nothing;
                }
                let c = &p.commits[p.cursor];
                match p.mode {
                    FixupMode::Reword => {
                        if self.status.staged.len() > 0 {
                            self.show_error("Error", "cannot reword while the index has staged changes");
                            Command::Nothing
                        } else {
                            Command::RewordEditor { hash: c.short_hash.clone(), summary: c.summary.clone() }
                        }
                    },
                    FixupMode::Fixup => {
                        let done = String::from_str("Fixed up into ").concat(c.short_hash.as_str());
                        Command::Repo { op: RepoOp::Fixup(c.short_hash.clone()), done, failed: "Error" }
                    },
                    FixupMode::Squash => {
                        let done = String::from_str("Squashed into ").concat(c.short_hash.as_str());
                        Command::Repo { op: RepoOp::Squash(c.short_hash.clone()), done, failed: "Error" }
                    },
                }
            },
            _ => {
                self.commit_picker = Some(p);
                Command::Nothing
            },
        }
    }

    fn preview_key(&mut self, code: KeyCode)
        requires
            old(self).commit_preview is Some,
        ensures
            preview_key_post(*old(self), *final(self), code),
    {
        let mut taken: Option<CommitPreview> = None;
        std::mem::swap(&mut taken, &mut self.commit_preview);
        let mut pv = match taken {
            Some(p) => p,
            None => return,
        };
        match code {
            KeyCode::Char('q') | KeyCode::Esc => return,
            KeyCode::Char('j') | KeyCode::Down => pv.scroll_by(1),
            KeyCode::Char('k') | KeyCode::Up => pv.scroll_by(-1),
            KeyCode::Char('d') => pv.scroll_by(20),
            KeyCode::Char('u') => pv.scroll_by(-20),
            _ => {},
        }
        self.commit_preview = Some(pv);
    }

    fn editor_key(&mut self, key: Key) -> (r: Command)
        ensures
            editor_key_post(*old(self), *final(self), key, r),
    {
        let mut taken: Option<EditorState> = None;
        std::mem::swap(&mut taken, &mut self.editor);
        let mut e = match taken {
            Some(e) => e,
            None => return Command::Nothing,
        };
        let ghost e0 = e;
        let outcome = e.handle_key(key);
        match outcome {
            EditorOutcome::Abort => {
                self.abort_editor();
                Command::Nothing
            },
            EditorOutcome::Save => {
                assert(e.textarea == e0.textarea);
                assert(e.intent == e0.intent);
                self.editor = Some(e);
                let ghost mid = *self;
                let r = self.save_editor();
                proof {
                    assert(mid == (App { editor: Some(e), ..*old(self) }));
                }
                r
            },
            EditorOutcome::Continue => {
                self.editor = Some(e);
                Command::Nothing
            },
        }
    }
}

// ---------------------------------------------------------------------------
// Actions
// ---------------------------------------------------------------------------

/// Where `move_down` puts the cursor.
pub open spec fn cursor_after_down(o: App) -> usize {
    match o.buffer {
        ActiveBuffer::Status => match crate::app::first_selectable(
            items_view(o.items@),
            o.cursor + 1,
            o.items@.len() as int,
        ) {
            Some(i) => i as usize,
            None => o.cursor,
        },
        ActiveBuffer::Log => if o.cursor + 1 < o.log_filtered@.len() {
            (o.cursor + 1) as usize
        } else {
            o.cursor
        },
        _ => o.cursor,
    }
}

/// Where `move_up` puts the cursor.
pub open spec fn cursor_after_up(o: App) -> usize {
    if o.buffer == ActiveBuffer::Status && o.cursor > 0 {
        crate::app::spec_selectable_at_or_before(items_view(o.items@), o.cursor - 1) as usize
    } else if o.buffer == ActiveBuffer::Log {
        if o.cursor > 0 {
            (o.cursor - 1) as usize
        } else {
            0
        }
    } else {
        o.cursor
    }
}

/// What `toggle_expand_at_cursor` does (see there), returning `k`.
pub open spec fn toggle_post(o: App, n: App, k: Option<FileKey>) -> bool {
    match crate::app::file_at(o.items@, o.cursor as int) {
        None => k is None && n == o,
        Some(key) => if key.0 == crate::app::Section::Untracked {
            k is None && n == o
        } else if o.expanded.view().contains(key) {
            k is None && n.expanded.view() == o.expanded.view().remove(key) && items_view(n.items@)
                == n.expected_items() && n == (App { expanded: n.expanded, items: n.items, ..o })
        } else if o.diff_cache.view().contains_key(key) {
            k is None && n.expanded.view() == o.expanded.view().insert(key) && items_view(n.items@)
                == n.expected_items() && n == (App { expanded: n.expanded, items: n.items, ..o })
        } else {
            k matches Some(kk) && crate::app::key_view(kk) == key && n == o
        },
    }
}

/// The first key of a chord: remember it and show its label.
pub open spec fn chord_post(o: App, n: App, c: char, label: Seq<char>) -> bool {
    n.status_msg matches Some(m) && m@ == label && n == (App { pending_key: Some(c), status_msg: n.status_msg, ..o })
}

/// A repository operation with its messages.
pub open spec fn repo_cmd(r: Command, op: RepoOp, done: Seq<char>, failed: Seq<char>) -> bool {
    r matches Command::Repo { op: o, done: d, failed: f } && o == op && d@ == done && f@ == failed
}

/// A remote operation, with its busy message already showing.
pub open spec fn remote_post(o: App, n: App, r: Command, op: RemoteOp, busy: Seq<char>, done: Seq<char>, failed: Seq<
    char,
>) -> bool {
    &&& r matches Command::Remote { op: x, done: d, failed: f } && x == op && d@ == done && f@ == failed
    &&& n.status_msg matches Some(m) && m@ == busy
    &&& n == (App { status_msg: n.status_msg, ..o })
}

/// What an action does to the state, and the outside work it asks for.
pub open spec fn action_post(o: App, n: App, a: Action, r: Command) -> bool {
    match a {
        Action::Quit => r is Nothing && if o.buffer == ActiveBuffer::Help || o.buffer == ActiveBuffer::Log {
            n == (App { buffer: ActiveBuffer::Status, cursor: 0, ..o })
        } else {
            n == (App { should_quit: true, ..o })
        },
        Action::HideHelp => r is Nothing && if o.buffer == ActiveBuffer::Help {
            n == (App { buffer: ActiveBuffer::Status, ..o })
        } else {
            n == o
        },
        Action::MoveDown => r is Nothing && n == (App { cursor: cursor_after_down(o), ..o }),
        Action::MoveUp => r is Nothing && n == (App { cursor: cursor_after_up(o), ..o }),
        Action::PageDown => r == Command::Page { down: true } && n == o,
        Action::PageUp => r == Command::Page { down: false } && n == o,
        Action::StageFile => r == Command::Patch(PatchOp::Stage) && n == o,
        Action::UnstageFile => r == Command::Patch(PatchOp::Unstage) && n == o,
        Action::DiscardFile => r == Command::Patch(PatchOp::Discard) && n == o,
        Action::StageAll => r is StageAll && n == o,
        Action::UnstageAll => r is UnstageAll && n == o,
        Action::ToggleExpand => (r matches Command::FetchDiff(k) && toggle_post(o, n, Some(k))) || (r is Nothing
            && toggle_post(o, n, None)),
        Action::SwitchToLog => r is LoadLog && n == o,
        Action::Refresh => r is Refresh && n == o,
        Action::ShowHelp => r is Nothing && n == (App { buffer: ActiveBuffer::Help, ..o }),
        Action::Enter => n == o && if o.cursor < o.items@.len() && o.items@[o.cursor as int] is RecentCommit {
            let info = o.items@[o.cursor as int]->RecentCommit_info;
            r matches Command::ShowCommit { hash, title } && hash@ == info.short_hash@ && title@ == info.short_hash@
                + " "@ + info.summary@
        } else {
            r is Nothing
        },
        Action::CommitBegin => r is Nothing && chord_post(o, n, 'c', "c-"@),
        Action::CommitConfirm => r matches Command::CommitEditor(i) && i == EditorIntent::Commit && n == o,
        Action::CommitAmendConfirm => r matches Command::CommitEditor(i) && i == EditorIntent::Amend && n == o,
        Action::FixupPick => r == Command::PickCommit(FixupMode::Fixup) && n == o,
        Action::SquashPick => r == Command::PickCommit(FixupMode::Squash) && n == o,
        Action::RewordPick => r == Command::PickCommit(FixupMode::Reword) && n == o,
        Action::PushBegin => r is Nothing && chord_post(o, n, 'p', "P-"@),
        Action::Push => remote_post(o, n, r, RemoteOp::Push, "Pushing…"@, "Pushed."@, "Push failed"@),
        Action::PushForce => remote_post(
            o,
            n,
            r,
            RemoteOp::PushForce,
            "Force-pushing…"@,
            "Force-pushed."@,
            "Force-push failed"@,
        ),
        Action::Pull => remote_post(o, n, r, RemoteOp::Pull, "Pulling…"@, "Pulled."@, "Pull failed"@),
        Action::VisualMode => n.status_msg matches Some(m) && m@ == "-- VISUAL --"@ && r is Nothing && n == (App {
            visual_anchor: Some(o.cursor),
            status_msg: n.status_msg,
            ..o
        }),
        Action::StashBegin => r is Nothing && chord_post(o, n, 'z', "z-"@),
        Action::StashSave => n == o && repo_cmd(r, RepoOp::StashSave, "Stashed changes"@, "Stash failed"@),
        Action::StashPop => n == o && repo_cmd(r, RepoOp::StashPop(0), "Popped stash"@, "Stash pop failed"@),
        Action::StashApply => n == o && repo_cmd(r, RepoOp::StashApply(0), "Applied stash"@, "Stash apply failed"@),
        Action::StashDrop => n == o && repo_cmd(r, RepoOp::StashDrop(0), "Dropped stash"@, "Stash drop failed"@),
        Action::StashList => r is ListStashes && n == o,
        Action::BranchBegin => r is Nothing && chord_post(o, n, 'b', "b-"@),
        Action::BranchCheckout => r == Command::PickBranch(BranchPickerMode::Checkout) && n == o,
        Action::BranchDelete => r == Command::PickBranch(BranchPickerMode::Delete) && n == o,
        Action::BranchCreate => n.branch_name_input matches Some(st) && r is Nothing && st.input@.len() == 0
            && st.mode == BranchNameMode::Create && st.original@.len() == 0 && n == (App {
            branch_name_input: n.branch_name_input,
            ..o
        }),
        Action::BranchRename => {
            let current = match o.status.head {
                Some(h) => h@,
                None => seq![],
            };
            n.branch_name_input matches Some(st) && r is Nothing && st.input@ == current && st.mode
                == BranchNameMode::Rename && st.original@ == current && n == (App {
                branch_name_input: n.branch_name_input,
                ..o
            })
        },
        Action::NoOp => r is Nothing && n == o,
    }
}

impl App {
    fn chord(&mut self, c: char, label: &str)
        ensures
            chord_post(*old(self), *final(self), c, label@),
    {
        self.pending_key = Some(c);
        self.status_msg = Some(String::from_str(label));
    }

    fn remote(&mut self, op: RemoteOp, busy: &str, done: &'static str, failed: &'static str) -> (r: Command)
        ensures
            remote_post(*old(self), *final(self), r, op, busy@, done@, failed@),
    {
        self.status_msg = Some(String::from_str(busy));
        Command::Remote { op, done, failed }
    }

    fn commit_preview_command(&self) -> (r: Command)
        ensures
            if self.cursor < self.items@.len() && self.items@[self.cursor as int] is RecentCommit {
                let info = self.items@[self.cursor as int]->RecentCommit_info;
                r matches Command::ShowCommit { hash, title } && hash@ == info.short_hash@ && title@
                    == info.short_hash@ + " "@ + info.summary@
            } else {
                r is Nothing
            },
    {
        if self.cursor >= self.items.len() {
            return Command::Nothing;
        }
        match &self.items[self.cursor] {
            StatusItem::RecentCommit { info } => {
                let title = info.short_hash.clone().concat(" ").concat(info.summary.as_str());
                Command::ShowCommit { hash: info.short_hash.clone(), title }
            },
            _ => Command::Nothing,
        }
    }

    /// Carry out an action: change the state, and return the outside work
    /// it asks for.
    pub fn handle_action(&mut self, action: Action) -> (r: Command)
        requires
            action == Action::MoveUp && old(self).buffer == ActiveBuffer::Status ==> old(self).cursor
                <= old(self).items@.len(),
        ensures
            action_post(*old(self), *final(self), action, r),
    {
        match action {
            Action::Quit => {
                if self.buffer == ActiveBuffer::Help || self.buffer == ActiveBuffer::Log {
                    self.buffer = ActiveBuffer::Status;
                    self.cursor = 0;
                } else {
                    self.should_quit = true;
                }
                Command::Nothing
            },
            Action::HideHelp => {
                if self.buffer == ActiveBuffer::Help {
                    self.buffer = ActiveBuffer::Status;
                }
                Command::Nothing
            },
            Action::MoveDown => {
                self.move_down();
                Command::Nothing
            },
            Action::MoveUp => {
                self.move_up();
                Command::Nothing
            },
            Action::PageDown => Command::Page { down: true },
            Action::PageUp => Command::Page { down: false },
            Action::StageFile => Command::Patch(PatchOp::Stage),
            Action::UnstageFile => Command::Patch(PatchOp::Unstage),
            Action::DiscardFile => Command::Patch(PatchOp::Discard),
            Action::StageAll => Command::StageAll,
            Action::UnstageAll => Command::UnstageAll,
            Action::ToggleExpand => match self.toggle_expand_at_cursor() {
                Some(k) => Command::FetchDiff(k),
                None => Command::Nothing,
            },
            Action::SwitchToLog => Command::LoadLog,
            Action::Refresh => Command::Refresh,
            Action::ShowHelp => {
                self.buffer = ActiveBuffer::Help;
                Command::Nothing
            },
            Action::Enter => self.commit_preview_command(),
            Action::CommitBegin => {
                self.chord('c', "c-");
                Command::Nothing
            },
            Action::CommitConfirm => Command::CommitEditor(EditorIntent::Commit),
            Action::CommitAmendConfirm => Command::CommitEditor(EditorIntent::Amend),
            Action::FixupPick => Command::PickCommit(FixupMode::Fixup),
            Action::SquashPick => Command::PickCommit(FixupMode::Squash),
            Action::RewordPick => Command::PickCommit(FixupMode::Reword),
            Action::PushBegin => {
                self.chord('p', "P-");
                Command::Nothing
            },
            Action::Push => self.remote(RemoteOp::Push, "Pushing…", "Pushed.", "Push failed"),
            Action::PushForce => self.remote(RemoteOp::PushForce, "Force-pushing…", "Force-pushed.", "Force-push failed"),
            Action::Pull => self.remote(RemoteOp::Pull, "Pulling…", "Pulled.", "Pull failed"),
            Action::VisualMode => {
                self.visual_anchor = Some(self.cursor);
                self.status_msg = Some(String::from_str("-- VISUAL --"));
                Command::Nothing
            },
            Action::StashBegin => {
                self.chord('z', "z-");
                Command::Nothing
            },
            Action::StashSave => Command::Repo {
                op: RepoOp::StashSave,
                done: String::from_str("Stashed changes"),
                failed: "Stash failed",
            },
            Action::StashPop => Command::Repo {
                op: RepoOp::StashPop(0),
                done: String::from_str("Popped stash"),
                failed: "Stash pop failed",
            },
            Action::StashApply => Command::Repo {
                op: RepoOp::StashApply(0),
                done: String::from_str("Applied stash"),
                failed: "Stash apply failed",
            },
            Action::StashDrop => Command::Repo {
                op: RepoOp::StashDrop(0),
                done: String::from_str("Dropped stash"),
                failed: "Stash drop failed",
            },
            Action::StashList => Command::ListStashes,
            Action::BranchBegin => {
                self.chord('b', "b-");
                Command::Nothing
            },
            Action::BranchCheckout => Command::PickBranch(BranchPickerMode::Checkout),
            Action::BranchDelete => Command::PickBranch(BranchPickerMode::Delete),
            Action::BranchCreate => {
                self.branch_name_input = Some(
                    BranchNameInputState { input: String::new(), mode: BranchNameMode::Create, original: String::new() },
                );
                Command::Nothing
            },
            Action::BranchRename => {
                let current = match &self.status.head {
                    Some(h) => h.clone(),
                    None => String::new(),
                };
                self.branch_name_input = Some(
                    BranchNameInputState { input: current.clone(), mode: BranchNameMode::Rename, original: current },
                );
                Command::Nothing
            },
            Action::NoOp => Command::Nothing,
        }
    }
}

/// Which part of the program a key press goes to: an open popup, the log
/// filter keys, the editor, leaving visual mode, or the key map.
#[derive(Debug, Clone, Copy, PartialEq, Eq, Structural)]
pub enum Route {
    StashList,
    LogSearch,
    LogFilter,
    BranchName,
    BranchPicker,
    CommitPicker,
    Preview,
    Editor,
    LeaveVisual,
    KeyMap,
}

/// Where a key press goes, the first that applies in this order.
pub open spec fn key_route(app: App, key: Key) -> Route {
    if app.stash_list is Some {
        Route::StashList
    } else if app.log_search is Some {
        Route::LogSearch
    } else if app.buffer == ActiveBuffer::Log && (key.code == KeyCode::Char('/') || (key.code == KeyCode::Esc
        && app.log_filter is Some)) {
        Route::LogFilter
    } else if app.branch_name_input is Some {
        Route::BranchName
    } else if app.branch_picker is Some {
        Route::BranchPicker
    } else if app.commit_picker is Some {
        Route::CommitPicker
    } else if app.commit_preview is Some {
        Route::Preview
    } else if app.buffer == ActiveBuffer::Editor {
        Route::Editor
    } else if key.code == KeyCode::Esc && app.visual_anchor is Some {
        Route::LeaveVisual
    } else {
        Route::KeyMap
    }
}

/// What a key press does (see `key_route`). Through the key map, the
/// footer message is cleared and a pending chord key is used up first.
pub open spec fn key_post(o: App, n: App, key: Key, r: Command) -> bool {
    match key_route(o, key) {
        Route::StashList => stash_key_post(o, n, key.code, r),
        Route::LogSearch => r is Nothing && search_key_post(o, n, key.code),
        Route::LogFilter => r is Nothing && filter_key_post(o, n, key.code),
        Route::BranchName => name_key_post(o, n, key.code, r),
        Route::BranchPicker => branch_key_post(o, n, key.code, r),
        Route::CommitPicker => commit_key_post(o, n, key.code, r),
        Route::Preview => r is Nothing && preview_key_post(o, n, key.code),
        Route::Editor => editor_key_post(o, n, key, r),
        Route::LeaveVisual => r is Nothing && n == (App { visual_anchor: None, status_msg: None, ..o }),
        Route::KeyMap => action_post(
            App { status_msg: None, pending_key: None, ..o },
            n,
            spec_key_to_action(key, o.pending_key),
            r,
        ),
    }
}

impl App {
    /// Handle one key press: change the state, and return the outside work
    /// it asks for.
    pub fn handle_key(&mut self, key: Key) -> (r: Command)
        requires
            key_route(*old(self), key) == Route::StashList ==> stash_list_ok(*old(self)),
            key_route(*old(self), key) == Route::KeyMap && spec_key_to_action(key, old(self).pending_key)
                == Action::MoveUp && old(self).buffer == ActiveBuffer::Status ==> old(self).cursor
                <= old(self).items@.len(),
        ensures
            key_post(*old(self), *final(self), key, r),
    {
        let code = key.code;
        let filter_key = self.buffer == ActiveBuffer::Log && (code == KeyCode::Char('/') || (code == KeyCode::Esc
            && self.log_filter.is_some()));
        if self.stash_list.is_some() {
            self.stash_list_key(code)
        } else if self.log_search.is_some() {
            self.log_search_key(code);
            Command::Nothing
        } else if filter_key {
            self.log_filter_key(code);
            Command::Nothing
        } else if self.branch_name_input.is_some() {
            self.branch_name_key(code)
        } else if self.branch_picker.is_some() {
            self.branch_picker_key(code)
        } else if self.commit_picker.is_some() {
            self.commit_picker_key(code)
        } else if self.commit_preview.is_some() {
            self.preview_key(code);
            Command::Nothing
        } else if self.buffer == ActiveBuffer::Editor {
            self.editor_key(key)
        } else if code == KeyCode::Esc && self.visual_anchor.is_some() {
            self.visual_anchor = None;
            self.status_msg = None;
            Command::Nothing
        } else {
            self.status_msg = None;
            let pending = self.pending_key;
            self.pending_key = None;
            let action = key_to_action(key, pending);
            self.handle_action(action)
        }
    }
}

impl App {
    /// The scroll wheel: it scrolls the commit preview by three lines when
    /// the preview is open, else it moves the cursor.
    pub fn handle_scroll(&mut self, down: bool)
        requires
            old(self).commit_preview is None && !down && old(self).buffer == ActiveBuffer::Status ==> old(self).cursor
                <= old(self).items@.len(),
        ensures
            match old(self).commit_preview {
                Some(_) => scrolled(*old(self), *final(self), if down { 3 } else { -3 }),
                None => *final(self) == (App {
                    cursor: if down { cursor_after_down(*old(self)) } else { cursor_after_up(*old(self)) },
                    ..*old(self)
                }),
            },
    {
        let mut taken: Option<CommitPreview> = None;
        std::mem::swap(&mut taken, &mut self.commit_preview);
        match taken {
            Some(mut pv) => {
                pv.scroll_by(if down { 3 } else { -3 });
                self.commit_preview = Some(pv);
            },
            None => {
                if down {
                    self.move_down();
                } else {
                    self.move_up();
                }
            },
        }
    }
}

} // verus!
