use rugit::app::{
    push_diff_items, ActiveBuffer, App, BranchPickerMode, EditorIntent, FixupMode, PatchOp, Section, StatusItem,
};
use rugit::backend::{BranchInfo, CommitInfo, FileEntry, FileKind, RepoStatus, StashInfo};
use rugit::config::Config;
use rugit::keybindings::{Action, Key, KeyCode};
use rugit::session::{first_line, half_page, step_cursor, Command, RemoteOp, RepoOp};
use rugit::app::{CursorAction, FollowUp};

trait Press {
    fn press(&mut self, k: Key) -> Command;
}

impl Press for App {
    fn press(&mut self, k: Key) -> Command {
        self.handle_key(k)
    }
}

fn key(c: char) -> Key {
    Key { code: KeyCode::Char(c), ctrl: false, alt: false, shift: false }
}

fn code(k: KeyCode) -> Key {
    Key { code: k, ctrl: false, alt: false, shift: false }
}

fn commit(h: &str, s: &str) -> CommitInfo {
    CommitInfo { short_hash: h.to_string(), summary: s.to_string(), author: "me".to_string() }
}

fn app_with(status: RepoStatus) -> App {
    App::new(status, vec![commit("aaa1111", "first")], vec![], Config::default())
}

fn one_unstaged() -> RepoStatus {
    let mut st = RepoStatus::empty();
    st.unstaged.push(FileEntry { path: "f".to_string(), kind: FileKind::Modified });
    st
}

#[test]
fn chord_prefix_applies_to_the_next_key_only() {
    let mut app = app_with(RepoStatus::empty());
    assert!(matches!(app.press(key('c')), Command::Nothing));
    assert_eq!(app.pending_key, Some('c'));
    assert_eq!(app.status_msg.as_deref(), Some("c-"));
    match app.press(key('c')) {
        Command::CommitEditor(EditorIntent::Commit) => {},
        _ => panic!("expected the commit editor"),
    }
    assert_eq!(app.pending_key, None);
    assert_eq!(app.status_msg, None);
    // A second 'c' alone begins a new chord.
    app.press(key('c'));
    assert_eq!(app.pending_key, Some('c'));
}

#[test]
fn quit_leaves_log_before_quitting() {
    let mut app = app_with(RepoStatus::empty());
    app.show_log(vec![commit("a", "x"), commit("b", "y")]);
    assert_eq!(app.buffer, ActiveBuffer::Log);
    app.press(key('q'));
    assert_eq!(app.buffer, ActiveBuffer::Status);
    assert!(!app.should_quit);
    app.press(key('q'));
    assert!(app.should_quit);
}

#[test]
fn push_shows_busy_message_and_asks_for_remote() {
    let mut app = app_with(RepoStatus::empty());
    app.press(key('p'));
    match app.press(key('f')) {
        Command::Remote { op: RemoteOp::PushForce, done, failed } => {
            assert_eq!(done, "Force-pushed.");
            assert_eq!(failed, "Force-push failed");
        },
        _ => panic!("expected a force push"),
    }
    assert_eq!(app.status_msg.as_deref(), Some("Force-pushing…"));
}

#[test]
fn staging_keys_ask_for_patches() {
    let mut app = app_with(one_unstaged());
    assert!(matches!(app.press(key('s')), Command::Patch(PatchOp::Stage)));
    assert!(matches!(app.press(key('x')), Command::Patch(PatchOp::Discard)));
    assert!(matches!(app.press(key('S')), Command::StageAll));
    assert!(matches!(app.handle_action(Action::UnstageAll), Command::UnstageAll));
}

#[test]
fn tab_asks_for_the_diff_then_shows_it() {
    let mut app = app_with(one_unstaged());
    // Items: spacer, header, file.
    app.cursor = 2;
    let key_to_fetch = match app.press(code(KeyCode::Tab)) {
        Command::FetchDiff(k) => k,
        _ => panic!("expected a diff fetch"),
    };
    assert_eq!(key_to_fetch, (Section::Unstaged, "f".to_string()));
    app.finish_expand(key_to_fetch, Ok("@@ -1 +1 @@\n-a\n+b\n".to_string()));
    assert_eq!(app.items.len(), 9);
    assert!(matches!(app.items[3], StatusItem::HunkHeader { .. }));
    // Collapsing needs no fetch.
    assert!(matches!(app.press(code(KeyCode::Tab)), Command::Nothing));
    assert_eq!(app.items.len(), 6);
}

#[test]
fn diff_error_is_reported() {
    let mut app = app_with(one_unstaged());
    app.finish_expand((Section::Unstaged, "f".to_string()), Err("boom".to_string()));
    assert_eq!(app.status_msg.as_deref(), Some("Diff error: boom"));
}

#[test]
fn cursor_skips_context_lines() {
    let mut app = app_with(one_unstaged());
    app.cursor = 2;
    app.finish_expand((Section::Unstaged, "f".to_string()), Ok("@@ -1,3 +1,3 @@\n-a\n+A\n b\n-c\n+C\n".to_string()));
    let find = |app: &App, text: &str| {
        app.items.iter().position(|i| matches!(i, StatusItem::DiffLine { line, .. } if line.as_str() == text)).unwrap()
    };
    app.cursor = find(&app, "+A");
    app.move_down();
    assert_eq!(app.cursor, find(&app, "-c"), "should skip \" b\"");
    app.move_up();
    assert_eq!(app.cursor, find(&app, "+A"));
}

#[test]
fn enter_on_recent_commit_asks_to_show_it() {
    let mut app = app_with(RepoStatus::empty());
    // Items: spacer, recent header, commit.
    app.cursor = 2;
    match app.press(code(KeyCode::Enter)) {
        Command::ShowCommit { hash, title } => {
            assert_eq!(hash, "aaa1111");
            assert_eq!(title, "aaa1111 first");
        },
        _ => panic!("expected a commit"),
    }
    app.open_preview("t".to_string(), "c".to_string());
    app.press(key('d'));
    assert_eq!(app.commit_preview.as_ref().unwrap().scroll, 20);
    app.press(key('k'));
    assert_eq!(app.commit_preview.as_ref().unwrap().scroll, 19);
    app.press(code(KeyCode::Esc));
    assert!(app.commit_preview.is_none());
}

#[test]
fn stash_list_applies_the_stash_under_the_cursor() {
    let mut app = app_with(RepoStatus::empty());
    app.open_stash_list(vec![
        StashInfo { index: 0, summary: "a".to_string() },
        StashInfo { index: 1, summary: "b".to_string() },
    ]);
    app.press(key('j'));
    app.press(key('j'));
    assert_eq!(app.stash_list.as_ref().unwrap().cursor, 1);
    match app.press(key('p')) {
        Command::Repo { op: RepoOp::StashPop(1), done, failed } => {
            assert_eq!(done, "Stash popped");
            assert_eq!(failed, "Error");
        },
        _ => panic!("expected a stash pop"),
    }
    assert!(app.stash_list.is_none());
}

#[test]
fn empty_stash_list_says_so() {
    let mut app = app_with(RepoStatus::empty());
    app.open_stash_list(vec![]);
    assert!(app.stash_list.is_none());
    assert_eq!(app.status_msg.as_deref(), Some("No stashes"));
}

#[test]
fn branch_picker_refuses_to_delete_current_branch() {
    let mut app = app_with(RepoStatus::empty());
    let b = |n: &str, c: bool| BranchInfo { name: n.to_string(), is_current: c };
    app.open_branch_picker(BranchPickerMode::Delete, vec![b("main", true), b("old", false)]);
    // Deleting starts on a branch that is not checked out.
    assert_eq!(app.branch_picker.as_ref().unwrap().cursor, 1);
    app.press(key('k'));
    assert!(matches!(app.press(code(KeyCode::Enter)), Command::Nothing));
    assert_eq!(app.status_msg.as_deref(), Some("Error: Cannot delete the currently checked-out branch"));
    app.open_branch_picker(BranchPickerMode::Checkout, vec![b("a", false), b("main", true)]);
    assert_eq!(app.branch_picker.as_ref().unwrap().cursor, 1);
    match app.press(code(KeyCode::Enter)) {
        Command::Repo { op: RepoOp::CheckoutBranch(n), done, .. } => {
            assert_eq!(n, "main");
            assert_eq!(done, "Switched to 'main'");
        },
        _ => panic!("expected a checkout"),
    }
}

#[test]
fn new_branch_name_is_trimmed_and_empty_refused() {
    let mut app = app_with(RepoStatus::empty());
    app.press(key('b'));
    app.press(key('c'));
    assert!(app.branch_name_input.is_some());
    for c in " x ".chars() {
        app.press(key(c));
    }
    match app.press(code(KeyCode::Enter)) {
        Command::Repo { op: RepoOp::CreateBranch(n), done, .. } => {
            assert_eq!(n, "x");
            assert_eq!(done, "Created and switched to 'x'");
        },
        _ => panic!("expected a branch"),
    }
    app.press(key('b'));
    app.press(key('c'));
    app.press(key(' '));
    assert!(matches!(app.press(code(KeyCode::Enter)), Command::Nothing));
    assert_eq!(app.status_msg.as_deref(), Some("Cancelled: empty name"));
}

#[test]
fn rename_starts_from_current_branch() {
    let mut st = RepoStatus::empty();
    st.head = Some("main".to_string());
    let mut app = app_with(st);
    app.press(key('b'));
    app.press(key('r'));
    let input = app.branch_name_input.as_ref().unwrap();
    assert_eq!((input.input.as_str(), input.original.as_str()), ("main", "main"));
    app.press(code(KeyCode::Backspace));
    match app.press(code(KeyCode::Enter)) {
        Command::Repo { op: RepoOp::RenameBranch { from, to }, .. } => assert_eq!((from.as_str(), to.as_str()), ("main", "mai")),
        _ => panic!("expected a rename"),
    }
}

#[test]
fn reword_refused_while_changes_are_staged() {
    let mut st = RepoStatus::empty();
    st.staged.push(FileEntry { path: "s".to_string(), kind: FileKind::Added });
    let mut app = app_with(st);
    app.open_commit_picker(FixupMode::Reword, vec![commit("abc", "msg")]);
    assert!(matches!(app.press(code(KeyCode::Enter)), Command::Nothing));
    assert_eq!(app.status_msg.as_deref(), Some("Error: cannot reword while the index has staged changes"));
    assert!(app.commit_picker.is_none());
}

#[test]
fn fixup_goes_into_the_picked_commit() {
    let mut app = app_with(RepoStatus::empty());
    app.open_commit_picker(FixupMode::Fixup, vec![commit("abc", "one"), commit("def", "two")]);
    app.press(code(KeyCode::Down));
    match app.press(code(KeyCode::Enter)) {
        Command::Repo { op: RepoOp::Fixup(h), done, .. } => {
            assert_eq!(h, "def");
            assert_eq!(done, "Fixed up into def");
        },
        _ => panic!("expected a fixup"),
    }
    app.open_commit_picker(FixupMode::Squash, vec![]);
    assert_eq!(app.status_msg.as_deref(), Some("No commits to squash into"));
}

#[test]
fn log_search_filters_live_and_escape_clears() {
    let mut app = app_with(RepoStatus::empty());
    app.show_log(vec![commit("a1", "Fix parser"), commit("b2", "Add tests"), commit("c3", "fix docs")]);
    app.press(key('/'));
    assert_eq!(app.log_search.as_deref(), Some(""));
    for c in "FIX".chars() {
        app.press(key(c));
    }
    assert_eq!(app.log_filter.as_deref(), Some("FIX"));
    assert_eq!(app.log_visible_len(), 2);
    app.press(code(KeyCode::Enter));
    assert!(app.log_search.is_none());
    assert_eq!(app.log_visible_len(), 2);
    app.press(code(KeyCode::Esc));
    assert!(app.log_filter.is_none());
    assert_eq!(app.log_visible_len(), 3);
}

#[test]
fn editor_saves_trimmed_message_or_refuses_empty() {
    let mut app = app_with(one_unstaged());
    app.open_commit_editor(EditorIntent::Amend, "  subject\n\nbody  ");
    assert_eq!(app.buffer, ActiveBuffer::Editor);
    assert_eq!(app.editor.as_ref().unwrap().textarea.area.lines(), ["  subject", "", "body  "]);
    app.press(code(KeyCode::Esc));
    match app.press(code(KeyCode::Enter)) {
        Command::Repo { op: RepoOp::Amend(m), done, .. } => {
            assert_eq!(m, "subject\n\nbody");
            assert_eq!(done, "Commit amended");
        },
        _ => panic!("expected an amend"),
    }
    assert_eq!(app.buffer, ActiveBuffer::Status);
    assert!(app.editor.is_none());
    app.open_commit_editor(EditorIntent::Commit, "head message is not used");
    app.press(code(KeyCode::Esc));
    assert!(matches!(app.press(code(KeyCode::Enter)), Command::Nothing));
    assert_eq!(app.status_msg.as_deref(), Some("Commit aborted: empty message"));
}

#[test]
fn typed_text_becomes_the_commit_message() {
    let mut app = app_with(one_unstaged());
    app.open_commit_editor(EditorIntent::Commit, "");
    for c in "hi".chars() {
        assert!(matches!(app.press(key(c)), Command::Nothing));
    }
    app.press(code(KeyCode::Esc));
    app.press(key(':'));
    app.press(key('w'));
    match app.press(key('q')) {
        Command::Repo { op: RepoOp::Commit(m), done, .. } => {
            assert_eq!(m, "hi");
            assert_eq!(done, "Commit created");
        },
        _ => panic!("expected a commit"),
    }
}

#[test]
fn dd_deletes_the_cursor_line() {
    let mut app = app_with(RepoStatus::empty());
    app.open_commit_editor(EditorIntent::Amend, "a\nb\nc");
    app.press(code(KeyCode::Esc));
    app.press(key('j'));
    app.press(key('d'));
    app.press(key('d'));
    assert_eq!(app.editor.as_ref().unwrap().textarea.area.lines(), ["a", "c"]);
    assert_eq!(app.editor.as_ref().unwrap().message(), "a\nc");
}

#[test]
fn dd_on_an_empty_line_joins_the_next_line() {
    let mut app = app_with(RepoStatus::empty());
    app.open_commit_editor(EditorIntent::Amend, "a\n\nxyz");
    app.press(code(KeyCode::Esc));
    app.press(key('j'));
    app.press(key('d'));
    app.press(key('d'));
    // The empty line goes, and the join that follows takes the next line's first character.
    assert_eq!(app.editor.as_ref().unwrap().textarea.area.lines(), ["a", "yz"]);
}

#[test]
fn dd_on_the_only_line_leaves_it_empty() {
    let mut app = app_with(RepoStatus::empty());
    app.open_commit_editor(EditorIntent::Amend, "only");
    app.press(code(KeyCode::Esc));
    app.press(key('d'));
    app.press(key('d'));
    assert_eq!(app.editor.as_ref().unwrap().textarea.area.lines(), [""]);
}

#[test]
fn commit_editor_lists_staged_files() {
    let mut st = RepoStatus::empty();
    st.staged.push(FileEntry { path: "a.rs".to_string(), kind: FileKind::Modified });
    let mut app = app_with(st);
    app.open_commit_editor(EditorIntent::Amend, "old\nbody");
    let e = app.editor.as_ref().unwrap();
    assert_eq!(e.textarea.area.lines(), ["old", "body"]);
    assert_eq!(e.title, "Amend Commit");
    assert_eq!(
        e.comments,
        vec![
            "Amend the commit message above.".to_string(),
            "Lines starting with # are ignored.".to_string(),
            String::new(),
            "Staged changes (will be included in amended commit):".to_string(),
            "  modified a.rs".to_string(),
        ]
    );
}

#[test]
fn editor_quit_in_normal_mode_aborts() {
    let mut app = app_with(RepoStatus::empty());
    app.open_commit_editor(EditorIntent::Commit, "");
    assert!(matches!(app.press(key('x')), Command::Nothing));
    assert_eq!(app.editor.as_ref().unwrap().textarea.area.lines(), ["x"]);
    app.press(code(KeyCode::Esc));
    app.press(key('q'));
    assert!(app.editor.is_none());
    assert_eq!(app.status_msg.as_deref(), Some("Commit aborted"));
}

#[test]
fn ctrl_c_twice_saves_in_the_editor() {
    let mut app = app_with(RepoStatus::empty());
    app.open_commit_editor(EditorIntent::Amend, "msg");
    let ctrl_c = Key { code: KeyCode::Char('c'), ctrl: true, alt: false, shift: false };
    assert!(matches!(app.press(ctrl_c), Command::Nothing));
    assert!(app.editor.is_some());
    match app.press(ctrl_c) {
        Command::Repo { op: RepoOp::Amend(m), .. } => assert_eq!(m, "msg"),
        _ => panic!("expected an amend"),
    }
}

#[test]
fn reword_editor_starts_from_the_message() {
    let mut app = app_with(RepoStatus::empty());
    app.open_reword_editor("abc", "old subject", "old subject\n\nold body\n");
    let e = app.editor.as_ref().unwrap();
    assert_eq!(e.title, "Reword abc");
    assert_eq!(e.comments[0], "Reword abc old subject.");
    assert_eq!(e.message(), "old subject\n\nold body");
    match app.save_editor() {
        Command::Repo { op: RepoOp::Reword { hash, message }, done, .. } => {
            assert_eq!((hash.as_str(), message.as_str()), ("abc", "old subject\n\nold body"));
            assert_eq!(done, "Reworded abc");
        },
        _ => panic!("expected a reword"),
    }
}

#[test]
fn errors_show_their_first_line() {
    let mut app = app_with(RepoStatus::empty());
    app.show_error("Push failed", "fatal: nope\nhint: more");
    assert_eq!(app.status_msg.as_deref(), Some("Push failed: fatal: nope"));
    app.finish(Ok(()), "Pushed.", "Push failed");
    assert_eq!(app.status_msg.as_deref(), Some("Pushed."));
    app.status_msg = None;
    app.report(Ok(()));
    assert_eq!(app.status_msg, None);
    assert_eq!(first_line(""), "");
    assert_eq!(first_line("one\ntwo"), "one");
}

#[test]
fn staging_everything_reports_its_outcome() {
    let mut app = app_with(RepoStatus::empty());
    app.stage_all(Ok(()));
    assert_eq!(app.status_msg.as_deref(), Some("Staged all changes"));
    app.unstage_all(Ok(()));
    assert_eq!(app.status_msg.as_deref(), Some("Unstaged all changes"));
    app.stage_all(Err("fatal: index.lock exists\nanother line".to_string()));
    assert_eq!(app.status_msg.as_deref(), Some("Error: fatal: index.lock exists"));
    app.unstage_all(Err("no HEAD".to_string()));
    assert_eq!(app.status_msg.as_deref(), Some("Error: no HEAD"));
}

#[test]
fn popup_cursor_steps_within_the_list() {
    let mut c = 0usize;
    assert!(step_cursor(&mut c, 2, KeyCode::Down));
    assert_eq!(c, 1);
    assert!(step_cursor(&mut c, 2, KeyCode::Char('j')));
    assert_eq!(c, 1);
    assert!(step_cursor(&mut c, 2, KeyCode::Up));
    assert!(step_cursor(&mut c, 2, KeyCode::Char('k')));
    assert_eq!(c, 0);
    assert!(!step_cursor(&mut c, 2, KeyCode::Enter));
    assert_eq!(half_page(24), 12);
    assert_eq!(half_page(1), 1);
}

#[test]
fn visual_mode_starts_at_cursor_and_escape_leaves() {
    let mut app = app_with(one_unstaged());
    app.cursor = 2;
    app.press(key('V'));
    assert_eq!(app.visual_anchor, Some(2));
    assert_eq!(app.status_msg.as_deref(), Some("-- VISUAL --"));
    app.press(code(KeyCode::Esc));
    assert_eq!(app.visual_anchor, None);
    assert_eq!(app.status_msg, None);
}

#[test]
fn diff_items_number_lines_as_patches_do() {
    let diff = "diff --git a/f b/f\n@@ -1,2 +1,2 @@\n a\n-b\n+B\n@@ -9 +9 @@\n-x\n+y\n";
    let mut items = Vec::new();
    push_diff_items(&mut items, diff, "f", Section::Unstaged);
    assert_eq!(items.len(), 7);
    // "+y" is line 1 of hunk 1; selecting it stages exactly that line.
    match &items[6] {
        StatusItem::DiffLine { line, hunk_index, line_in_hunk, .. } => {
            assert_eq!(line.as_str(), "+y");
            assert_eq!((*hunk_index, *line_in_hunk), (1, 1));
            let sel = [*line_in_hunk].into_iter().collect();
            let patch = rugit::diff::lines_patch(diff, *hunk_index, &sel, false).unwrap();
            assert_eq!(patch, "diff --git a/f b/f\n@@ -9,1 +9,2 @@\n x\n+y\n");
        },
        _ => panic!("expected a diff line"),
    }
}

#[test]
fn refresh_after_a_patch_refetches_only_what_is_shown() {
    let mut app = app_with(one_unstaged());
    app.cursor = 2;
    app.finish_expand((Section::Unstaged, "f".to_string()), Ok("@@ -1 +1 @@\n-a\n+b\n".to_string()));
    assert!(app.diff_cache.contains_key(Section::Unstaged, "f"));
    app.forget_diffs(&vec!["f".to_string()]);
    assert!(!app.diff_cache.contains_key(Section::Unstaged, "f"));
    // The file is still unstaged and expanded there: fetch it again.
    assert!(app.needs_diff(Section::Unstaged, "f", Section::Staged));
    // It is not staged: nothing to fetch, and it is not shown expanded there.
    assert!(!app.needs_diff(Section::Staged, "f", Section::Staged));
    assert!(!app.expanded.contains(Section::Staged, "f"));
    app.store_diff(Section::Unstaged, "f", Some("@@ -1 +1 @@\n-a\n+c\n".to_string()));
    app.finish_refresh();
    assert!(app.items.iter().any(|i| matches!(i, StatusItem::DiffLine { line, .. } if line.as_str() == "+c")));
    assert!(app.cursor < app.items.len());
}

#[test]
fn cursor_actions_and_their_messages() {
    let mut st = one_unstaged();
    st.untracked.push(FileEntry { path: "new".to_string(), kind: FileKind::Untracked });
    let mut app = app_with(st);
    // Items: spacer, untracked header, "new", spacer, unstaged header, "f", ...
    app.cursor = 1;
    match app.stage_action() {
        rugit::app::CursorAction::StageSection { section, paths } => {
            assert_eq!(section, Section::Untracked);
            assert_eq!(paths, vec!["new".to_string()]);
        },
        _ => panic!("expected the whole section"),
    }
    assert_eq!(app.stage_action().done_message().as_deref(), Some("Staged all untracked files"));
    app.cursor = 2;
    assert_eq!(app.discard_action().done_message().as_deref(), Some("Deleted: new"));
    app.cursor = 5;
    assert_eq!(app.stage_action().done_message().as_deref(), Some("Staged: f"));
    assert!(matches!(app.unstage_action(), rugit::app::CursorAction::Nothing));
    assert_eq!(app.discard_action().done_message().as_deref(), Some("Discarded: f"));
    assert_eq!(rugit::app::hunk_message(PatchOp::Unstage, 0), "Unstaged hunk 1");
    assert_eq!(rugit::app::lines_message(PatchOp::Stage, 2), "Staged 2 line(s)");
    assert_eq!(rugit::session::line_message(PatchOp::Discard), "Discarded line");
}

#[test]
fn carried_out_actions_drop_stale_diffs() {
    let mut app = app_with(RepoStatus::empty());
    let fill = |app: &mut App| {
        app.diff_cache.insert(Section::Staged, "f", "staged diff".to_string());
        app.diff_cache.insert(Section::Unstaged, "f", "unstaged diff".to_string());
        app.diff_cache.insert(Section::Unstaged, "g", "other diff".to_string());
    };
    fill(&mut app);
    app.forget_stale_diffs(&CursorAction::DiscardFile("f".to_string()));
    assert!(app.diff_cache.contains_key(Section::Staged, "f"));
    assert!(!app.diff_cache.contains_key(Section::Unstaged, "f"));
    assert!(app.diff_cache.contains_key(Section::Unstaged, "g"));
    app.forget_stale_diffs(&CursorAction::DiscardStagedFile("f".to_string()));
    assert!(!app.diff_cache.contains_key(Section::Staged, "f"));
    assert!(app.diff_cache.contains_key(Section::Unstaged, "g"));
    app.forget_stale_diffs(&CursorAction::StageFile("g".to_string()));
    assert!(app.diff_cache.contains_key(Section::Unstaged, "g"));
    fill(&mut app);
    app.forget_stale_diffs(&CursorAction::UnstageAll);
    assert!(!app.diff_cache.contains_key(Section::Staged, "f"));
    assert!(!app.diff_cache.contains_key(Section::Unstaged, "g"));
}

#[test]
fn carried_out_actions_say_what_to_read_again() {
    let files = |f: FollowUp| match f {
        FollowUp::RefreshFiles { paths, destination } => Some((paths, destination)),
        _ => None,
    };
    assert_eq!(
        files(CursorAction::StageFile("a".to_string()).follow_up(PatchOp::Stage)),
        Some((vec!["a".to_string()], Section::Staged))
    );
    assert_eq!(
        files(CursorAction::Hunk { file_path: "b".to_string(), hunk_index: 0 }.follow_up(PatchOp::Unstage)),
        Some((vec!["b".to_string()], Section::Unstaged))
    );
    assert_eq!(
        files(CursorAction::Line { file_path: "c".to_string(), hunk_index: 0, line_in_hunk: 2 }.follow_up(PatchOp::Stage)),
        Some((vec!["c".to_string()], Section::Staged))
    );
    assert_eq!(
        files(CursorAction::DiscardHunk { file_path: "d".to_string(), hunk_index: 1 }.follow_up(PatchOp::Discard)),
        Some((vec!["d".to_string()], Section::Unstaged))
    );
    assert!(matches!(CursorAction::DiscardAllStaged.follow_up(PatchOp::Discard), FollowUp::Refresh));
    assert!(matches!(CursorAction::DeleteUntracked("e".to_string()).follow_up(PatchOp::Discard), FollowUp::Refresh));
    assert!(matches!(CursorAction::Nothing.follow_up(PatchOp::Stage), FollowUp::Nothing));
}

#[test]
fn spacers_stand_before_each_group_but_the_first() {
    let mut st = one_unstaged();
    st.staged.push(FileEntry { path: "g".to_string(), kind: FileKind::Added });
    let app = App::new(st, vec![commit("aaa1111", "first")], vec![StashInfo { index: 0, summary: "wip".to_string() }], Config::default());
    let shape: Vec<&str> = app
        .items
        .iter()
        .map(|i| match i {
            StatusItem::Spacer => "spacer",
            StatusItem::Header { .. } | StatusItem::StashHeader { .. } | StatusItem::RecentHeader => "header",
            _ => "item",
        })
        .collect();
    assert_eq!(
        shape,
        vec!["spacer", "header", "item", "spacer", "header", "item", "spacer", "header", "item", "spacer", "header", "item"]
    );
}

#[test]
fn toggling_a_fold_twice_restores_it() {
    let mut app = app_with(one_unstaged());
    app.cursor = 2;
    let key = app.toggle_expand_at_cursor().expect("the diff is fetched first");
    app.finish_expand(key, Ok("@@ -1 +1 @@\n-a\n+b\n".to_string()));
    assert!(app.expanded.contains(Section::Unstaged, "f"));
    assert!(app.toggle_expand_at_cursor().is_none());
    assert!(!app.expanded.contains(Section::Unstaged, "f"));
    assert!(app.toggle_expand_at_cursor().is_none());
    assert!(app.expanded.contains(Section::Unstaged, "f"));
}

#[test]
fn empty_groups_are_not_shown() {
    let app = App::new(RepoStatus::empty(), vec![], vec![], Config::default());
    assert_eq!(app.items.len(), 1);
    assert!(matches!(app.items[0], StatusItem::Spacer));
    let app = app_with(one_unstaged());
    let headers = app.items.iter().filter(|i| matches!(i, StatusItem::Header { .. })).count();
    assert_eq!(headers, 1);
    assert!(!app.items.iter().any(|i| matches!(i, StatusItem::StashHeader { .. } | StatusItem::UnpushedHeader { .. })));
}
