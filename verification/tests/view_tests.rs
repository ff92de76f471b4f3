use rugit::app::{BranchNameInputState, BranchNameMode, DiffText, EditorMode, Section, StatusItem};
use rugit::backend::{BranchInfo, CommitInfo, FileEntry, FileKind, RepoStatus, StashInfo};
use rugit::view::{
    branch_prompt, branch_row, comments_height, editor_cursor, editor_status, footer_line, header_line, in_visual,
    kind_prefix, list_start, log_row, log_title, preview_tone, search_prompt, selection_prefix, stash_row,
    status_item_segments, Mark, Segment, Tone,
};

fn texts(v: &[Segment]) -> Vec<(&str, Tone)> {
    v.iter().map(|s| (s.text.as_str(), s.tone)).collect()
}

#[test]
fn file_items_show_kind_path_and_fold_mark() {
    let item = StatusItem::File {
        entry: FileEntry { path: "src/x.rs".to_string(), kind: FileKind::Added },
        section: Section::Staged,
        is_expanded: false,
    };
    assert_eq!(
        texts(&status_item_segments(&item)),
        vec![
            ("  ", Tone::Plain),
            ("A ", Tone::Kind(Mark::New)),
            ("src/x.rs", Tone::Plain),
            ("…", Tone::Dim),
        ]
    );
}

#[test]
fn headers_and_diff_lines() {
    let h = StatusItem::Header { label: "Staged Changes", count: 12, section: Section::Staged };
    assert_eq!(texts(&status_item_segments(&h)), vec![("Staged Changes (12)", Tone::Heading(Section::Staged))]);
    let d = StatusItem::DiffLine {
        line: DiffText::new("-gone".to_string()),
        file_path: "f".to_string(),
        section: Section::Unstaged,
        hunk_index: 0,
        line_in_hunk: 1,
    };
    assert_eq!(texts(&status_item_segments(&d)), vec![("    -gone", Tone::Removed)]);
    let s = StatusItem::StashEntry { info: StashInfo { index: 2, summary: "WIP".to_string() } };
    assert_eq!(
        texts(&status_item_segments(&s)),
        vec![("  ", Tone::Plain), ("stash@{2} ", Tone::StashName), ("WIP", Tone::Plain)]
    );
    assert!(status_item_segments(&StatusItem::Spacer).is_empty());
}

#[test]
fn kind_marks_and_selection() {
    assert_eq!(kind_prefix(&FileKind::Conflicted), "!");
    assert_eq!(kind_prefix(&FileKind::Untracked), "?");
    assert_eq!(selection_prefix(true), "> ");
    assert_eq!(selection_prefix(false), "  ");
    assert!(in_visual(3, 5, Some((2, 6))));
    assert!(!in_visual(5, 5, Some((2, 6))));
    assert!(!in_visual(7, 5, Some((2, 6))));
    assert!(!in_visual(3, 5, None));
}

#[test]
fn header_shows_branch_hash_and_summary() {
    let mut st = RepoStatus::empty();
    assert_eq!(
        texts(&header_line("git", &st)),
        vec![(" git ", Tone::Backend), ("│ (no commits yet)", Tone::Plain)]
    );
    st.head = Some("main".to_string());
    st.head_short_hash = Some("abc1234".to_string());
    st.head_summary = Some("fix".to_string());
    assert_eq!(
        texts(&header_line("jj", &st)),
        vec![
            (" jj ", Tone::Backend),
            ("│ ", Tone::Plain),
            ("head: main · abc1234 ", Tone::Head),
            ("fix", Tone::Plain),
        ]
    );
}

#[test]
fn footer_shows_message_or_keys() {
    let m = footer_line(&Some("Pushed.".to_string()));
    assert_eq!(texts(&m), vec![(" ", Tone::Plain), ("Pushed.", Tone::Message)]);
    let keys = footer_line(&None);
    assert_eq!(keys.len(), 1 + 13 * 2 + 12);
    let line: String = keys.iter().map(|s| s.text.as_str()).collect();
    assert_eq!(
        line,
        " [s/S]tage  [u/U]nstage  [x]discard  [Tab]expand  [c]ommit  [z]stash  [p]ush  [F]pull  [b]ranch  [l]og  [g]refresh  [?]help  [q]uit"
    );
}

#[test]
fn log_title_counts_matches() {
    assert_eq!(log_title(&None, 3), None);
    assert_eq!(log_title(&Some(String::new()), 3), None);
    assert_eq!(log_title(&Some("fix".to_string()), 1).unwrap(), " /fix (1 match) — Esc to clear ");
    assert_eq!(log_title(&Some("fix".to_string()), 4).unwrap(), " /fix (4 matches) — Esc to clear ");
    let c = CommitInfo { short_hash: "abc".to_string(), summary: "s".to_string(), author: "Ada".to_string() };
    assert_eq!(texts(&log_row(&c)), vec![("abc ", Tone::LogHash), ("Ada ", Tone::Author), ("s", Tone::Plain)]);
}

#[test]
fn popup_rows_and_prompts() {
    assert_eq!(list_start(3, 10), 0);
    assert_eq!(list_start(12, 10), 3);
    let s = stash_row(&StashInfo { index: 1, summary: "x".to_string() }, true);
    assert_eq!((s.text.as_str(), s.tone), ("> stash@{1}: x", Tone::Selected));
    let b = BranchInfo { name: "main".to_string(), is_current: true };
    assert_eq!(
        texts(&branch_row(&b, false)),
        vec![("  ", Tone::Plain), ("* ", Tone::Current), ("main", Tone::Current)]
    );
    let st = BranchNameInputState { input: "new".to_string(), mode: BranchNameMode::Rename, original: "old".to_string() };
    let (title, prompt) = branch_prompt(&st);
    assert_eq!(title, " Rename branch ");
    assert_eq!(prompt, "  Rename 'old' to: new_");
    assert_eq!(search_prompt("ab"), "  /ab_");
}

#[test]
fn preview_lines_are_toned() {
    assert_eq!(preview_tone("+added"), Tone::Added);
    assert_eq!(preview_tone("+++ b/f"), Tone::Plain);
    assert_eq!(preview_tone("--- a/f"), Tone::Plain);
    assert_eq!(preview_tone("-x"), Tone::Removed);
    assert_eq!(preview_tone("@@ -1 +1 @@"), Tone::Hunk);
    assert_eq!(preview_tone("Author: me"), Tone::Header);
    assert_eq!(preview_tone("plain"), Tone::Plain);
}

#[test]
fn editor_layout_and_cursor() {
    assert_eq!(comments_height(0, 40), 0);
    assert_eq!(comments_height(4, 40), 5);
    assert_eq!(comments_height(30, 40), 20);
    let lines = vec!["abc".to_string(), "日本".to_string()];
    assert_eq!(editor_cursor(10, 5, 20, &lines, 0, 2), Some((12, 5)));
    // Wide characters take two columns each.
    assert_eq!(editor_cursor(10, 5, 20, &lines, 1, 2), Some((14, 6)));
    assert_eq!(editor_cursor(10, 5, 3, &lines, 0, 3), None);
    assert_eq!(editor_cursor(10, 5, 20, &lines, 2, 0), None);
    assert_eq!(editor_status(EditorMode::Normal, true).len(), 1);
    assert_eq!(editor_status(EditorMode::Normal, false).len(), 13);
    assert_eq!(editor_status(EditorMode::Insert, false)[0].text, " -- INSERT --  (Esc: normal mode)");
}
