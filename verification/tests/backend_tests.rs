use rugit::backend::git::{
    build_status, check_reword_message, commit_info, diff_text, head_label, needs_upstream, rebase_base, reword_file, short_hash,
    sort_branches, stash_entries, stash_ref, DiffLine, StatusEntry, StatusFlags, UnpushedTally,
    UNPUSHED_DISPLAY_LIMIT,
};
use rugit::backend::jj::{log_args, parse_log, parse_status, JjBackend};
use rugit::backend::{
    choose_backend, detect_backend, find_jj_root, path_ancestors, BackendKind, BranchInfo, CommitInfo, Detected,
    FileKind,
};
use rugit::config::Config;

fn no_flags() -> StatusFlags {
    StatusFlags {
        index_new: false,
        index_modified: false,
        index_deleted: false,
        index_renamed: false,
        wt_new: false,
        wt_modified: false,
        wt_deleted: false,
        wt_renamed: false,
        conflicted: false,
    }
}

fn entry(path: &str, flags: StatusFlags) -> StatusEntry {
    StatusEntry { path: path.to_string(), flags, renamed_in_index: None, renamed_in_worktree: None }
}

#[test]
fn jj_status_sorts_codes_and_trims_paths() {
    let out = "Working copy changes:\nM src/a.rs \nA new.txt\nD gone.txt\nR x => y\n";
    let st = parse_status(out);
    assert_eq!(st.staged.len(), 1);
    assert_eq!(st.staged[0].path, "new.txt");
    assert_eq!(st.staged[0].kind, FileKind::Added);
    assert_eq!(st.unstaged.len(), 2);
    assert_eq!(st.unstaged[0].path, "src/a.rs");
    assert_eq!(st.unstaged[0].kind, FileKind::Modified);
    assert_eq!(st.unstaged[1].path, "gone.txt");
    assert_eq!(st.unstaged[1].kind, FileKind::Deleted);
    assert!(st.untracked.is_empty());
    assert!(st.head.is_none());
}

#[test]
fn jj_log_needs_four_fields() {
    let out = "abc\x1ffix bug\x1fAda\x1f2024-01-01\nonly\x1ftwo\nxyz\x1f\x1fBob\x1f\x1fextra\n";
    let log = parse_log(out);
    assert_eq!(log.len(), 2);
    assert_eq!(log[0].short_hash, "abc");
    assert_eq!(log[0].summary, "fix bug");
    assert_eq!(log[0].author, "Ada");
    assert_eq!(log[1].short_hash, "xyz");
    assert_eq!(log[1].summary, "");
    assert_eq!(log[1].author, "Bob");
}

#[test]
fn jj_log_args_ask_for_the_limit() {
    let args = log_args(25);
    assert_eq!(args[0], "log");
    assert_eq!(args[5], "-n");
    assert_eq!(args[6], "25");
    assert!(args[4].starts_with("separate("));
}

#[test]
fn jj_backend_needs_a_root() {
    let ok = JjBackend::new(Some("/repo".to_string()), "/repo/sub").unwrap();
    assert_eq!(ok.repo_root(), "/repo");
    assert_eq!(ok.kind_name(), "jj");
    match JjBackend::new(None, "/tmp/x") {
        Err(e) => assert_eq!(e, "No .jj directory found from /tmp/x"),
        Ok(_) => panic!("expected an error"),
    }
}

#[test]
fn git_status_lists_each_side() {
    let mut both = no_flags();
    both.index_modified = true;
    both.wt_modified = true;
    let mut untracked = no_flags();
    untracked.wt_new = true;
    let mut renamed = no_flags();
    renamed.index_renamed = true;
    let mut conflict = no_flags();
    conflict.wt_modified = true;
    conflict.conflicted = true;
    let mut r = entry("old", renamed);
    r.renamed_in_index = Some("new".to_string());
    let entries = vec![entry("a", both), entry("u", untracked), r, entry("c", conflict)];
    let st = build_status(&entries, Some("main".to_string()), None, None, None, vec![], 0);
    let staged: Vec<(&str, FileKind)> = st.staged.iter().map(|e| (e.path.as_str(), e.kind.clone())).collect();
    assert_eq!(staged, vec![("a", FileKind::Modified), ("old", FileKind::Renamed("new".to_string()))]);
    let unstaged: Vec<(&str, FileKind)> = st.unstaged.iter().map(|e| (e.path.as_str(), e.kind.clone())).collect();
    assert_eq!(
        unstaged,
        vec![("a", FileKind::Modified), ("c", FileKind::Modified), ("c", FileKind::Conflicted)]
    );
    assert_eq!(st.untracked.len(), 1);
    assert_eq!(st.untracked[0].path, "u");
    assert_eq!(st.head.as_deref(), Some("main"));
}

#[test]
fn worktree_rename_without_path_is_empty() {
    let mut f = no_flags();
    f.wt_renamed = true;
    let st = build_status(&vec![entry("p", f)], None, None, None, None, vec![], 0);
    assert_eq!(st.unstaged[0].kind, FileKind::Renamed(String::new()));
}

#[test]
fn detached_head_is_parenthesised() {
    assert_eq!(head_label("main", true), "main");
    assert_eq!(head_label("abc1234", false), "(abc1234)");
}

#[test]
fn short_hash_is_seven_chars() {
    assert_eq!(short_hash("0123456789abcdef"), "0123456");
    assert_eq!(short_hash("abc"), "abc");
    let c = commit_info("deadbeefcafe", Some("sum"), None);
    assert_eq!(c.short_hash, "deadbee");
    assert_eq!(c.summary, "sum");
    assert_eq!(c.author, "");
}

#[test]
fn printed_diff_keeps_marks_and_drops_others() {
    let lines = vec![
        DiffLine { origin: 'F', content: "diff --git a/f b/f\n".to_string() },
        DiffLine { origin: 'H', content: "@@ -1 +1 @@\n".to_string() },
        DiffLine { origin: '-', content: "a\n".to_string() },
        DiffLine { origin: '+', content: "b\n".to_string() },
        DiffLine { origin: ' ', content: "c\n".to_string() },
    ];
    assert_eq!(diff_text(&lines), "diff --git a/f b/f\n@@ -1 +1 @@\n-a\n+b\n c\n");
}

#[test]
fn push_without_upstream_is_recognised() {
    assert!(needs_upstream("fatal: The current branch x has no upstream branch."));
    assert!(needs_upstream("error: no upstream branch configured"));
    assert!(!needs_upstream("rejected: non-fast-forward"));
}

#[test]
fn rebase_starts_at_parent_or_root() {
    assert_eq!(rebase_base("abc", true), "abc^");
    assert_eq!(rebase_base("abc", false), "--root");
}

#[test]
fn reword_file_has_amend_subject() {
    assert_eq!(reword_file("f00", "new subject\n\nbody  \n"), "amend! f00\n\nnew subject\n\nbody\n");
}

#[test]
fn stash_names_and_numbers() {
    assert_eq!(stash_ref(3), "stash@{3}");
    let s = stash_entries(&vec![Some("WIP on main".to_string()), None]);
    assert_eq!(s.len(), 2);
    assert_eq!((s[0].index, s[0].summary.as_str()), (0, "WIP on main"));
    assert_eq!((s[1].index, s[1].summary.as_str()), (1, ""));
}

#[test]
fn unpushed_details_are_capped_but_all_counted() {
    let mut t = UnpushedTally::new();
    for i in 0..150 {
        if t.count_one() {
            t.add(CommitInfo { short_hash: format!("{i}"), summary: String::new(), author: String::new() });
        }
    }
    assert_eq!(t.total, 150);
    assert_eq!(t.commits.len(), UNPUSHED_DISPLAY_LIMIT);
}

#[test]
fn branches_current_first_then_by_name() {
    let b = |n: &str, c: bool| BranchInfo { name: n.to_string(), is_current: c };
    let sorted = sort_branches(vec![b("zeta", false), b("feature", true), b("alpha", false), b("Beta", false)]);
    let names: Vec<&str> = sorted.iter().map(|b| b.name.as_str()).collect();
    assert_eq!(names, vec!["feature", "Beta", "alpha", "zeta"]);
    assert!(sorted[0].is_current);
}

#[test]
fn ancestors_go_up_to_the_root() {
    assert_eq!(path_ancestors("/a/b"), vec!["/a/b", "/a", "/"]);
    assert_eq!(path_ancestors("."), vec![".", ""]);
}

#[test]
fn jj_root_is_the_nearest_marked_ancestor() {
    let dirs = path_ancestors("/a/b/c");
    assert_eq!(find_jj_root(&dirs, &vec![false, true, true, false]), Some("/a/b".to_string()));
    assert_eq!(find_jj_root(&dirs, &vec![false, false]), None);
}

#[test]
fn backend_choice_prefers_flag_then_config_then_jj_dir() {
    assert_eq!(BackendKind::parse("JJ"), Some(BackendKind::Jj));
    assert_eq!(BackendKind::parse("Git"), Some(BackendKind::Git));
    assert_eq!(BackendKind::parse("hg"), None);
    assert_eq!(choose_backend(Some(BackendKind::Git), Some("jj"), true), BackendKind::Git);
    assert_eq!(choose_backend(None, Some("jj"), false), BackendKind::Jj);
    assert_eq!(choose_backend(None, Some("svn"), true), BackendKind::Jj);
    assert_eq!(choose_backend(None, None, false), BackendKind::Git);
}

#[test]
fn detecting_jj_without_root_fails() {
    let mut config = Config::default();
    config.backend = Some("jj".to_string());
    match detect_backend("/tmp/p", None, &config, None) {
        Err(e) => assert_eq!(e, "No .jj directory found from /tmp/p"),
        Ok(_) => panic!("expected an error"),
    }
    match detect_backend("/tmp/p", None, &Config::default(), Some("/tmp".to_string())) {
        Ok(Detected::Jj(b)) => assert_eq!(b.root, "/tmp"),
        _ => panic!("expected jj"),
    }
    assert!(matches!(detect_backend("/tmp/p", None, &Config::default(), None), Ok(Detected::Git)));
}

#[test]
fn config_defaults() {
    let c = Config::default();
    assert_eq!((c.backend, c.log_limit, c.recent_limit), (None, 50, 10));
}

#[test]
fn file_kinds_describe_themselves() {
    assert_eq!(FileKind::Renamed("b".to_string()).describe(), "renamed → b");
    assert_eq!(FileKind::Untracked.describe(), "untracked");
}

#[test]
fn reword_needs_a_message() {
    assert_eq!(check_reword_message(" \n\t "), Err("empty commit message".to_string()));
    assert_eq!(check_reword_message(""), Err("empty commit message".to_string()));
    assert_eq!(check_reword_message("  new subject\n"), Ok(()));
}
