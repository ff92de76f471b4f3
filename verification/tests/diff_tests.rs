use rugit::diff::{hunk_patch, is_change, lines_patch, parse_hunk_starts};
use std::collections::HashSet;

const DIFF: &str = "\
diff --git a/f b/f
--- a/f
+++ b/f
@@ -1,3 +1,3 @@
 keep
-old1
+new1
 tail
@@ -10,2 +10,3 @@
 ctx
-gone
+added1
+added2
";

fn set(ix: &[usize]) -> HashSet<usize> {
    ix.iter().copied().collect()
}

#[test]
fn hunk_patch_keeps_header_and_selected_hunk() {
    assert_eq!(
        hunk_patch(DIFF, 1).unwrap(),
        "diff --git a/f b/f\n--- a/f\n+++ b/f\n@@ -10,2 +10,3 @@\n ctx\n-gone\n+added1\n+added2\n"
    );
    assert!(hunk_patch(DIFF, 2).is_none());
    assert!(hunk_patch("no hunks\n", 0).is_none());
}

#[test]
fn staging_one_addition_drops_others_and_keeps_removals_as_context() {
    // Body of hunk 1: 0 " ctx", 1 "-gone", 2 "+added1", 3 "+added2".
    assert_eq!(
        lines_patch(DIFF, 1, &set(&[2]), false).unwrap(),
        "diff --git a/f b/f\n--- a/f\n+++ b/f\n@@ -10,2 +10,3 @@\n ctx\n gone\n+added1\n"
    );
}

#[test]
fn unstaging_one_removal_keeps_additions_as_context() {
    assert_eq!(
        lines_patch(DIFF, 1, &set(&[1]), true).unwrap(),
        "diff --git a/f b/f\n--- a/f\n+++ b/f\n@@ -10,4 +10,3 @@\n ctx\n-gone\n added1\n added2\n"
    );
}

#[test]
fn selection_without_change_lines_is_none() {
    assert!(lines_patch(DIFF, 0, &set(&[0, 3]), false).is_none());
    assert!(lines_patch(DIFF, 0, &set(&[]), false).is_none());
}

#[test]
fn parses_hunk_starts_with_and_without_counts() {
    assert_eq!(parse_hunk_starts("@@ -10,2 +11,3 @@ fn x()"), Some((10, 11)));
    assert_eq!(parse_hunk_starts("@@ -1 +1 @@"), Some((1, 1)));
    assert_eq!(parse_hunk_starts("not a hunk"), None);
}

#[test]
fn first_hunk_patch_has_only_the_first_hunk() {
    assert_eq!(
        hunk_patch(DIFF, 0).unwrap(),
        "diff --git a/f b/f\n--- a/f\n+++ b/f\n@@ -1,3 +1,3 @@\n keep\n-old1\n+new1\n tail\n"
    );
}

#[test]
fn staging_both_lines_of_first_hunk_keeps_counts() {
    assert_eq!(
        lines_patch(DIFF, 0, &set(&[1, 2]), false).unwrap(),
        "diff --git a/f b/f\n--- a/f\n+++ b/f\n@@ -1,3 +1,3 @@\n keep\n-old1\n+new1\n tail\n"
    );
}

#[test]
fn discarding_one_addition_drops_the_removal() {
    // Reverse: unselected removals are dropped, unselected additions become context.
    assert_eq!(
        lines_patch(DIFF, 1, &set(&[3]), true).unwrap(),
        "diff --git a/f b/f\n--- a/f\n+++ b/f\n@@ -10,2 +10,3 @@\n ctx\n added1\n+added2\n"
    );
}

#[test]
fn missing_hunk_gives_no_line_patch() {
    assert!(lines_patch(DIFF, 5, &set(&[1]), false).is_none());
    assert!(lines_patch("plain text\n", 0, &set(&[0]), false).is_none());
}

#[test]
fn change_lines_start_with_plus_or_minus() {
    assert!(is_change("+a"));
    assert!(is_change("-a"));
    assert!(!is_change(" a"));
    assert!(!is_change(""));
}

#[test]
fn hunk_header_without_space_is_not_parsed() {
    assert_eq!(parse_hunk_starts("@@ -x +1 @@"), None);
    assert_eq!(parse_hunk_starts("@@ -5,1"), None);
}

#[test]
fn hunks_and_file_header_make_up_the_diff() {
    let header = "diff --git a/f b/f\n--- a/f\n+++ b/f\n";
    let h0 = hunk_patch(DIFF, 0).unwrap();
    let h1 = hunk_patch(DIFF, 1).unwrap();
    assert!(h0.starts_with(header) && h1.starts_with(header));
    let whole = format!("{}{}{}", header, &h0[header.len()..], &h1[header.len()..]);
    assert_eq!(whole, DIFF);
    assert!(h0[header.len()..].starts_with("@@"));
    assert!(hunk_patch(DIFF, 2).is_none());
}

#[test]
fn context_indices_in_a_selection_change_nothing() {
    for reverse in [false, true] {
        assert_eq!(lines_patch(DIFF, 1, &set(&[1]), reverse), lines_patch(DIFF, 1, &set(&[1, 0, 9]), reverse));
        assert_eq!(lines_patch(DIFF, 0, &set(&[0, 3]), reverse), None);
    }
}

#[test]
fn selecting_every_change_line_gives_the_hunk_patch() {
    for reverse in [false, true] {
        assert_eq!(lines_patch(DIFF, 0, &set(&[1, 2]), reverse), hunk_patch(DIFF, 0));
        assert_eq!(lines_patch(DIFF, 1, &set(&[1, 2, 3]), reverse), hunk_patch(DIFF, 1));
    }
}
