//! Properties that span several functions of the library.

use vstd::prelude::*;

use crate::app::{
    ActiveBuffer, App, FileKey, ItemView, Section, begin_section, diff_items, file_at, file_items, key_view,
    spec_section_entries, spec_status_items, with_files, first_selectable, items_view, last_selectable,
    selectable, spec_selectable_at_or_before,
};
use crate::diff::{
    all_digits, count_side, decimal, digits_value, has_selected_change, hunk_header_text, hunk_range, hunk_starts,
    is_digit, is_hunk_header, join_lines, lemma_hunk_range, lemma_hunk_starts, parse_u32, patch_body, patch_line,
    side_start, spec_hunk_patch, spec_is_change, spec_lines_patch, spec_parse_hunk_starts, split_once, strip_prefix,
};
use crate::text::{first_index_of, lemma_first_index_of, lemma_first_index_of_props, lines_of, starts_with_char, strip_cr};
use crate::editor::{
    EditorKeys, EditorOutcome, after_delete_to_end, cursor_valid, dd_effect, join_rows, spec_editor_step,
};
use crate::keybindings::{Action, Key, KeyCode, spec_key_to_action};
use crate::session::{Route, toggle_post, action_post, cursor_after_down, cursor_after_up, key_post, key_route, stash_list_ok};

verus! {

/// Where the hunk `h` of `ls` has body line `i`: the line after its header
/// at offset `i`, inside the hunk.
pub open spec fn body_line_at(ls: Seq<Seq<char>>, h: int, i: int, line: Seq<char>) -> bool {
    let (lo, hi) = hunk_range(ls, h);
    &&& 0 <= h < hunk_starts(ls).len()
    &&& 0 <= i
    &&& lo + 1 + i < hi
    &&& ls[lo + 1 + i] == line
    &&& ls.subrange(lo + 1, hi)[i] == line
}

proof fn lemma_hunk_starts_step(ls: Seq<Seq<char>>)
    requires
        ls.len() > 0,
    ensures
        hunk_starts(ls) == if is_hunk_header(ls.last()) {
            hunk_starts(ls.drop_last()).push(ls.len() - 1)
        } else {
            hunk_starts(ls.drop_last())
        },
{
}

/// A hunk of `ls` without its last line keeps its header and grows by at
/// most that line in `ls`.
proof fn lemma_range_grows(ls: Seq<Seq<char>>, h: int)
    requires
        ls.len() > 0,
        0 <= h < hunk_starts(ls.drop_last()).len(),
    ensures
        h < hunk_starts(ls).len(),
        hunk_starts(ls)[h] == hunk_starts(ls.drop_last())[h],
        hunk_range(ls, h).0 == hunk_range(ls.drop_last(), h).0,
        hunk_range(ls.drop_last(), h).1 <= hunk_range(ls, h).1,
{
    let p = ls.drop_last();
    lemma_hunk_starts_step(ls);
    lemma_hunk_starts(p);
    let hs = hunk_starts(p);
    if h + 1 < hs.len() {
        assert(hunk_starts(ls)[h + 1] == hs[h + 1]);
    } else if is_hunk_header(ls.last()) {
        assert(hunk_starts(ls)[h + 1] == ls.len() - 1);
    }
}

/// What a diff line item says of its hunk body.
pub open spec fn diff_line_fact(ls: Seq<Seq<char>>, line: Seq<char>, hunk_index: usize, line_in_hunk: usize) -> bool {
    &&& body_line_at(ls, hunk_index as int, line_in_hunk as int, line)
    &&& spec_is_change(line) ==> has_selected_change(
        ls.subrange(hunk_range(ls, hunk_index as int).0 + 1, hunk_range(ls, hunk_index as int).1),
        set![line_in_hunk],
    )
}

proof fn lemma_fact_from_line(ls: Seq<Seq<char>>, line: Seq<char>, h: usize, i: usize)
    requires
        0 <= h < hunk_starts(ls).len(),
        hunk_range(ls, h as int).0 + 1 + i < hunk_range(ls, h as int).1,
        hunk_range(ls, h as int).1 <= ls.len(),
        0 <= hunk_range(ls, h as int).0,
        ls[hunk_range(ls, h as int).0 + 1 + i] == line,
    ensures
        diff_line_fact(ls, line, h, i),
{
    let (lo, hi) = hunk_range(ls, h as int);
    let body = ls.subrange(lo + 1, hi);
    assert(body[i as int] == line);
    if spec_is_change(line) {
        assert(spec_is_change(body[i as int]) && set![i].contains(i));
    }
}

proof fn lemma_old_item(ls: Seq<Seq<char>>, line: Seq<char>, h: usize, i: usize)
    requires
        ls.len() > 0,
        diff_line_fact(ls.drop_last(), line, h, i),
    ensures
        diff_line_fact(ls, line, h, i),
{
    let p = ls.drop_last();
    lemma_range_grows(ls, h as int);
    lemma_hunk_range_bounds(p, h as int);
    lemma_hunk_range_bounds(ls, h as int);
    let (lo, hi) = hunk_range(p, h as int);
    assert(ls[lo + 1 + i] == p[lo + 1 + i]);
    lemma_fact_from_line(ls, line, h, i);
}

proof fn lemma_hunk_range_bounds(ls: Seq<Seq<char>>, h: int)
    requires
        0 <= h < hunk_starts(ls).len(),
    ensures
        0 <= hunk_range(ls, h).0 < hunk_range(ls, h).1 <= ls.len(),
{
    crate::diff::lemma_hunk_range(ls, h);
}

proof fn lemma_new_line_item(ls: Seq<Seq<char>>)
    requires
        ls.len() > 0,
        ls.len() <= usize::MAX,
        !is_hunk_header(ls.last()),
        hunk_starts(ls.drop_last()).len() > 0,
    ensures
        ({
            let hs = hunk_starts(ls.drop_last());
            let k = ls.len() - 1;
            &&& k - hs.last() - 1 >= 0
            &&& diff_line_fact(ls, ls[k], (hs.len() - 1) as usize, (k - hs.last() - 1) as usize)
        }),
{
    let p = ls.drop_last();
    let hs = hunk_starts(p);
    let k = ls.len() - 1;
    lemma_hunk_starts(p);
    lemma_hunk_starts_step(ls);
    assert(hs[hs.len() - 1] < p.len());
    let h = hs.len() - 1;
    assert(hs.len() <= p.len()) by {
        lemma_starts_len(p);
    }
    assert(hunk_range(ls, h).0 == hs.last());
    assert(hunk_range(ls, h).1 == ls.len());
    lemma_fact_from_line(ls, ls[k], h as usize, (k - hs.last() - 1) as usize);
}

proof fn lemma_starts_len(ls: Seq<Seq<char>>)
    ensures
        hunk_starts(ls).len() <= ls.len(),
    decreases ls.len(),
{
    if ls.len() > 0 {
        lemma_starts_len(ls.drop_last());
    }
}

/// The diff lines that the status buffer lists for a diff are numbered as
/// the patches count them: a diff line item with hunk `h` and index `i`
/// is line `i` of the body of hunk `h`, so selecting `i` in that hunk
/// selects exactly that line, and a header item is its hunk's header.
pub proof fn law_diff_items_match_hunk_bodies(ls: Seq<Seq<char>>, file_path: Seq<char>, section: Section, j: int)
    requires
        0 <= j < diff_items(ls, file_path, section).len(),
        ls.len() <= usize::MAX,
    ensures
        match diff_items(ls, file_path, section)[j] {
            ItemView::DiffLine { line, hunk_index, line_in_hunk, .. } => diff_line_fact(
                ls,
                line,
                hunk_index,
                line_in_hunk,
            ),
            ItemView::HunkHeader { line, hunk_index, .. } => 0 <= hunk_index < hunk_starts(ls).len()
                && ls[hunk_starts(ls)[hunk_index as int]] == line,
            _ => false,
        },
    decreases ls.len(),
{
    let k = ls.len() - 1;
    let p = ls.drop_last();
    let prev = diff_items(p, file_path, section);
    let hs = hunk_starts(p);
    lemma_hunk_starts_step(ls);
    if j < prev.len() {
        law_diff_items_match_hunk_bodies(p, file_path, section, j);
        assert(diff_items(ls, file_path, section)[j] == prev[j]);
        match prev[j] {
            ItemView::DiffLine { line, hunk_index, line_in_hunk, .. } => {
                lemma_old_item(ls, line, hunk_index, line_in_hunk);
            },
            ItemView::HunkHeader { line, hunk_index, .. } => {
                lemma_hunk_starts(p);
                lemma_starts_len(p);
                assert(hunk_starts(ls)[hunk_index as int] == hs[hunk_index as int]);
                assert(ls[hs[hunk_index as int]] == p[hs[hunk_index as int]]);
            },
            _ => {},
        }
    } else {
        if is_hunk_header(ls[k]) {
            lemma_starts_len(p);
            assert(hunk_starts(ls)[hs.len() as int] == k);
        } else {
            lemma_new_line_item(ls);
        }
    }
}

/// Whether the status buffer's cursor is somewhere it may rest: on an item,
/// and not on a context line unless it is the first item.
pub open spec fn cursor_rests(app: App) -> bool {
    let v = items_view(app.items@);
    &&& app.cursor < v.len()
    &&& v.len() <= usize::MAX
    &&& (app.cursor == 0 || selectable(v, app.cursor as int))
}

/// Moving up or down in the status buffer never lands on a context line:
/// the cursor rests wherever it rested before.
pub proof fn law_moves_skip_context_lines(app: App)
    requires
        app.buffer == ActiveBuffer::Status,
        cursor_rests(app),
    ensures
        cursor_rests(App { cursor: cursor_after_down(app), ..app }),
        cursor_rests(App { cursor: cursor_after_up(app), ..app }),
{
    let v = items_view(app.items@);
    crate::app::lemma_first_selectable(v, app.cursor + 1, v.len() as int);
    if app.cursor > 0 {
        crate::app::lemma_last_selectable(v, 1, app.cursor as int);
    }
}

/// Paging down in the status buffer, as `App::move_page_down` does.
pub open spec fn cursor_after_page_down(app: App, amount: usize) -> usize {
    let n = app.items@.len() as int;
    let v = items_view(app.items@);
    let c = app.cursor as int;
    let target = if c + amount < n - 1 { c + amount } else { n - 1 };
    match first_selectable(v, target, n) {
        Some(i) => i as usize,
        None => match last_selectable(v, c + 1, target + 1) {
            Some(i) => i as usize,
            None => app.cursor,
        },
    }
}

/// Paging up in the status buffer, as `App::move_page_up` does.
pub open spec fn cursor_after_page_up(app: App, amount: usize) -> usize {
    let back = if app.cursor >= amount { app.cursor - amount } else { 0 };
    spec_selectable_at_or_before(items_view(app.items@), back as int) as usize
}

/// Paging never lands on a context line either.
pub proof fn law_pages_skip_context_lines(app: App, amount: usize)
    requires
        app.buffer == ActiveBuffer::Status,
        cursor_rests(app),
    ensures
        cursor_rests(App { cursor: cursor_after_page_down(app, amount), ..app }),
        cursor_rests(App { cursor: cursor_after_page_up(app, amount), ..app }),
{
    let v = items_view(app.items@);
    let n = v.len() as int;
    let c = app.cursor as int;
    let target = if c + amount < n - 1 { c + amount } else { n - 1 };
    crate::app::lemma_first_selectable(v, target, n);
    crate::app::lemma_last_selectable(v, c + 1, target + 1);
    let back = if app.cursor >= amount { app.cursor - amount } else { 0 };
    crate::app::lemma_last_selectable(v, 1, back + 1);
}

/// The stash list's cursor always points at a stash: opening the list puts
/// it on the first, and no key moves it off the list.
pub proof fn law_stash_cursor_stays_on_a_stash(o: App, n: App, key: Key, r: crate::session::Command)
    requires
        stash_list_ok(o),
        key_post(o, n, key, r),
    ensures
        stash_list_ok(n),
{
    match key_route(o, key) {
        Route::StashList => {},
        Route::KeyMap => {
            let mid = App { status_msg: None, pending_key: None, ..o };
            assert(action_post(mid, n, spec_key_to_action(key, o.pending_key), r));
            assert(n.stash_list == o.stash_list);
        },
        _ => {
            assert(n.stash_list == o.stash_list);
        },
    }
}

/// Whether an action starts a chord.
pub open spec fn begins_chord(a: Action) -> bool {
    a == Action::CommitBegin || a == Action::PushBegin || a == Action::StashBegin || a == Action::BranchBegin
}

/// A chord's first key applies to the next key only: any key through the
/// key map that does not itself start a chord leaves no key pending.
pub proof fn law_chord_key_used_once(o: App, n: App, key: Key, r: crate::session::Command)
    requires
        key_post(o, n, key, r),
        key_route(o, key) == Route::KeyMap,
        !begins_chord(spec_key_to_action(key, o.pending_key)),
    ensures
        n.pending_key is None,
{
    let mid = App { status_msg: None, pending_key: None, ..o };
    assert(action_post(mid, n, spec_key_to_action(key, o.pending_key), r));
}

/// Ctrl-C Ctrl-C in the editor: the first press arms, the second saves.
pub proof fn law_ctrl_c_twice_saves(k: EditorKeys)
    requires
        !k.pending_ctrl_c,
    ensures
        ({
            let ctrl_c = Key { code: KeyCode::Char('c'), ctrl: true, alt: false, shift: false };
            let (k1, ops1, o1) = spec_editor_step(k, ctrl_c);
            let (k2, ops2, o2) = spec_editor_step(k1, ctrl_c);
            &&& o1 == EditorOutcome::Continue && k1.pending_ctrl_c && ops1.len() == 0
            &&& o2 == EditorOutcome::Save && !k2.pending_ctrl_c && ops2.len() == 0
        }),
{
}

/// `dd` in the editor deletes the cursor's line (leaving one empty line
/// when it was the only one), when nothing is selected and the line is not
/// an empty line with more lines below it.
pub proof fn law_dd_deletes_the_cursor_line(lines: Seq<Seq<char>>, cur: (usize, usize))
    requires
        cursor_valid(lines, cur),
        lines[cur.0 as int].len() > 0 || cur.0 + 1 == lines.len(),
    ensures
        dd_effect(lines, cur).0 == (if lines.len() == 1 {
            seq![Seq::<char>::empty()]
        } else {
            lines.remove(cur.0 as int)
        }),
{
    let r = cur.0 as int;
    let s = after_delete_to_end(lines, (cur.0, 0usize));
    if lines[r].len() > 0 {
        assert(s.0 == lines.update(r, lines[r].take(0)));
        assert(lines[r].take(0) =~= Seq::<char>::empty());
        if r + 1 < lines.len() {
            assert(join_rows(s.0, r) =~= lines.remove(r));
        } else if r > 0 {
            assert(s.0[r - 1] + s.0[r] =~= lines[r - 1]);
            assert(join_rows(s.0, r - 1) =~= lines.remove(r));
        } else {
            assert(s.0 =~= seq![Seq::<char>::empty()]);
        }
    } else {
        assert(s.0 == lines);
        if r > 0 {
            assert(lines[r - 1] + lines[r] =~= lines[r - 1]);
            assert(join_rows(lines, r - 1) =~= lines.remove(r));
        } else {
            assert(lines.len() == 1);
            assert(lines[0] =~= Seq::<char>::empty());
            assert(lines =~= seq![Seq::<char>::empty()]);
        }
    }
}


// ---------------------------------------------------------------------------
// The hunks of a diff
// ---------------------------------------------------------------------------

/// No carriage return anywhere in `s`.
pub open spec fn no_cr(s: Seq<char>) -> bool {
    forall|i: int| 0 <= i < s.len() ==> s[i] != '\r'
}

/// The file header of a diff: its lines before the first hunk.
pub open spec fn diff_file_header(diff: Seq<char>) -> Seq<char> {
    let ls = lines_of(diff);
    join_lines(ls.take(hunk_starts(ls)[0]))
}

/// The text of hunk `i` of a diff, its header line included.
pub open spec fn hunk_text(diff: Seq<char>, i: int) -> Seq<char> {
    let ls = lines_of(diff);
    let (lo, hi) = hunk_range(ls, i);
    join_lines(ls.subrange(lo, hi))
}

/// The texts of the first `n` hunks of a diff, one after the other.
pub open spec fn hunks_text(diff: Seq<char>, n: nat) -> Seq<char>
    decreases n,
{
    if n == 0 {
        seq![]
    } else {
        hunks_text(diff, (n - 1) as nat) + hunk_text(diff, n - 1)
    }
}

proof fn lemma_join_lines_append(a: Seq<Seq<char>>, b: Seq<Seq<char>>)
    ensures
        join_lines(a + b) == join_lines(a) + join_lines(b),
    decreases b.len(),
{
    if b.len() == 0 {
        assert(a + b =~= a);
    } else {
        lemma_join_lines_append(a, b.drop_last());
        assert((a + b).drop_last() =~= a + b.drop_last());
        assert((a + b).last() == b.last());
    }
}

proof fn lemma_join_lines_cons(x: Seq<char>, rest: Seq<Seq<char>>)
    ensures
        join_lines(seq![x] + rest) == x + seq!['\n'] + join_lines(rest),
{
    lemma_join_lines_append(seq![x], rest);
    let one = seq![x];
    assert(one.drop_last() =~= Seq::<Seq<char>>::empty());
    assert(one.last() == x);
    assert(join_lines(Seq::<Seq<char>>::empty()) =~= Seq::<char>::empty());
    assert(join_lines(one) == join_lines(one.drop_last()) + one.last() + seq!['\n']);
    assert(join_lines(one) =~= x + seq!['\n']);
}

/// A text without carriage returns that ends with a line break is its
/// lines, each followed by a line break.
proof fn lemma_join_lines_of(s: Seq<char>)
    requires
        no_cr(s),
        s.len() == 0 || s.last() == '\n',
    ensures
        join_lines(lines_of(s)) == s,
    decreases s.len(),
{
    if s.len() > 0 {
        let k = first_index_of(s, '\n');
        lemma_first_index_of_props(s, '\n');
        if k >= s.len() {
            assert(s[s.len() - 1] == '\n');
            assert(false);
        }
        let head = s.take(k as int);
        let rest = s.skip(k as int + 1);
        assert(strip_cr(head) == head) by {
            if head.len() > 0 {
                assert(head.last() == s[k - 1]);
            }
        }
        assert(lines_of(s) == seq![strip_cr(head)] + lines_of(rest));
        assert(no_cr(rest)) by {
            assert forall|i: int| 0 <= i < rest.len() implies rest[i] != '\r' by {
                assert(rest[i] == s[k + 1 + i]);
            }
        }
        if rest.len() > 0 {
            assert(rest.last() == s.last());
        }
        lemma_join_lines_of(rest);
        lemma_join_lines_cons(head, lines_of(rest));
        assert(head + seq!['\n'] + rest =~= s);
    }
}

/// The file header and the first `n` hunks are the diff's lines up to the
/// end of hunk `n - 1`.
proof fn lemma_hunks_prefix(diff: Seq<char>, n: nat)
    requires
        1 <= n <= hunk_starts(lines_of(diff)).len(),
    ensures
        diff_file_header(diff) + hunks_text(diff, n) == join_lines(
            lines_of(diff).take(hunk_range(lines_of(diff), n - 1).1),
        ),
    decreases n,
{
    let ls = lines_of(diff);
    let st = hunk_starts(ls);
    lemma_hunk_range(ls, n - 1);
    let (lo, hi) = hunk_range(ls, n - 1);
    if n == 1 {
        assert(hunks_text(diff, 0) =~= Seq::<char>::empty());
        assert(ls.take(hi) =~= ls.take(st[0]) + ls.subrange(lo, hi));
        lemma_join_lines_append(ls.take(st[0]), ls.subrange(lo, hi));
        assert(diff_file_header(diff) + hunks_text(diff, 1) =~= join_lines(ls.take(st[0])) + join_lines(
            ls.subrange(lo, hi),
        ));
    } else {
        lemma_hunks_prefix(diff, (n - 1) as nat);
        lemma_hunk_range(ls, n - 2);
        let prev_hi = hunk_range(ls, n - 2).1;
        assert(prev_hi == lo);
        assert(ls.take(hi) =~= ls.take(prev_hi) + ls.subrange(lo, hi));
        lemma_join_lines_append(ls.take(prev_hi), ls.subrange(lo, hi));
        assert(diff_file_header(diff) + hunks_text(diff, n) =~= (diff_file_header(diff) + hunks_text(
            diff,
            (n - 1) as nat,
        )) + hunk_text(diff, n - 1));
    }
}

/// The lines of the first `n` hunks of `ls`, one hunk after the other.
pub open spec fn hunks_lines(ls: Seq<Seq<char>>, n: nat) -> Seq<Seq<char>>
    decreases n,
{
    if n == 0 {
        seq![]
    } else {
        let (lo, hi) = hunk_range(ls, n - 1);
        hunks_lines(ls, (n - 1) as nat) + ls.subrange(lo, hi)
    }
}

proof fn lemma_hunks_lines_prefix(ls: Seq<Seq<char>>, n: nat)
    requires
        1 <= n <= hunk_starts(ls).len(),
    ensures
        ls.take(hunk_starts(ls)[0]) + hunks_lines(ls, n) == ls.take(hunk_range(ls, n - 1).1),
    decreases n,
{
    let st = hunk_starts(ls);
    lemma_hunk_range(ls, n - 1);
    let (lo, hi) = hunk_range(ls, n - 1);
    if n == 1 {
        assert(ls.take(st[0]) + hunks_lines(ls, 1) =~= ls.take(hi));
    } else {
        lemma_hunks_lines_prefix(ls, (n - 1) as nat);
        lemma_hunk_range(ls, n - 2);
        assert(hunk_range(ls, n - 2).1 == lo);
        assert(ls.take(st[0]) + hunks_lines(ls, n) =~= ls.take(lo) + ls.subrange(lo, hi));
        assert(ls.take(lo) + ls.subrange(lo, hi) =~= ls.take(hi));
    }
}

/// The hunks partition a diff's lines (those that the diff is parsed into,
/// `lines_of`): with `k >= 1` hunks, the lines before the first hunk
/// followed by the lines of hunks `0` to `k - 1`, in order, are all the
/// lines; hunk `i` exists exactly when `i < k`; each hunk's first line is
/// an `@@` line and no other line of it is.
pub proof fn law_hunks_partition_the_lines(ls: Seq<Seq<char>>)
    requires
        hunk_starts(ls).len() >= 1,
    ensures
        ({
            let k = hunk_starts(ls).len();
            &&& ls.take(hunk_starts(ls)[0]) + hunks_lines(ls, k) == ls
            &&& forall|i: int| 0 <= i < k ==> 0 <= #[trigger] hunk_range(ls, i).0 < hunk_range(ls, i).1 <= ls.len()
                && is_hunk_header(ls[hunk_range(ls, i).0])
            &&& forall|i: int, j: int|
                0 <= i < k && hunk_range(ls, i).0 < j < hunk_range(ls, i).1 ==> !is_hunk_header(#[trigger] ls[j])
                    && #[trigger] hunk_range(ls, i).0 >= 0
        }),
{
    let st = hunk_starts(ls);
    let k = st.len();
    lemma_hunk_starts(ls);
    lemma_hunks_lines_prefix(ls, k);
    lemma_hunk_range(ls, k - 1);
    assert(ls.take(ls.len() as int) =~= ls);
    assert forall|i: int| 0 <= i < k implies 0 <= #[trigger] hunk_range(ls, i).0 < hunk_range(ls, i).1 <= ls.len()
        && is_hunk_header(ls[hunk_range(ls, i).0]) by {
        lemma_hunk_range(ls, i);
    }
    assert forall|i: int, j: int|
        0 <= i < k && hunk_range(ls, i).0 < j < hunk_range(ls, i).1 implies !is_hunk_header(#[trigger] ls[j])
            && #[trigger] hunk_range(ls, i).0 >= 0 by {
        lemma_hunk_range(ls, i);
        if is_hunk_header(ls[j]) {
            let w = choose|w: int| 0 <= w < st.len() && st[w] == j;
            if w < i {
                assert(st[w] < st[i]);
            } else if w > i + 1 {
                assert(st[i + 1] < st[w]);
            }
        }
    }
}

/// The hunks partition a diff: in a diff without carriage returns that ends
/// with a line break and has `k >= 1` hunks, the patch of hunk `i < k` is
/// the file header followed by that hunk, there is no hunk `k`, and the
/// file header followed by the hunks in order is the whole diff. Each hunk
/// begins with its `@@` line and holds no other; no `@@` line comes before
/// the first hunk.
pub proof fn law_hunks_partition_the_diff(diff: Seq<char>)
    requires
        no_cr(diff),
        diff.len() > 0 && diff.last() == '\n',
        hunk_starts(lines_of(diff)).len() >= 1,
    ensures
        ({
            let ls = lines_of(diff);
            let k = hunk_starts(ls).len();
            &&& forall|i: int| 0 <= i < k ==> spec_hunk_patch(diff, i) == Some(diff_file_header(diff) + #[trigger] hunk_text(diff, i))
            &&& spec_hunk_patch(diff, k as int) is None
            &&& diff_file_header(diff) + hunks_text(diff, k) == diff
            &&& forall|i: int| 0 <= i < k ==> is_hunk_header(ls[#[trigger] hunk_range(ls, i).0])
            &&& forall|i: int, j: int|
                0 <= i < k && hunk_range(ls, i).0 < j < hunk_range(ls, i).1 ==> !is_hunk_header(#[trigger] ls[j])
                    && #[trigger] hunk_range(ls, i).0 >= 0
            &&& forall|j: int| 0 <= j < hunk_starts(ls)[0] ==> !is_hunk_header(#[trigger] ls[j])
        }),
{
    let ls = lines_of(diff);
    let st = hunk_starts(ls);
    let k = st.len();
    lemma_hunk_starts(ls);
    lemma_hunks_prefix(diff, k);
    lemma_hunk_range(ls, k - 1);
    assert(ls.take(ls.len() as int) =~= ls);
    lemma_join_lines_of(diff);
    assert forall|i: int| 0 <= i < k implies is_hunk_header(ls[#[trigger] hunk_range(ls, i).0]) by {
        lemma_hunk_range(ls, i);
    }
    assert forall|i: int, j: int|
        0 <= i < k && hunk_range(ls, i).0 < j < hunk_range(ls, i).1 implies !is_hunk_header(#[trigger] ls[j])
            && #[trigger] hunk_range(ls, i).0 >= 0 by {
        lemma_hunk_range(ls, i);
        if is_hunk_header(ls[j]) {
            let w = choose|w: int| 0 <= w < st.len() && st[w] == j;
            if w <= i {
                if w < i {
                    assert(st[w] < st[i]);
                }
            } else {
                if w > i + 1 {
                    assert(st[i + 1] < st[w]);
                }
            }
        }
    }
    assert forall|j: int| 0 <= j < hunk_starts(ls)[0] implies !is_hunk_header(#[trigger] ls[j]) by {
        if is_hunk_header(ls[j]) {
            let w = choose|w: int| 0 <= w < st.len() && st[w] == j;
            if w > 0 {
                assert(st[0] < st[w]);
            }
        }
    }
}


/// The body of hunk `index` of `ls`: its lines after the `@@` line.
pub open spec fn hunk_body(ls: Seq<Seq<char>>, index: int) -> Seq<Seq<char>> {
    let (lo, hi) = hunk_range(ls, index);
    ls.subrange(lo + 1, hi)
}

proof fn lemma_patch_body_extra(body: Seq<Seq<char>>, selected: Set<usize>, extra: Set<usize>, reverse: bool)
    requires
        forall|i: int| 0 <= i < body.len() && spec_is_change(#[trigger] body[i]) ==> !extra.contains(i as usize),
    ensures
        patch_body(body, selected.union(extra), reverse) == patch_body(body, selected, reverse),
        has_selected_change(body, selected.union(extra)) == has_selected_change(body, selected),
    decreases body.len(),
{
    if body.len() > 0 {
        let p = body.drop_last();
        assert forall|i: int| 0 <= i < p.len() && spec_is_change(#[trigger] p[i]) implies !extra.contains(i as usize) by {
            assert(p[i] == body[i]);
        }
        lemma_patch_body_extra(p, selected, extra, reverse);
        let n = body.len() - 1;
        assert(body.last() == body[n]);
        assert(patch_line(body.last(), n, selected.union(extra), reverse) == patch_line(body.last(), n, selected, reverse));
    }
    if has_selected_change(body, selected.union(extra)) {
        let i = choose|i: int|
            0 <= i < body.len() && spec_is_change(#[trigger] body[i]) && selected.union(extra).contains(i as usize);
        assert(selected.contains(i as usize));
    }
    if has_selected_change(body, selected) {
        let i = choose|i: int|
            0 <= i < body.len() && spec_is_change(#[trigger] body[i]) && selected.contains(i as usize);
        assert(selected.union(extra).contains(i as usize));
    }
}

/// Adding to a line selection indices that are not change lines of the
/// hunk (context lines, or past its end) changes nothing: the line patch is
/// the same, or there is none either way.
pub proof fn law_selection_counts_only_change_lines(
    diff: Seq<char>,
    index: int,
    selected: Set<usize>,
    extra: Set<usize>,
    reverse: bool,
)
    requires
        forall|i: int|
            0 <= i < hunk_body(lines_of(diff), index).len() && spec_is_change(
                #[trigger] hunk_body(lines_of(diff), index)[i],
            ) ==> !extra.contains(i as usize),
    ensures
        spec_lines_patch(diff, index, selected.union(extra), reverse) == spec_lines_patch(diff, index, selected, reverse),
{
    let ls = lines_of(diff);
    let body = hunk_body(ls, index);
    lemma_patch_body_extra(body, selected, extra, reverse);
}

/// Every line starts with a space, `+` or `-`.
pub open spec fn all_body_lines(body: Seq<Seq<char>>) -> bool {
    forall|i: int|
        0 <= i < body.len() ==> starts_with_char(#[trigger] body[i], ' ') || starts_with_char(body[i], '+')
            || starts_with_char(body[i], '-')
}

proof fn lemma_patch_body_all(body: Seq<Seq<char>>, selected: Set<usize>, reverse: bool)
    requires
        all_body_lines(body),
        forall|i: int| 0 <= i < body.len() && spec_is_change(#[trigger] body[i]) ==> selected.contains(i as usize),
    ensures
        patch_body(body, selected, reverse) == body,
    decreases body.len(),
{
    if body.len() > 0 {
        let p = body.drop_last();
        assert forall|i: int| 0 <= i < p.len() && spec_is_change(#[trigger] p[i]) implies selected.contains(i as usize) by {
            assert(p[i] == body[i]);
        }
        assert(all_body_lines(p)) by {
            assert forall|i: int| 0 <= i < p.len() implies starts_with_char(#[trigger] p[i], ' ') || starts_with_char(
                p[i],
                '+',
            ) || starts_with_char(p[i], '-') by {
                assert(p[i] == body[i]);
            }
        }
        lemma_patch_body_all(p, selected, reverse);
        let n = body.len() - 1;
        assert(body.last() == body[n]);
        assert(body =~= p.push(body.last()));
    }
}

proof fn lemma_digit_char(d: nat)
    requires
        d < 10,
    ensures
        is_digit(((d + ('0' as nat)) as char)),
        crate::diff::digit_value(((d + ('0' as nat)) as char)) == d,
{
    let c = (d + ('0' as nat)) as char;
    assert(c as int == d + 48);
}

proof fn lemma_decimal(n: nat)
    ensures
        decimal(n).len() > 0,
        all_digits(decimal(n)),
        digits_value(decimal(n)) == n,
    decreases n,
{
    if n >= 10 {
        lemma_decimal(n / 10);
        lemma_digit_char(n % 10);
        let d = decimal(n / 10).push(((n % 10) + ('0' as nat)) as char);
        assert(d.drop_last() =~= decimal(n / 10));
        assert(d.last() == ((n % 10) + ('0' as nat)) as char);
        assert(all_digits(d)) by {
            assert forall|i: int| 0 <= i < d.len() implies is_digit(#[trigger] d[i]) by {
                if i < d.len() - 1 {
                    assert(d[i] == decimal(n / 10)[i]);
                }
            }
        }
        assert(digits_value(d) == 10 * digits_value(d.drop_last()) + crate::diff::digit_value(d.last()));
    } else {
        lemma_digit_char(n);
        let d = decimal(n);
        assert(d.drop_last() =~= Seq::<char>::empty());
        assert(digits_value(d) == 10 * digits_value(d.drop_last()) + crate::diff::digit_value(d.last()));
    }
}

/// The first `c` in `a + seq![c] + b` when `a` holds none is just after `a`.
proof fn lemma_first_after(a: Seq<char>, c: char, b: Seq<char>)
    requires
        forall|i: int| 0 <= i < a.len() ==> a[i] != c,
    ensures
        first_index_of(a + seq![c] + b, c) == a.len(),
        split_once(a + seq![c] + b, c) == Some((a, b)),
{
    let s = a + seq![c] + b;
    assert forall|j: int| 0 <= j < a.len() implies s[j] != c by {
        assert(s[j] == a[j]);
    }
    assert(s[a.len() as int] == c);
    lemma_first_index_of(s, c, a.len() as int);
    assert(s.take(a.len() as int) =~= a);
    assert(s.skip(a.len() as int + 1) =~= b);
}

/// One side of a written header, `{sign}{start},{count}`: no space in it.
proof fn lemma_side_has_no_space(sign: char, d1: Seq<char>, d2: Seq<char>)
    requires
        sign != ' ',
        all_digits(d1),
        all_digits(d2),
    ensures
        forall|i: int| 0 <= i < (seq![sign] + d1 + seq![','] + d2).len() ==> (seq![sign] + d1 + seq![','] + d2)[i] != ' ',
{
    let part = seq![sign] + d1 + seq![','] + d2;
    assert forall|i: int| 0 <= i < part.len() implies part[i] != ' ' by {
        if 1 <= i < 1 + d1.len() {
            assert(part[i] == d1[i - 1]);
            assert(is_digit(d1[i - 1]));
        } else if i >= 2 + d1.len() {
            assert(part[i] == d2[i - 2 - d1.len()]);
            assert(is_digit(d2[i - 2 - d1.len()]));
        }
    }
}

/// One side of a written header reads back its start line.
proof fn lemma_side_reads_back(sign: char, v: nat, d2: Seq<char>)
    requires
        v <= u32::MAX,
        all_digits(d2),
    ensures
        side_start(seq![sign] + decimal(v) + seq![','] + d2, sign) == Some(v as u32),
{
    lemma_decimal(v);
    let d1 = decimal(v);
    let part = seq![sign] + d1 + seq![','] + d2;
    assert(starts_with_char(part, sign));
    assert(part.drop_first() =~= d1 + seq![','] + d2);
    assert forall|i: int| 0 <= i < d1.len() implies d1[i] != ',' by {
        assert(is_digit(d1[i]));
    }
    lemma_first_after(d1, ',', d2);
    assert((d1 + seq![','] + d2).take(d1.len() as int) =~= d1);
    assert(!starts_with_char(d1, '+')) by {
        assert(is_digit(d1[0]));
    }
    assert(parse_u32(d1) == Some(v as u32));
}

/// A header written by `hunk_header_text` reads back its two start lines.
proof fn lemma_header_reads_back(o: nat, a: nat, n: nat, b: nat)
    requires
        o <= u32::MAX,
        n <= u32::MAX,
    ensures
        spec_parse_hunk_starts(hunk_header_text(o, a, n, b).drop_last()) == Some((o as u32, n as u32)),
{
    lemma_decimal(o);
    lemma_decimal(a);
    lemma_decimal(n);
    lemma_decimal(b);
    let old_part = seq!['-'] + decimal(o) + seq![','] + decimal(a);
    let new_part = seq!['+'] + decimal(n) + seq![','] + decimal(b);
    let tail = seq!['@', '@'];
    let rest = new_part + seq![' '] + tail;
    let inner = old_part + seq![' '] + rest;
    let header = hunk_header_text(o, a, n, b).drop_last();
    assert(header =~= seq!['@', '@', ' '] + inner);
    assert(strip_prefix(header, seq!['@', '@', ' ']) == Some(inner)) by {
        assert(header.take(3) =~= seq!['@', '@', ' ']);
        assert(header.skip(3) =~= inner);
    }
    lemma_side_has_no_space('-', decimal(o), decimal(a));
    lemma_first_after(old_part, ' ', rest);
    lemma_side_has_no_space('+', decimal(n), decimal(b));
    lemma_first_after(new_part, ' ', tail);
    lemma_side_reads_back('-', o, decimal(a));
    lemma_side_reads_back('+', n, decimal(b));
}

/// Selecting every change line of a hunk gives the hunk's own patch, when
/// the hunk's header is written as the patches write theirs: its counts
/// are those of its body, whose lines are all context, additions or
/// removals, and which has a change line.
pub proof fn law_all_lines_make_the_hunk_patch(
    diff: Seq<char>,
    index: int,
    selected: Set<usize>,
    reverse: bool,
    old_start: nat,
    new_start: nat,
)
    requires
        0 <= index < hunk_starts(lines_of(diff)).len(),
        old_start <= u32::MAX,
        new_start <= u32::MAX,
        ({
            let ls = lines_of(diff);
            let body = hunk_body(ls, index);
            &&& ls[hunk_range(ls, index).0] == hunk_header_text(
                old_start,
                count_side(body, '-'),
                new_start,
                count_side(body, '+'),
            ).drop_last()
            &&& all_body_lines(body)
            &&& exists|i: int| 0 <= i < body.len() && spec_is_change(#[trigger] body[i])
        }),
        forall|i: int|
            0 <= i < hunk_body(lines_of(diff), index).len() && spec_is_change(
                #[trigger] hunk_body(lines_of(diff), index)[i],
            ) ==> selected.contains(i as usize),
    ensures
        spec_lines_patch(diff, index, selected, reverse) == spec_hunk_patch(diff, index),
{
    let ls = lines_of(diff);
    let body = hunk_body(ls, index);
    let (lo, hi) = hunk_range(ls, index);
    lemma_hunk_range(ls, index);
    let a = count_side(body, '-');
    let b = count_side(body, '+');
    let text = hunk_header_text(old_start, a, new_start, b);
    lemma_header_reads_back(old_start, a, new_start, b);
    lemma_patch_body_all(body, selected, reverse);
    let w = choose|i: int| 0 <= i < body.len() && spec_is_change(#[trigger] body[i]);
    assert(has_selected_change(body, selected)) by {
        assert(spec_is_change(body[w]) && selected.contains(w as usize));
    }
    assert(ls.subrange(lo, hi) =~= seq![ls[lo]] + body);
    lemma_join_lines_cons(ls[lo], body);
    assert(text.last() == '\n');
    assert(text.drop_last() + seq!['\n'] =~= text);
    let head = join_lines(ls.take(hunk_starts(ls)[0]));
    assert(spec_lines_patch(diff, index, selected, reverse) == Some(head + text + join_lines(body)));
    assert(spec_hunk_patch(diff, index) == Some(head + join_lines(ls.subrange(lo, hi))));
    assert(head + text + join_lines(body) =~= head + join_lines(ls.subrange(lo, hi)));
}


// ---------------------------------------------------------------------------
// Folding files
// ---------------------------------------------------------------------------

/// `App::finish_expand` with a fetched diff `d`: the diff is cached and the
/// file unfolded.
pub open spec fn expand_finished(o: App, n: App, key: FileKey, d: Seq<char>) -> bool {
    &&& n.diff_cache.view() == o.diff_cache.view().insert(key_view(key), d)
    &&& n.expanded.view() == o.expanded.view().insert(key_view(key))
    &&& items_view(n.items@) == n.expected_items()
    &&& n == (App { diff_cache: n.diff_cache, expanded: n.expanded, items: n.items, ..o })
}

/// One toggle of the fold at the cursor, from `o` to `n`: `App::toggle_expand_at_cursor`
/// (from `o` to `a`, asking for a fetch or not), completed by `App::finish_expand`
/// with the fetched diff `d` when it asked for one.
pub open spec fn toggled(o: App, a: App, r: Option<FileKey>, n: App, d: Seq<char>) -> bool {
    &&& toggle_post(o, a, r)
    &&& r is None ==> n == a
    &&& r matches Some(k) ==> expand_finished(a, n, k, d)
}

/// Toggling a file's fold twice, with the cursor on that file both times,
/// leaves the set of unfolded files as it was.
pub proof fn law_toggling_twice_restores_the_folds(
    o: App,
    a1: App,
    r1: Option<FileKey>,
    b1: App,
    d1: Seq<char>,
    a2: App,
    r2: Option<FileKey>,
    b2: App,
    d2: Seq<char>,
)
    requires
        file_at(o.items@, o.cursor as int) matches Some(key) && key.0 != Section::Untracked,
        toggled(o, a1, r1, b1, d1),
        file_at(b1.items@, b1.cursor as int) == file_at(o.items@, o.cursor as int),
        toggled(b1, a2, r2, b2, d2),
    ensures
        b2.expanded.view() == o.expanded.view(),
{
    let key = file_at(o.items@, o.cursor as int)->0;
    let s = o.expanded.view();
    if s.contains(key) {
        assert(b1.expanded.view() == s.remove(key));
        assert(s.remove(key).insert(key) =~= s);
    } else {
        assert(b1.expanded.view() == s.insert(key));
        assert(s.insert(key).remove(key) =~= s);
    }
}


// ---------------------------------------------------------------------------
// The layout of the status buffer
// ---------------------------------------------------------------------------

/// The header that opens a group of the status buffer: a file section, the
/// stashes, the unpushed commits or the recent commits.
pub open spec fn is_group_header(v: ItemView) -> bool {
    v is Header || v is StashHeader || v is UnpushedHeader || v is RecentHeader
}

/// The place of a group in the buffer: untracked, unstaged and staged
/// files, stashes, unpushed commits, recent commits.
pub open spec fn group_rank(v: ItemView) -> int {
    match v {
        ItemView::Header { section, .. } => match section {
            Section::Untracked => 0,
            Section::Unstaged => 1,
            Section::Staged => 2,
        },
        ItemView::StashHeader { .. } => 3,
        ItemView::UnpushedHeader { .. } => 4,
        ItemView::RecentHeader => 5,
        _ => 6,
    }
}

/// A spacer first; after it, a spacer exactly before each group header but
/// the first, and nowhere else.
pub open spec fn spaced(items: Seq<ItemView>) -> bool {
    &&& items.len() >= 1
    &&& items[0] is Spacer
    &&& forall|i: int|
        1 <= i < items.len() ==> ((#[trigger] items[i] is Spacer) <==> (i + 1 < items.len() && is_group_header(
            items[i + 1],
        )))
}

/// The groups come in their order, each at most once, and all before rank `r`.
pub open spec fn groups_in_order(items: Seq<ItemView>, r: int) -> bool {
    &&& forall|i: int| 0 <= i < items.len() && is_group_header(#[trigger] items[i]) ==> group_rank(items[i]) < r
    &&& forall|i: int, j: int|
        0 <= i < j < items.len() && is_group_header(#[trigger] items[i]) && is_group_header(#[trigger] items[j])
            ==> group_rank(items[i]) < group_rank(items[j])
}

/// Some group header of rank `r` is in `items`.
pub open spec fn has_group(items: Seq<ItemView>, r: int) -> bool {
    exists|i: int| 0 <= i < items.len() && is_group_header(#[trigger] items[i]) && group_rank(items[i]) == r
}

/// Neither a spacer nor a group header.
pub open spec fn plain(items: Seq<ItemView>) -> bool {
    forall|i: int| 0 <= i < items.len() ==> !(#[trigger] items[i] is Spacer) && !is_group_header(items[i])
}

proof fn lemma_diff_items_plain(ls: Seq<Seq<char>>, file_path: Seq<char>, section: Section)
    ensures
        plain(diff_items(ls, file_path, section)),
    decreases ls.len(),
{
    if ls.len() > 0 {
        lemma_diff_items_plain(ls.drop_last(), file_path, section);
        let prev = diff_items(ls.drop_last(), file_path, section);
        let d = diff_items(ls, file_path, section);
        assert forall|i: int| 0 <= i < d.len() implies !(#[trigger] d[i] is Spacer) && !is_group_header(d[i]) by {
            if i < prev.len() {
                assert(d[i] == prev[i]);
            }
        }
    }
}

proof fn lemma_file_items_plain(
    entries: Seq<crate::backend::FileEntry>,
    section: Section,
    expanded: Set<(Section, Seq<char>)>,
    cache: Map<(Section, Seq<char>), Seq<char>>,
)
    ensures
        plain(file_items(entries, section, expanded, cache)),
    decreases entries.len(),
{
    if entries.len() > 0 {
        lemma_file_items_plain(entries.drop_last(), section, expanded, cache);
        let e = entries.last();
        let key = (section, e.path@);
        lemma_diff_items_plain(lines_of(cache[key]), e.path@, section);
        let prev = file_items(entries.drop_last(), section, expanded, cache);
        let f = file_items(entries, section, expanded, cache);
        let diff = if expanded.contains(key) && cache.contains_key(key) {
            diff_items(lines_of(cache[key]), e.path@, section)
        } else {
            seq![]
        };
        assert forall|i: int| 0 <= i < f.len() implies !(#[trigger] f[i] is Spacer) && !is_group_header(f[i]) by {
            if i < prev.len() {
                assert(f[i] == prev[i]);
            } else if i > prev.len() {
                assert(f[i] == diff[i - prev.len() - 1]);
            }
        }
    }
}

/// Opening a group of rank `r` after `a`, then its plain items.
proof fn lemma_add_group(a: Seq<ItemView>, h: ItemView, body: Seq<ItemView>, r: int)
    requires
        spaced(a),
        groups_in_order(a, r),
        is_group_header(h),
        group_rank(h) == r,
        plain(body),
    ensures
        spaced(begin_section(a).push(h) + body),
        groups_in_order(begin_section(a).push(h) + body, r + 1),
        forall|q: int| has_group(begin_section(a).push(h) + body, q) <==> (has_group(a, q) || q == r),
{
    let b = begin_section(a);
    let c = b.push(h) + body;
    let m = b.len() as int;
    assert(c[m] == h);
    assert forall|i: int| 0 <= i < b.len() implies c[i] == b[i] by {}
    assert forall|i: int| m < i < c.len() implies c[i] == body[i - m - 1] by {}
    if a.len() > 1 {
        assert(b[a.len() as int] is Spacer);
        assert(!(a[a.len() - 1] is Spacer));
    }
    assert forall|i: int| 0 <= i < a.len() implies b[i] == a[i] by {}
    assert forall|i: int|
        1 <= i < c.len() implies ((#[trigger] c[i] is Spacer) <==> (i + 1 < c.len() && is_group_header(c[i + 1]))) by {
        if i < a.len() {
            assert(c[i] == a[i]);
            if i + 1 < a.len() {
                assert(c[i + 1] == a[i + 1]);
            }
        } else if i < m {
            assert(c[i + 1] == h);
        } else if i == m {
            if i + 1 < c.len() {
                assert(c[i + 1] == body[0]);
            }
        } else {
            assert(c[i] == body[i - m - 1]);
            if i + 1 < c.len() {
                assert(c[i + 1] == body[i - m]);
            }
        }
    }
    assert forall|i: int| 0 <= i < c.len() && is_group_header(#[trigger] c[i]) implies group_rank(c[i]) < r + 1 by {
        if i < a.len() {
            assert(c[i] == a[i]);
        } else if i > m {
            assert(c[i] == body[i - m - 1]);
        }
    }
    assert forall|i: int, j: int|
        0 <= i < j < c.len() && is_group_header(#[trigger] c[i]) && is_group_header(#[trigger] c[j]) implies group_rank(
        c[i],
    ) < group_rank(c[j]) by {
        if j > m {
            assert(c[j] == body[j - m - 1]);
        }
        if i < a.len() {
            assert(c[i] == a[i]);
            if j < a.len() {
                assert(c[j] == a[j]);
            }
        } else if i > m {
            assert(c[i] == body[i - m - 1]);
        }
    }
    assert forall|q: int| has_group(c, q) <==> (has_group(a, q) || q == r) by {
        if has_group(c, q) {
            let i = choose|i: int| 0 <= i < c.len() && is_group_header(#[trigger] c[i]) && group_rank(c[i]) == q;
            if i < a.len() {
                assert(c[i] == a[i]);
            } else if i > m {
                assert(c[i] == body[i - m - 1]);
            }
        }
        if has_group(a, q) {
            let i = choose|i: int| 0 <= i < a.len() && is_group_header(#[trigger] a[i]) && group_rank(a[i]) == q;
            assert(c[i] == a[i]);
        }
        if q == r {
            assert(is_group_header(c[m]));
        }
    }
}

proof fn lemma_with_files(
    a: Seq<ItemView>,
    status: crate::backend::RepoStatus,
    section: Section,
    expanded: Set<(Section, Seq<char>)>,
    cache: Map<(Section, Seq<char>), Seq<char>>,
    r: int,
)
    requires
        spaced(a),
        groups_in_order(a, r),
        r == group_rank(ItemView::Header { label: seq![], count: 0, section }),
    ensures
        spaced(with_files(a, status, section, expanded, cache)),
        groups_in_order(with_files(a, status, section, expanded, cache), r + 1),
        forall|q: int|
            has_group(with_files(a, status, section, expanded, cache), q) <==> (has_group(a, q) || (q == r
                && spec_section_entries(status, section).len() > 0)),
{
    let es = spec_section_entries(status, section);
    if es.len() > 0 {
        lemma_file_items_plain(es, section, expanded, cache);
        let h = ItemView::Header { label: section.spec_label(), count: es.len() as usize, section };
        let body = file_items(es, section, expanded, cache);
        lemma_add_group(a, h, body, r);
        let c = with_files(a, status, section, expanded, cache);
        assert(c == begin_section(a).push(h) + body);
        assert forall|q: int| has_group(c, q) <==> (has_group(a, q) || (q == r && es.len() > 0)) by {
            assert(has_group(begin_section(a).push(h) + body, q) <==> (has_group(a, q) || q == r));
        }
    } else {
        assert forall|i: int| 0 <= i < a.len() && is_group_header(#[trigger] a[i]) implies group_rank(a[i]) < r + 1 by {}
    }
}

/// The layout of the status buffer, shown step by step as it is built.
#[verifier::rlimit(40)]
proof fn lemma_status_layout(
    status: crate::backend::RepoStatus,
    stashes: Seq<crate::backend::StashInfo>,
    recent: Seq<crate::backend::CommitInfo>,
    expanded: Set<(Section, Seq<char>)>,
    cache: Map<(Section, Seq<char>), Seq<char>>,
)
    ensures
        spaced(spec_status_items(status, stashes, recent, expanded, cache)),
        groups_in_order(spec_status_items(status, stashes, recent, expanded, cache), 6),
        has_group(spec_status_items(status, stashes, recent, expanded, cache), 0) <==> status.untracked@.len() > 0,
        has_group(spec_status_items(status, stashes, recent, expanded, cache), 1) <==> status.unstaged@.len() > 0,
        has_group(spec_status_items(status, stashes, recent, expanded, cache), 2) <==> status.staged@.len() > 0,
        has_group(spec_status_items(status, stashes, recent, expanded, cache), 3) <==> stashes.len() > 0,
        has_group(spec_status_items(status, stashes, recent, expanded, cache), 4) <==> status.unpushed@.len() > 0,
        has_group(spec_status_items(status, stashes, recent, expanded, cache), 5) <==> recent.len() > 0,
{
    let a0 = seq![ItemView::Spacer];
    assert(spaced(a0));
    assert forall|q: int| !has_group(a0, q) by {
        if has_group(a0, q) {
            let i = choose|i: int| 0 <= i < a0.len() && is_group_header(#[trigger] a0[i]) && group_rank(a0[i]) == q;
            assert(a0[i] is Spacer);
        }
    }
    let a1 = with_files(a0, status, Section::Untracked, expanded, cache);
    lemma_with_files(a0, status, Section::Untracked, expanded, cache, 0);
    let a2 = with_files(a1, status, Section::Unstaged, expanded, cache);
    lemma_with_files(a1, status, Section::Unstaged, expanded, cache, 1);
    let a3 = with_files(a2, status, Section::Staged, expanded, cache);
    lemma_with_files(a2, status, Section::Staged, expanded, cache, 2);
    let sbody = stashes.map_values(|info: crate::backend::StashInfo| ItemView::StashEntry { info: info@ });
    let sh = ItemView::StashHeader { count: stashes.len() as usize };
    let a4 = if stashes.len() == 0 {
        a3
    } else {
        begin_section(a3).push(sh) + sbody
    };
    if stashes.len() > 0 {
        assert(plain(sbody));
        lemma_add_group(a3, sh, sbody, 3);
    } else {
        assert forall|i: int| 0 <= i < a4.len() && is_group_header(#[trigger] a4[i]) implies group_rank(a4[i]) < 4 by {}
    }
    let unpushed = status.unpushed@;
    let uh = ItemView::UnpushedHeader {
        count: if status.unpushed_total >= unpushed.len() {
            status.unpushed_total
        } else {
            unpushed.len() as usize
        },
        upstream: match status.upstream {
            Some(u) => u@,
            None => "upstream"@,
        },
    };
    let ubody = unpushed.map_values(|info: crate::backend::CommitInfo| ItemView::RecentCommit { info: info@ });
    let a5 = if unpushed.len() == 0 {
        a4
    } else {
        begin_section(a4).push(uh) + ubody
    };
    if unpushed.len() > 0 {
        assert(plain(ubody));
        lemma_add_group(a4, uh, ubody, 4);
    } else {
        assert forall|i: int| 0 <= i < a5.len() && is_group_header(#[trigger] a5[i]) implies group_rank(a5[i]) < 5 by {}
    }
    let rbody = recent.map_values(|info: crate::backend::CommitInfo| ItemView::RecentCommit { info: info@ });
    let items = spec_status_items(status, stashes, recent, expanded, cache);
    assert(items == (if recent.len() == 0 {
        a5
    } else {
        begin_section(a5).push(ItemView::RecentHeader) + rbody
    }));
    if recent.len() > 0 {
        assert(plain(rbody));
        lemma_add_group(a5, ItemView::RecentHeader, rbody, 5);
    } else {
        assert forall|i: int| 0 <= i < a5.len() && is_group_header(#[trigger] a5[i]) implies group_rank(a5[i]) < 6 by {}
    }
    // Which groups each step holds.
    assert forall|q: int| #[trigger] has_group(a1, q) <==> (q == 0 && status.untracked@.len() > 0) by {
        assert(spec_section_entries(status, Section::Untracked) == status.untracked@);
        assert(!has_group(a0, q));
    }
    assert forall|q: int| #[trigger] has_group(a2, q) <==> (has_group(a1, q) || (q == 1 && status.unstaged@.len() > 0)) by {
        assert(spec_section_entries(status, Section::Unstaged) == status.unstaged@);
    }
    assert forall|q: int| #[trigger] has_group(a3, q) <==> (has_group(a2, q) || (q == 2 && status.staged@.len() > 0)) by {
        assert(spec_section_entries(status, Section::Staged) == status.staged@);
    }
    assert forall|q: int| #[trigger] has_group(a4, q) <==> (has_group(a3, q) || (q == 3 && stashes.len() > 0)) by {
        if stashes.len() > 0 {
            assert(has_group(begin_section(a3).push(sh) + sbody, q) <==> (has_group(a3, q) || q == 3));
        }
    }
    assert forall|q: int| #[trigger] has_group(a5, q) <==> (has_group(a4, q) || (q == 4 && unpushed.len() > 0)) by {
        if unpushed.len() > 0 {
            assert(has_group(begin_section(a4).push(uh) + ubody, q) <==> (has_group(a4, q) || q == 4));
        }
    }
    assert forall|q: int| #[trigger] has_group(items, q) <==> (has_group(a5, q) || (q == 5 && recent.len() > 0)) by {
        if recent.len() > 0 {
            assert(has_group(begin_section(a5).push(ItemView::RecentHeader) + rbody, q) <==> (has_group(a5, q) || q
                == 5));
        }
    }
    assert(has_group(items, 0) == has_group(a1, 0)) by {
        assert(has_group(items, 0) == has_group(a5, 0));
        assert(has_group(a5, 0) == has_group(a4, 0));
        assert(has_group(a4, 0) == has_group(a3, 0));
        assert(has_group(a3, 0) == has_group(a2, 0));
        assert(has_group(a2, 0) == has_group(a1, 0));
    }
    assert(has_group(items, 1) == has_group(a2, 1)) by {
        assert(has_group(items, 1) == has_group(a5, 1));
        assert(has_group(a5, 1) == has_group(a4, 1));
        assert(has_group(a4, 1) == has_group(a3, 1));
        assert(has_group(a3, 1) == has_group(a2, 1));
        assert(!has_group(a1, 1));
    }
    assert(has_group(items, 2) == has_group(a3, 2)) by {
        assert(has_group(items, 2) == has_group(a5, 2));
        assert(has_group(a5, 2) == has_group(a4, 2));
        assert(has_group(a4, 2) == has_group(a3, 2));
        assert(!has_group(a2, 2) && !has_group(a1, 2));
    }
    assert(has_group(items, 3) == has_group(a4, 3)) by {
        assert(has_group(items, 3) == has_group(a5, 3));
        assert(has_group(a5, 3) == has_group(a4, 3));
        assert(!has_group(a3, 3) && !has_group(a2, 3) && !has_group(a1, 3));
    }
    assert(has_group(items, 4) == has_group(a5, 4)) by {
        assert(!has_group(a4, 4) && !has_group(a3, 4) && !has_group(a2, 4) && !has_group(a1, 4));
    }
    assert(!has_group(a5, 5)) by {
        assert(!has_group(a4, 5) && !has_group(a3, 5) && !has_group(a2, 5) && !has_group(a1, 5));
    }
}

/// Where spacers stand in the status buffer: first a spacer, then the
/// groups (untracked, unstaged and staged files, stashes, unpushed commits,
/// recent commits, in that order, each at most once), with exactly one
/// spacer before each group but the first and no spacer anywhere else.
pub proof fn law_spacers_separate_the_groups(
    status: crate::backend::RepoStatus,
    stashes: Seq<crate::backend::StashInfo>,
    recent: Seq<crate::backend::CommitInfo>,
    expanded: Set<(Section, Seq<char>)>,
    cache: Map<(Section, Seq<char>), Seq<char>>,
)
    ensures
        spaced(spec_status_items(status, stashes, recent, expanded, cache)),
        groups_in_order(spec_status_items(status, stashes, recent, expanded, cache), 6),
{
    lemma_status_layout(status, stashes, recent, expanded, cache);
}

/// A group of the status buffer is shown exactly when it has anything in
/// it: the untracked, unstaged and staged files, the stashes, the unpushed
/// commits and the recent commits.
pub proof fn law_groups_shown_when_nonempty(
    status: crate::backend::RepoStatus,
    stashes: Seq<crate::backend::StashInfo>,
    recent: Seq<crate::backend::CommitInfo>,
    expanded: Set<(Section, Seq<char>)>,
    cache: Map<(Section, Seq<char>), Seq<char>>,
)
    ensures
        has_group(spec_status_items(status, stashes, recent, expanded, cache), 0) <==> status.untracked@.len() > 0,
        has_group(spec_status_items(status, stashes, recent, expanded, cache), 1) <==> status.unstaged@.len() > 0,
        has_group(spec_status_items(status, stashes, recent, expanded, cache), 2) <==> status.staged@.len() > 0,
        has_group(spec_status_items(status, stashes, recent, expanded, cache), 3) <==> stashes.len() > 0,
        has_group(spec_status_items(status, stashes, recent, expanded, cache), 4) <==> status.unpushed@.len() > 0,
        has_group(spec_status_items(status, stashes, recent, expanded, cache), 5) <==> recent.len() > 0,
{
    lemma_status_layout(status, stashes, recent, expanded, cache);
}

} // verus!
