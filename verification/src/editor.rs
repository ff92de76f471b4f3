//! The inline commit-message editor: its modes and the meaning of each key.
//! The text itself lives in a text-area widget that the program drives with
//! the operations decided here.

use vstd::prelude::*;

use crate::app::{EditorIntent, EditorMode};
use crate::keybindings::{Key, KeyCode};
use tui_textarea::{Input, Key as TextKey, TextArea};
use crate::text::{
    chars_of, line_spans, lines_of, span_text, spans_text, spans_within, string_of_range, strings_view, trim,
    trim_bounds,
};

verus! {

/// The text area that holds the message being written. The program draws
/// `area` as a widget; everything else goes through the functions below.
#[verifier::external_body]
pub struct TextBuffer {
    pub area: TextArea<'static>,
}

/// The lines a text area holds.
pub uninterp spec fn text_lines(t: TextBuffer) -> Seq<Seq<char>>;

/// Where a text area's cursor is: (row, column), counted in characters.
pub uninterp spec fn text_cursor(t: TextBuffer) -> (usize, usize);

/// Where a text area's selection starts, while text is selected.
pub uninterp spec fn text_selection(t: TextBuffer) -> Option<(usize, usize)>;

/// A cursor that points into the text: at a line, at most at its end.
pub open spec fn cursor_valid(lines: Seq<Seq<char>>, cur: (usize, usize)) -> bool {
    &&& lines.len() > 0
    &&& cur.0 < lines.len()
    &&& cur.1 <= lines[cur.0 as int].len()
}

/// Row `r` joined with the row after it.
pub open spec fn join_rows(lines: Seq<Seq<char>>, r: int) -> Seq<Seq<char>> {
    lines.update(r, lines[r] + lines[r + 1]).remove(r + 1)
}

/// Where `CursorMove::WordForward` takes the cursor `cur` in `lines`: the
/// start of the next word on its line, else the start of the next line,
/// else the end of the last line, by the text area's own rules for what a
/// word is.
pub uninterp spec fn word_forward_target(lines: Seq<Seq<char>>, cur: (usize, usize)) -> (usize, usize);

/// Where `CursorMove::WordBack` takes the cursor `cur` in `lines`: the start
/// of the word before it on its line, else the end of the line above, else
/// the start of the first line.
pub uninterp spec fn word_back_target(lines: Seq<Seq<char>>, cur: (usize, usize)) -> (usize, usize);

/// Where `CursorMove::WordEnd` takes the cursor `cur` in `lines`: the last
/// character of the next word end after it, on its line or a later one,
/// else the end of the last line.
pub uninterp spec fn word_end_target(lines: Seq<Seq<char>>, cur: (usize, usize)) -> (usize, usize);

/// Where a cursor move puts the cursor `cur` in `lines`.
pub open spec fn moved_cursor(lines: Seq<Seq<char>>, cur: (usize, usize), m: CursorMove) -> (usize, usize) {
    let (r, c) = cur;
    let n = lines.len();
    let fit = |col: usize, row: int| if col <= lines[row].len() { col } else { lines[row].len() as usize };
    match m {
        CursorMove::Forward => if c >= lines[r as int].len() {
            if r + 1 < n {
                ((r + 1) as usize, 0usize)
            } else {
                cur
            }
        } else {
            (r, (c + 1) as usize)
        },
        CursorMove::Back => if c == 0 {
            if r == 0 {
                cur
            } else {
                ((r - 1) as usize, lines[r - 1].len() as usize)
            }
        } else {
            (r, (c - 1) as usize)
        },
        CursorMove::Up => if r == 0 {
            cur
        } else {
            ((r - 1) as usize, fit(c, r - 1))
        },
        CursorMove::Down => if r + 1 < n {
            ((r + 1) as usize, fit(c, r + 1))
        } else {
            cur
        },
        CursorMove::Head => (r, 0usize),
        CursorMove::End => (r, lines[r as int].len() as usize),
        CursorMove::Top => (0usize, fit(c, 0)),
        CursorMove::Bottom => ((n - 1) as usize, fit(c, n - 1)),
        CursorMove::WordForward => word_forward_target(lines, cur),
        CursorMove::WordBack => word_back_target(lines, cur),
        CursorMove::WordEnd => word_end_target(lines, cur),
    }
}

/// Breaking the line at the cursor with nothing selected: the rest of the
/// line moves to a new line below, and the cursor to its start.
pub open spec fn after_newline(lines: Seq<Seq<char>>, cur: (usize, usize)) -> (Seq<Seq<char>>, (usize, usize)) {
    let (r, c) = cur;
    (
        lines.update(r as int, lines[r as int].take(c as int)).insert(r + 1, lines[r as int].skip(c as int)),
        ((r + 1) as usize, 0usize),
    )
}

/// Deleting forward with nothing selected: the character under the cursor,
/// or at the end of a line the line break after it; nothing at the very end.
pub open spec fn after_delete_next(lines: Seq<Seq<char>>, cur: (usize, usize)) -> (Seq<Seq<char>>, (usize, usize)) {
    let (r, c) = cur;
    if c < lines[r as int].len() {
        (lines.update(r as int, lines[r as int].remove(c as int)), cur)
    } else if r + 1 < lines.len() {
        (join_rows(lines, r as int), cur)
    } else {
        (lines, cur)
    }
}

/// Deleting backward with nothing selected: the character before the
/// cursor, or at the start of a line the line break before it; nothing at
/// the very start.
pub open spec fn after_delete_prev(lines: Seq<Seq<char>>, cur: (usize, usize)) -> (Seq<Seq<char>>, (usize, usize)) {
    let (r, c) = cur;
    if c == 0 {
        if r == 0 {
            (lines, cur)
        } else {
            (join_rows(lines, r - 1), ((r - 1) as usize, lines[r - 1].len() as usize))
        }
    } else {
        (lines.update(r as int, lines[r as int].remove(c - 1)), (r, (c - 1) as usize))
    }
}

/// Deleting to the end of the line with nothing selected: the rest of the
/// line, or when there is none, the line break (as `after_delete_next`).
pub open spec fn after_delete_to_end(lines: Seq<Seq<char>>, cur: (usize, usize)) -> (Seq<Seq<char>>, (usize, usize)) {
    let (r, c) = cur;
    if c < lines[r as int].len() {
        (lines.update(r as int, lines[r as int].take(c as int)), cur)
    } else {
        after_delete_next(lines, cur)
    }
}

/// What a key press handed to the text area does when nothing is selected
/// and the cursor is in the text, for the keys whose effect is stated: a
/// plain character is inserted at the cursor, which moves past it; Enter
/// (and Ctrl-M, and a typed line break) breaks the line; Backspace and
/// Ctrl-H delete backward; Delete and Ctrl-D delete forward; Ctrl-K deletes
/// to the end of the line; the arrows, Home and End with no modifier move
/// the cursor as `moved_cursor` says. `None` for every other key.
pub open spec fn typed_effect(lines: Seq<Seq<char>>, cur: (usize, usize), key: Key) -> Option<
    (Seq<Seq<char>>, (usize, usize)),
> {
    let (r, c) = cur;
    match key.code {
        KeyCode::Enter => Some(after_newline(lines, cur)),
        KeyCode::Char(ch) => if key.alt {
            None
        } else if key.ctrl {
            if ch == 'm' {
                Some(after_newline(lines, cur))
            } else if ch == 'h' {
                Some(after_delete_prev(lines, cur))
            } else if ch == 'd' {
                Some(after_delete_next(lines, cur))
            } else if ch == 'k' {
                Some(after_delete_to_end(lines, cur))
            } else {
                None
            }
        } else if ch == '\n' || ch == '\r' {
            Some(after_newline(lines, cur))
        } else {
            Some((lines.update(r as int, lines[r as int].insert(c as int, ch)), (r, (c + 1) as usize)))
        },
        KeyCode::Backspace => if !key.ctrl && !key.alt {
            Some(after_delete_prev(lines, cur))
        } else {
            None
        },
        KeyCode::Delete => if !key.ctrl && !key.alt {
            Some(after_delete_next(lines, cur))
        } else {
            None
        },
        KeyCode::Left | KeyCode::Right | KeyCode::Up | KeyCode::Down | KeyCode::Home | KeyCode::End => if key.ctrl
            || key.alt || key.shift {
            None
        } else {
            let m = match key.code {
                KeyCode::Left => CursorMove::Back,
                KeyCode::Right => CursorMove::Forward,
                KeyCode::Up => CursorMove::Up,
                KeyCode::Down => CursorMove::Down,
                KeyCode::Home => CursorMove::Head,
                _ => CursorMove::End,
            };
            Some((lines, moved_cursor(lines, cur, m)))
        },
        _ => None,
    }
}

/// The lines, cursor and selection that `TextArea::input` leaves in a text
/// area for a key press, by the text area's own key bindings (which also
/// read its undo history, its cut text and its viewport).
pub uninterp spec fn input_state(t: TextBuffer, key: Key) -> (Seq<Seq<char>>, (usize, usize), Option<(usize, usize)>);

/// The lines, cursor and selection of a text area.
pub open spec fn text_state(t: TextBuffer) -> (Seq<Seq<char>>, (usize, usize), Option<(usize, usize)>) {
    (text_lines(t), text_cursor(t), text_selection(t))
}

/// Where `TextArea::delete_next_word` stops deleting on line `line` from
/// column `col`: the end of the word, or of the punctuation or the spaces
/// and the word after them, at the cursor, by the text area's own rules
/// for what a word is; the end of the line when nothing ends before it.
pub uninterp spec fn word_delete_end(line: Seq<char>, col: usize) -> usize;

/// Deleting the next word with nothing selected: from the cursor up to
/// `word_delete_end` when the cursor is before the end of its line, else as
/// `after_delete_next` (the line break after the line, if any).
pub open spec fn after_delete_word(lines: Seq<Seq<char>>, cur: (usize, usize)) -> (Seq<Seq<char>>, (usize, usize)) {
    let (r, c) = cur;
    let l = lines[r as int];
    if c < l.len() {
        (lines.update(r as int, l.take(c as int) + l.skip(word_delete_end(l, c) as int)), cur)
    } else {
        after_delete_next(lines, cur)
    }
}

/// The lines and cursor that `TextArea::undo` leaves in a text area: those
/// before the last edit of its history, or its own when there is none.
pub uninterp spec fn undo_state(t: TextBuffer) -> (Seq<Seq<char>>, (usize, usize));

/// The lines and cursor that `TextArea::redo` leaves in a text area: those
/// after the last undone edit of its history, or its own when there is none.
pub uninterp spec fn redo_state(t: TextBuffer) -> (Seq<Seq<char>>, (usize, usize));

/// An undo or redo either found nothing to do and left the text area as it
/// was, or ended any selection.
pub open spec fn undone_or_kept(before: TextBuffer, after: TextBuffer) -> bool {
    ||| (text_lines(after) == text_lines(before) && text_cursor(after) == text_cursor(before) && text_selection(
        after,
    ) == text_selection(before))
    ||| text_selection(after) is None
}

/// `TextArea::new`: a text area holding `lines` (one empty line when there
/// are none), with the cursor at the start.
#[verifier::external_body]
fn text_area_new(lines: Vec<String>) -> (r: TextBuffer)
    ensures
        text_lines(r) == (if lines@.len() == 0 {
            seq![seq![]]
        } else {
            strings_view(lines@)
        }),
        text_cursor(r) == (0usize, 0usize),
        text_selection(r) is None,
{
    TextBuffer { area: TextArea::new(lines) }
}

/// `TextArea::set_block` with an empty block: the text area draws no border.
/// Only how it is drawn changes.
#[verifier::external_body]
fn text_area_no_block(t: &mut TextBuffer)
    ensures
        text_lines(*final(t)) == text_lines(*old(t)),
        text_cursor(*final(t)) == text_cursor(*old(t)),
        text_selection(*final(t)) == text_selection(*old(t)),
{
    t.area.set_block(ratatui::widgets::Block::default())
}

/// `TextArea::set_cursor_line_style` with the plain style: the cursor's line
/// is not underlined. Only how it is drawn changes.
#[verifier::external_body]
fn text_area_plain_cursor_line(t: &mut TextBuffer)
    ensures
        text_lines(*final(t)) == text_lines(*old(t)),
        text_cursor(*final(t)) == text_cursor(*old(t)),
        text_selection(*final(t)) == text_selection(*old(t)),
{
    t.area.set_cursor_line_style(ratatui::style::Style::default())
}

/// `TextArea::set_cursor_style` with the plain style: the text area draws
/// no cursor of its own. Only how it is drawn changes.
#[verifier::external_body]
fn text_area_plain_cursor(t: &mut TextBuffer)
    ensures
        text_lines(*final(t)) == text_lines(*old(t)),
        text_cursor(*final(t)) == text_cursor(*old(t)),
        text_selection(*final(t)) == text_selection(*old(t)),
{
    t.area.set_cursor_style(ratatui::style::Style::default())
}

/// `TextArea::lines`: the lines it holds.
#[verifier::external_body]
fn text_area_lines(t: &TextBuffer) -> (r: Vec<String>)
    ensures
        strings_view(r@) == text_lines(*t),
{
    t.area.lines().to_vec()
}

/// `TextArea::cursor`: where its cursor is.
#[verifier::external_body]
fn text_area_cursor(t: &TextBuffer) -> (r: (usize, usize))
    ensures
        r == text_cursor(*t),
{
    t.area.cursor()
}

/// `TextArea::move_cursor`: moves the cursor; the text and the selection's
/// start stay as they are. With the cursor in the text, every move lands as
/// `moved_cursor` says (the moves by words where the word targets name).
#[verifier::external_body]
fn text_area_move(t: &mut TextBuffer, m: CursorMove)
    ensures
        text_lines(*final(t)) == text_lines(*old(t)),
        text_selection(*final(t)) == text_selection(*old(t)),
        m == CursorMove::Head ==> text_cursor(*final(t)) == (text_cursor(*old(t)).0, 0usize),
        cursor_valid(text_lines(*old(t)), text_cursor(*old(t))) ==> text_cursor(*final(t)) == moved_cursor(
            text_lines(*old(t)),
            text_cursor(*old(t)),
            m,
        ),
        cursor_valid(text_lines(*old(t)), text_cursor(*old(t))) && m == CursorMove::WordForward ==> text_cursor(
            *final(t),
        ) == word_forward_target(text_lines(*old(t)), text_cursor(*old(t))),
        cursor_valid(text_lines(*old(t)), text_cursor(*old(t))) && m == CursorMove::WordBack ==> text_cursor(
            *final(t),
        ) == word_back_target(text_lines(*old(t)), text_cursor(*old(t))),
        cursor_valid(text_lines(*old(t)), text_cursor(*old(t))) && m == CursorMove::WordEnd ==> text_cursor(
            *final(t),
        ) == word_end_target(text_lines(*old(t)), text_cursor(*old(t))),
{
    t.area.move_cursor(match m {
        CursorMove::Forward => tui_textarea::CursorMove::Forward,
        CursorMove::Back => tui_textarea::CursorMove::Back,
        CursorMove::Up => tui_textarea::CursorMove::Up,
        CursorMove::Down => tui_textarea::CursorMove::Down,
        CursorMove::Head => tui_textarea::CursorMove::Head,
        CursorMove::End => tui_textarea::CursorMove::End,
        CursorMove::Top => tui_textarea::CursorMove::Top,
        CursorMove::Bottom => tui_textarea::CursorMove::Bottom,
        CursorMove::WordForward => tui_textarea::CursorMove::WordForward,
        CursorMove::WordBack => tui_textarea::CursorMove::WordBack,
        CursorMove::WordEnd => tui_textarea::CursorMove::WordEnd,
    })
}

/// `TextArea::input`, with `key` turned into the text area's `Input`: the
/// text area's own handling of a key press, leaving what `input_state`
/// names. With nothing selected and the cursor in the text, the keys that
/// `typed_effect` describes act as it says; what the other keys do is
/// written out nowhere but in the name.
#[verifier::external_body]
fn text_area_input(t: &mut TextBuffer, key: Key)
    ensures
        text_state(*final(t)) == input_state(*old(t), key),
        text_selection(*old(t)) is None && cursor_valid(text_lines(*old(t)), text_cursor(*old(t))) ==> match typed_effect(
            text_lines(*old(t)),
            text_cursor(*old(t)),
            key,
        ) {
            Some((l, c)) => text_lines(*final(t)) == l && text_cursor(*final(t)) == c && text_selection(*final(t)) is None,
            None => true,
        },
{
    let code = match key.code {
        KeyCode::Char(c) => TextKey::Char(c),
        KeyCode::F(n) => TextKey::F(n),
        KeyCode::Up => TextKey::Up, KeyCode::Down => TextKey::Down,
        KeyCode::Left => TextKey::Left, KeyCode::Right => TextKey::Right,
        KeyCode::Tab => TextKey::Tab, KeyCode::Enter => TextKey::Enter, KeyCode::Esc => TextKey::Esc,
        KeyCode::Backspace => TextKey::Backspace, KeyCode::Delete => TextKey::Delete,
        KeyCode::Home => TextKey::Home, KeyCode::End => TextKey::End,
        KeyCode::PageUp => TextKey::PageUp, KeyCode::PageDown => TextKey::PageDown,
        KeyCode::Other => TextKey::Null,
    };
    t.area.input(Input { key: code, ctrl: key.ctrl, alt: key.alt, shift: key.shift });
}

/// `TextArea::insert_newline`: with nothing selected and the cursor in the
/// text, breaks the line as `after_newline` says. What it does when text is
/// selected (deleting the selection first) is not stated.
#[verifier::external_body]
fn text_area_insert_newline(t: &mut TextBuffer)
    ensures
        text_selection(*old(t)) is None && cursor_valid(text_lines(*old(t)), text_cursor(*old(t))) ==> ({
            let (l, c) = after_newline(text_lines(*old(t)), text_cursor(*old(t)));
            &&& text_lines(*final(t)) == l
            &&& text_cursor(*final(t)) == c
            &&& text_selection(*final(t)) is None
        }),
{
    t.area.insert_newline()
}

/// `TextArea::delete_next_char`: with nothing selected and the cursor in the
/// text, deletes as `after_delete_next` says. What it deletes when text is
/// selected (the selection) is not stated.
#[verifier::external_body]
fn text_area_delete_next_char(t: &mut TextBuffer)
    ensures
        text_selection(*old(t)) is None && cursor_valid(text_lines(*old(t)), text_cursor(*old(t))) ==> ({
            let (l, c) = after_delete_next(text_lines(*old(t)), text_cursor(*old(t)));
            &&& text_lines(*final(t)) == l
            &&& text_cursor(*final(t)) == c
            &&& text_selection(*final(t)) is None
        }),
{
    t.area.delete_next_char();
}

/// `TextArea::delete_char`: with nothing selected and the cursor in the
/// text, deletes as `after_delete_prev` says. What it deletes when text is
/// selected (the selection) is not stated.
#[verifier::external_body]
fn text_area_delete_char(t: &mut TextBuffer)
    ensures
        text_selection(*old(t)) is None && cursor_valid(text_lines(*old(t)), text_cursor(*old(t))) ==> ({
            let (l, c) = after_delete_prev(text_lines(*old(t)), text_cursor(*old(t)));
            &&& text_lines(*final(t)) == l
            &&& text_cursor(*final(t)) == c
            &&& text_selection(*final(t)) is None
        }),
{
    t.area.delete_char();
}

/// `TextArea::delete_next_word`: with nothing selected and the cursor in the
/// text, deletes as `after_delete_word` says, where the word ends strictly
/// after the cursor and at most at the line's end. What it deletes when text
/// is selected (the selection) is not stated.
#[verifier::external_body]
fn text_area_delete_next_word(t: &mut TextBuffer)
    ensures
        text_selection(*old(t)) is None && cursor_valid(text_lines(*old(t)), text_cursor(*old(t))) ==> ({
            let (l, c) = after_delete_word(text_lines(*old(t)), text_cursor(*old(t)));
            let (row, col) = text_cursor(*old(t));
            let line = text_lines(*old(t))[row as int];
            &&& col < line.len() ==> col < word_delete_end(line, col) <= line.len()
            &&& text_lines(*final(t)) == l
            &&& text_cursor(*final(t)) == c
            &&& text_selection(*final(t)) is None
        }),
{
    t.area.delete_next_word();
}

/// `TextArea::delete_line_by_end`: with nothing selected and the cursor in
/// the text, deletes as `after_delete_to_end` says. What it deletes when
/// text is selected (the selection) is not stated.
#[verifier::external_body]
fn text_area_delete_line_by_end(t: &mut TextBuffer)
    ensures
        text_selection(*old(t)) is None && cursor_valid(text_lines(*old(t)), text_cursor(*old(t))) ==> ({
            let (l, c) = after_delete_to_end(text_lines(*old(t)), text_cursor(*old(t)));
            &&& text_lines(*final(t)) == l
            &&& text_cursor(*final(t)) == c
            &&& text_selection(*final(t)) is None
        }),
{
    t.area.delete_line_by_end();
}

/// `TextArea::undo`: undoes the last edit from the text area's history,
/// leaving the lines and cursor that `undo_state` names. With no edit to
/// undo nothing changes; else the selection ends. Which text the history
/// restores is not written out.
#[verifier::external_body]
fn text_area_undo(t: &mut TextBuffer)
    ensures
        (text_lines(*final(t)), text_cursor(*final(t))) == undo_state(*old(t)),
        undone_or_kept(*old(t), *final(t)),
{
    t.area.undo();
}

/// `TextArea::redo`: redoes the last undone edit, leaving the lines and
/// cursor that `redo_state` names. With no edit to redo nothing changes;
/// else the selection ends. Which text the history restores is not
/// written out.
#[verifier::external_body]
fn text_area_redo(t: &mut TextBuffer)
    ensures
        (text_lines(*final(t)), text_cursor(*final(t))) == redo_state(*old(t)),
        undone_or_kept(*old(t), *final(t)),
{
    t.area.redo();
}

pub struct EditorState {
    pub textarea: TextBuffer,
    pub mode: EditorMode,
    pub title: String,
    pub comments: Vec<String>,
    pub pending_colon: bool,
    pub pending_ctrl_c: bool,
    pub pending_d: bool,
    pub pending_g: bool,
    pub intent: EditorIntent,
}

/// Cursor movements of the text area.
#[derive(Debug, Clone, Copy, PartialEq, Eq, Structural)]
pub enum CursorMove {
    Forward,
    Back,
    Up,
    Down,
    Head,
    End,
    Top,
    Bottom,
    WordForward,
    WordBack,
    WordEnd,
}

/// One operation on the text area.
#[derive(Debug, Clone, Copy, PartialEq, Eq, Structural)]
pub enum EditorOp {
    /// Hand the key press to the text area as typed text or editing key.
    Input(Key),
    Move(CursorMove),
    InsertNewline,
    DeleteNextChar,
    DeleteNextWord,
    DeleteLineByEnd,
    /// `dd`: delete the cursor's whole line (see `line_delete_join`).
    DeleteLine,
    Undo,
    Redo,
}

/// What the key press means for the editor as a whole.
#[derive(Debug, Clone, Copy, PartialEq, Eq, Structural)]
pub enum EditorOutcome {
    Continue,
    Save,
    Abort,
}

/// The editor's mode and pending keys.
#[derive(Debug, Clone, Copy, PartialEq, Eq, Structural)]
pub struct EditorKeys {
    pub mode: EditorMode,
    pub pending_colon: bool,
    pub pending_ctrl_c: bool,
    pub pending_d: bool,
    pub pending_g: bool,
}

impl EditorState {
    pub open spec fn keys(&self) -> EditorKeys {
        EditorKeys {
            mode: self.mode,
            pending_colon: self.pending_colon,
            pending_ctrl_c: self.pending_ctrl_c,
            pending_d: self.pending_d,
            pending_g: self.pending_g,
        }
    }
}

/// A Normal-mode key without a pending prefix: its operations, and the new
/// mode and pending keys.
pub open spec fn normal_key(k: EditorKeys, key: Key) -> (EditorKeys, Seq<EditorOp>, EditorOutcome) {
    let insert = EditorKeys { mode: EditorMode::Insert, ..k };
    match key.code {
        KeyCode::Char('i') => (insert, seq![], EditorOutcome::Continue),
        KeyCode::Char('a') => (insert, seq![EditorOp::Move(CursorMove::Forward)], EditorOutcome::Continue),
        KeyCode::Char('A') => (insert, seq![EditorOp::Move(CursorMove::End)], EditorOutcome::Continue),
        KeyCode::Char('o') => (
            insert,
            seq![EditorOp::Move(CursorMove::End), EditorOp::InsertNewline],
            EditorOutcome::Continue,
        ),
        KeyCode::Char('O') => (
            insert,
            seq![EditorOp::Move(CursorMove::Head), EditorOp::InsertNewline, EditorOp::Move(CursorMove::Up)],
            EditorOutcome::Continue,
        ),
        KeyCode::Char('h') | KeyCode::Left => (k, seq![EditorOp::Move(CursorMove::Back)], EditorOutcome::Continue),
        KeyCode::Char('l') | KeyCode::Right => (k, seq![EditorOp::Move(CursorMove::Forward)], EditorOutcome::Continue),
        KeyCode::Char('j') | KeyCode::Down => (k, seq![EditorOp::Move(CursorMove::Down)], EditorOutcome::Continue),
        KeyCode::Char('k') | KeyCode::Up => (k, seq![EditorOp::Move(CursorMove::Up)], EditorOutcome::Continue),
        KeyCode::Char('w') => (k, seq![EditorOp::Move(CursorMove::WordForward)], EditorOutcome::Continue),
        KeyCode::Char('b') => (k, seq![EditorOp::Move(CursorMove::WordBack)], EditorOutcome::Continue),
        KeyCode::Char('e') => (k, seq![EditorOp::Move(CursorMove::WordEnd)], EditorOutcome::Continue),
        KeyCode::Char('0') => (k, seq![EditorOp::Move(CursorMove::Head)], EditorOutcome::Continue),
        KeyCode::Char('$') => (k, seq![EditorOp::Move(CursorMove::End)], EditorOutcome::Continue),
        KeyCode::Char('G') => (k, seq![EditorOp::Move(CursorMove::Bottom)], EditorOutcome::Continue),
        KeyCode::Char('g') => (EditorKeys { pending_g: true, ..k }, seq![], EditorOutcome::Continue),
        KeyCode::Char('x') => (k, seq![EditorOp::DeleteNextChar], EditorOutcome::Continue),
        KeyCode::Char('d') => (EditorKeys { pending_d: true, ..k }, seq![], EditorOutcome::Continue),
        KeyCode::Char('u') => (k, seq![EditorOp::Undo], EditorOutcome::Continue),
        KeyCode::Char('r') if key.ctrl => (k, seq![EditorOp::Redo], EditorOutcome::Continue),
        KeyCode::Enter => (k, seq![], EditorOutcome::Save),
        KeyCode::Char('q') => (k, seq![], EditorOutcome::Abort),
        KeyCode::Char(':') => (EditorKeys { pending_colon: true, ..k }, seq![], EditorOutcome::Continue),
        _ => (k, seq![], EditorOutcome::Continue),
    }
}

/// The editor's response to a key press, vim-like:
/// - Ctrl-C Ctrl-C (Emacs-style): the first press arms, the second saves;
///   any other key disarms.
/// - Insert mode: Esc goes to Normal mode; other keys edit the text.
/// - `:wq` / `:q` save, `:w` waits for the `q`; `dd`, `dw`, `d$` delete;
///   `gg` goes to the top; Enter saves; `q` aborts.
pub open spec fn spec_editor_step(k: EditorKeys, key: Key) -> (EditorKeys, Seq<EditorOp>, EditorOutcome) {
    if key.ctrl && key.code == KeyCode::Char('c') {
        let armed = !k.pending_ctrl_c;
        (
            EditorKeys { pending_ctrl_c: armed, ..k },
            seq![],
            if armed { EditorOutcome::Continue } else { EditorOutcome::Save },
        )
    } else {
        let k = EditorKeys { pending_ctrl_c: false, ..k };
        match k.mode {
            EditorMode::Insert => if key.code == KeyCode::Esc {
                (EditorKeys { mode: EditorMode::Normal, ..k }, seq![], EditorOutcome::Continue)
            } else {
                (k, seq![EditorOp::Input(key)], EditorOutcome::Continue)
            },
            EditorMode::Normal => if k.pending_colon {
                if key.code == KeyCode::Char('w') {
                    (k, seq![], EditorOutcome::Continue)
                } else {
                    (
                        EditorKeys { pending_colon: false, ..k },
                        seq![],
                        if key.code == KeyCode::Char('q') { EditorOutcome::Save } else { EditorOutcome::Continue },
                    )
                }
            } else if k.pending_d {
                let k = EditorKeys { pending_d: false, ..k };
                match key.code {
                    KeyCode::Char('d') => (k, seq![EditorOp::DeleteLine], EditorOutcome::Continue),
                    KeyCode::Char('w') => (k, seq![EditorOp::DeleteNextWord], EditorOutcome::Continue),
                    KeyCode::Char('$') => (k, seq![EditorOp::DeleteLineByEnd], EditorOutcome::Continue),
                    _ => (k, seq![], EditorOutcome::Continue),
                }
            } else if k.pending_g {
                let k = EditorKeys { pending_g: false, ..k };
                if key.code == KeyCode::Char('g') {
                    (k, seq![EditorOp::Move(CursorMove::Top)], EditorOutcome::Continue)
                } else {
                    (k, seq![], EditorOutcome::Continue)
                }
            } else {
                normal_key(k, key)
            },
        }
    }
}

fn one(op: EditorOp) -> (r: Vec<EditorOp>)
    ensures
        r@ == seq![op],
{
    let mut v = Vec::new();
    v.push(op);
    v
}

impl EditorState {
    /// Apply a key press to the mode and pending keys; returns the text-area
    /// operations to run, in order, and whether to save or abort.
    pub fn key_step(&mut self, key: Key) -> (r: (Vec<EditorOp>, EditorOutcome))
        ensures
            (final(self).keys(), r.0@, r.1) == spec_editor_step(old(self).keys(), key),
            final(self).title == old(self).title,
            final(self).comments == old(self).comments,
            final(self).intent == old(self).intent,
            final(self).textarea == old(self).textarea,
    {
        if key.ctrl && key.code == KeyCode::Char('c') {
            self.pending_ctrl_c = !self.pending_ctrl_c;
            let outcome = if self.pending_ctrl_c { EditorOutcome::Continue } else { EditorOutcome::Save };
            return (Vec::new(), outcome);
        }
        self.pending_ctrl_c = false;
        match self.mode {
            EditorMode::Insert => {
                if key.code == KeyCode::Esc {
                    self.mode = EditorMode::Normal;
                    (Vec::new(), EditorOutcome::Continue)
                } else {
                    (one(EditorOp::Input(key)), EditorOutcome::Continue)
                }
            },
            EditorMode::Normal => {
                if self.pending_colon {
                    if key.code == KeyCode::Char('w') {
                        // wait for 'q'
                        return (Vec::new(), EditorOutcome::Continue);
                    }
                    self.pending_colon = false;
                    let outcome = if key.code == KeyCode::Char('q') { EditorOutcome::Save } else { EditorOutcome::Continue };
                    (Vec::new(), outcome)
                } else if self.pending_d {
                    self.pending_d = false;
                    let ops = match key.code {
                        KeyCode::Char('d') => one(EditorOp::DeleteLine),
                        KeyCode::Char('w') => one(EditorOp::DeleteNextWord),
                        KeyCode::Char('$') => one(EditorOp::DeleteLineByEnd),
                        _ => Vec::new(),
                    };
                    (ops, EditorOutcome::Continue)
                } else if self.pending_g {
                    self.pending_g = false;
                    let ops = if key.code == KeyCode::Char('g') { one(EditorOp::Move(CursorMove::Top)) } else { Vec::new() };
                    (ops, EditorOutcome::Continue)
                } else {
                    self.normal_key(key)
                }
            },
        }
    }

    fn normal_key(&mut self, key: Key) -> (r: (Vec<EditorOp>, EditorOutcome))
        ensures
            (final(self).keys(), r.0@, r.1) == normal_key(old(self).keys(), key),
            final(self).title == old(self).title,
            final(self).comments == old(self).comments,
            final(self).intent == old(self).intent,
            final(self).textarea == old(self).textarea,
    {
        let mut ops: Vec<EditorOp> = Vec::new();
        let mut outcome = EditorOutcome::Continue;
        match key.code {
            KeyCode::Char('i') => self.mode = EditorMode::Insert,
            KeyCode::Char('a') => {
                self.mode = EditorMode::Insert;
                ops.push(EditorOp::Move(CursorMove::Forward));
            },
            KeyCode::Char('A') => {
                self.mode = EditorMode::Insert;
                ops.push(EditorOp::Move(CursorMove::End));
            },
            KeyCode::Char('o') => {
                ops.push(EditorOp::Move(CursorMove::End));
                ops.push(EditorOp::InsertNewline);
                self.mode = EditorMode::Insert;
            },
            KeyCode::Char('O') => {
                ops.push(EditorOp::Move(CursorMove::Head));
                ops.push(EditorOp::InsertNewline);
                ops.push(EditorOp::Move(CursorMove::Up));
                self.mode = EditorMode::Insert;
            },
            KeyCode::Char('h') | KeyCode::Left => ops.push(EditorOp::Move(CursorMove::Back)),
            KeyCode::Char('l') | KeyCode::Right => ops.push(EditorOp::Move(CursorMove::Forward)),
            KeyCode::Char('j') | KeyCode::Down => ops.push(EditorOp::Move(CursorMove::Down)),
            KeyCode::Char('k') | KeyCode::Up => ops.push(EditorOp::Move(CursorMove::Up)),
            KeyCode::Char('w') => ops.push(EditorOp::Move(CursorMove::WordForward)),
            KeyCode::Char('b') => ops.push(EditorOp::Move(CursorMove::WordBack)),
            KeyCode::Char('e') => ops.push(EditorOp::Move(CursorMove::WordEnd)),
            KeyCode::Char('0') => ops.push(EditorOp::Move(CursorMove::Head)),
            KeyCode::Char('$') => ops.push(EditorOp::Move(CursorMove::End)),
            KeyCode::Char('G') => ops.push(EditorOp::Move(CursorMove::Bottom)),
            KeyCode::Char('g') => self.pending_g = true,
            KeyCode::Char('x') => ops.push(EditorOp::DeleteNextChar),
            KeyCode::Char('d') => self.pending_d = true,
            KeyCode::Char('u') => ops.push(EditorOp::Undo),
            KeyCode::Char('r') if key.ctrl => ops.push(EditorOp::Redo),
            KeyCode::Enter => outcome = EditorOutcome::Save,
            KeyCode::Char('q') => outcome = EditorOutcome::Abort,
            KeyCode::Char(':') => self.pending_colon = true,
            _ => {},
        }
        assert(ops@ =~= normal_key(old(self).keys(), key).1);
        (ops, outcome)
    }
}

/// After `dd` cleared the text of line `row` of `line_count` lines, what
/// joins the now empty line away: the next line's break when there is a
/// later line, else the previous one's; `None` for a lone line.
#[derive(Debug, Clone, Copy, PartialEq, Eq, Structural)]
pub enum LineJoin {
    DeleteNextChar,
    DeletePrevChar,
}

pub fn line_delete_join(row: usize, line_count: usize) -> (r: Option<LineJoin>)
    ensures
        r == (if row + 1 < line_count {
            Some(LineJoin::DeleteNextChar)
        } else if row > 0 {
            Some(LineJoin::DeletePrevChar)
        } else {
            None
        }),
{
    if row < line_count && row + 1 < line_count {
        Some(LineJoin::DeleteNextChar)
    } else if row > 0 {
        Some(LineJoin::DeletePrevChar)
    } else {
        None
    }
}

/// What `dd` does to the text and cursor when nothing is selected: the
/// cursor goes to the start of its line, the line's text is deleted to its
/// end, and then the line break after it (or, on the last line, before it)
/// is deleted.
pub open spec fn dd_effect(lines: Seq<Seq<char>>, cur: (usize, usize)) -> (Seq<Seq<char>>, (usize, usize)) {
    let r = cur.0;
    let s = after_delete_to_end(lines, (r, 0usize));
    if r + 1 < lines.len() {
        after_delete_next(s.0, s.1)
    } else if r > 0 {
        after_delete_prev(s.0, s.1)
    } else {
        s
    }
}

/// What one text-area operation does to the text and cursor when nothing
/// is selected and the cursor is in the text; `None` for the operations
/// whose effect is the text area's own (the typed keys that `typed_effect`
/// does not describe, undo and redo).
pub open spec fn op_effect(lines: Seq<Seq<char>>, cur: (usize, usize), op: EditorOp) -> Option<
    (Seq<Seq<char>>, (usize, usize)),
> {
    if !cursor_valid(lines, cur) {
        None
    } else {
        match op {
            EditorOp::Move(m) => Some((lines, moved_cursor(lines, cur, m))),
            EditorOp::InsertNewline => Some(after_newline(lines, cur)),
            EditorOp::DeleteNextChar => Some(after_delete_next(lines, cur)),
            EditorOp::DeleteLineByEnd => Some(after_delete_to_end(lines, cur)),
            EditorOp::DeleteLine => Some(dd_effect(lines, cur)),
            EditorOp::DeleteNextWord => Some(after_delete_word(lines, cur)),
            EditorOp::Input(key) => typed_effect(lines, cur, key),
            _ => None,
        }
    }
}

/// The operations `ops` run in order from `lines` and `cur` (see
/// `op_effect`); `None` when one of them is not described there.
pub open spec fn ops_effect(lines: Seq<Seq<char>>, cur: (usize, usize), ops: Seq<EditorOp>) -> Option<
    (Seq<Seq<char>>, (usize, usize)),
>
    decreases ops.len(),
{
    if ops.len() == 0 {
        Some((lines, cur))
    } else {
        match ops_effect(lines, cur, ops.drop_last()) {
            Some((l, c)) => op_effect(l, c, ops.last()),
            None => None,
        }
    }
}

/// When a sequence of operations is described, so is each of its prefixes.
pub proof fn lemma_ops_effect_prefix(lines: Seq<Seq<char>>, cur: (usize, usize), ops: Seq<EditorOp>, k: int)
    requires
        0 <= k <= ops.len(),
        ops_effect(lines, cur, ops) is Some,
    ensures
        ops_effect(lines, cur, ops.take(k)) is Some,
    decreases ops.len() - k,
{
    if k == ops.len() {
        assert(ops.take(k) =~= ops);
    } else {
        lemma_ops_effect_prefix(lines, cur, ops, k + 1);
        let t = ops.take(k + 1);
        assert(t.drop_last() =~= ops.take(k));
        assert(ops_effect(lines, cur, t) is Some);
        if ops_effect(lines, cur, t.drop_last()) is None {
            assert(ops_effect(lines, cur, t) is None);
        }
    }
}

/// Deleting to the end of the line keeps the cursor in the text.
pub proof fn lemma_valid_after_to_end(lines: Seq<Seq<char>>, cur: (usize, usize))
    requires
        cursor_valid(lines, cur),
    ensures
        cursor_valid(after_delete_to_end(lines, cur).0, after_delete_to_end(lines, cur).1),
{
    let (r, c) = cur;
    if r + 1 < lines.len() && c >= lines[r as int].len() {
        let j = join_rows(lines, r as int);
        assert(j[r as int] == lines[r as int] + lines[r + 1]);
    }
}

impl EditorState {
    /// A fresh editor in Insert mode with no pending keys, its text area
    /// holding `initial_message` (see `spec_initial_lines`) and drawn plain,
    /// with nothing selected and the cursor at the end of the first line.
    pub fn new(title: String, initial_message: &str, comments: Vec<String>, intent: EditorIntent) -> (r: EditorState)
        ensures
            r.mode == EditorMode::Insert,
            r.title == title,
            r.comments == comments,
            r.intent == intent,
            !r.pending_colon && !r.pending_ctrl_c && !r.pending_d && !r.pending_g,
            text_lines(r.textarea) == spec_initial_lines(initial_message@),
            text_cursor(r.textarea) == (0usize, spec_initial_lines(initial_message@)[0].len() as usize),
            text_selection(r.textarea) is None,
    {
        let lines = initial_lines(initial_message);
        proof {
            if initial_message@.len() > 0 {
                crate::text::lemma_lines_of_nonempty(initial_message@);
            }
        }
        let mut textarea = text_area_new(lines);
        text_area_no_block(&mut textarea);
        text_area_plain_cursor_line(&mut textarea);
        text_area_plain_cursor(&mut textarea);
        text_area_move(&mut textarea, CursorMove::End);
        EditorState {
            textarea,
            mode: EditorMode::Insert,
            title,
            comments,
            pending_colon: false,
            pending_ctrl_c: false,
            pending_d: false,
            pending_g: false,
            intent,
        }
    }

    /// The message written: the text area's lines joined with newlines,
    /// white space trimmed from both ends.
    pub fn message(&self) -> (r: String)
        ensures
            r@ == trim(join_with_newlines(text_lines(self.textarea))),
    {
        let lines = text_area_lines(&self.textarea);
        message_from_lines(&lines)
    }

    /// `dd`: clear the cursor's line, then join the empty line away (see
    /// `line_delete_join`). With nothing selected, the text ends as
    /// `dd_effect` says.
    pub fn delete_line(&mut self)
        ensures
            final(self).keys() == old(self).keys(),
            final(self).title == old(self).title,
            final(self).comments == old(self).comments,
            final(self).intent == old(self).intent,
            text_selection(old(self).textarea) is None && cursor_valid(
                text_lines(old(self).textarea),
                text_cursor(old(self).textarea),
            ) ==> (text_lines(final(self).textarea), text_cursor(final(self).textarea)) == dd_effect(
                text_lines(old(self).textarea),
                text_cursor(old(self).textarea),
            ) && text_selection(final(self).textarea) is None,
    {
        let ghost l0 = text_lines(self.textarea);
        let ghost c0 = text_cursor(self.textarea);
        let ghost sel = text_selection(self.textarea);
        let (row, _) = text_area_cursor(&self.textarea);
        let lines = text_area_lines(&self.textarea);
        let line_count = lines.len();
        text_area_move(&mut self.textarea, CursorMove::Head);
        proof {
            if sel is None && cursor_valid(l0, c0) {
                lemma_valid_after_to_end(l0, (c0.0, 0usize));
            }
        }
        text_area_delete_line_by_end(&mut self.textarea);
        match line_delete_join(row, line_count) {
            Some(LineJoin::DeleteNextChar) => text_area_delete_next_char(&mut self.textarea),
            Some(LineJoin::DeletePrevChar) => text_area_delete_char(&mut self.textarea),
            None => {},
        }
    }

    /// Run `ops` on the text area, in order. Cursor moves leave the text as
    /// it is; with nothing selected and the cursor in the text, operations
    /// that `op_effect` describes leave the text and cursor as `ops_effect`
    /// says; a lone undo or redo either changes nothing or ends the selection.
    pub fn run_ops(&mut self, ops: &Vec<EditorOp>)
        ensures
            final(self).keys() == old(self).keys(),
            final(self).title == old(self).title,
            final(self).comments == old(self).comments,
            final(self).intent == old(self).intent,
            ops@.len() == 0 ==> final(self).textarea == old(self).textarea,
            (forall|i: int| 0 <= i < ops@.len() ==> (#[trigger] ops@[i]) is Move) ==> text_lines(final(self).textarea)
                == text_lines(old(self).textarea),
            text_selection(old(self).textarea) is None ==> match ops_effect(
                text_lines(old(self).textarea),
                text_cursor(old(self).textarea),
                ops@,
            ) {
                Some((l, c)) => text_lines(final(self).textarea) == l && text_cursor(final(self).textarea) == c
                    && text_selection(final(self).textarea) is None,
                None => true,
            },
            ops@ == seq![EditorOp::Undo] || ops@ == seq![EditorOp::Redo] ==> undone_or_kept(
                old(self).textarea,
                final(self).textarea,
            ),
            ops@ == seq![EditorOp::Undo] ==> (text_lines(final(self).textarea), text_cursor(final(self).textarea))
                == undo_state(old(self).textarea),
            ops@ == seq![EditorOp::Redo] ==> (text_lines(final(self).textarea), text_cursor(final(self).textarea))
                == redo_state(old(self).textarea),
            ops@.len() == 1 && ops@[0] is Input ==> text_state(final(self).textarea) == input_state(
                old(self).textarea,
                ops@[0]->Input_0,
            ),
    {
        let ghost l0 = text_lines(self.textarea);
        let ghost c0 = text_cursor(self.textarea);
        let ghost pre = text_selection(self.textarea) is None && ops_effect(l0, c0, ops@) is Some;
        let mut i: usize = 0;
        assert(ops@.take(0) =~= Seq::<EditorOp>::empty());
        while i < ops.len()
            invariant
                i <= ops@.len(),
                self.keys() == old(self).keys(),
                self.title == old(self).title,
                self.comments == old(self).comments,
                self.intent == old(self).intent,
                l0 == text_lines(old(self).textarea),
                c0 == text_cursor(old(self).textarea),
                pre == (text_selection(old(self).textarea) is None && ops_effect(l0, c0, ops@) is Some),
                i == 0 ==> self.textarea == old(self).textarea,
                (ops@ == seq![EditorOp::Undo] || ops@ == seq![EditorOp::Redo]) && i > 0 ==> undone_or_kept(
                    old(self).textarea,
                    self.textarea,
                ),
                ops@ == seq![EditorOp::Undo] && i > 0 ==> (text_lines(self.textarea), text_cursor(self.textarea))
                    == undo_state(old(self).textarea),
                ops@ == seq![EditorOp::Redo] && i > 0 ==> (text_lines(self.textarea), text_cursor(self.textarea))
                    == redo_state(old(self).textarea),
                ops@.len() == 1 && ops@[0] is Input && i > 0 ==> text_state(self.textarea) == input_state(
                    old(self).textarea,
                    ops@[0]->Input_0,
                ),
                (forall|j: int| 0 <= j < ops@.len() ==> (#[trigger] ops@[j]) is Move) ==> text_lines(self.textarea)
                    == text_lines(old(self).textarea),
                pre ==> (ops_effect(l0, c0, ops@.take(i as int)) matches Some((l, c)) && text_lines(self.textarea)
                    == l && text_cursor(self.textarea) == c && text_selection(self.textarea) is None),
            decreases ops@.len() - i,
        {
            proof {
                if pre {
                    lemma_ops_effect_prefix(l0, c0, ops@, i + 1);
                    assert(ops@.take(i + 1).drop_last() =~= ops@.take(i as int));
                    assert(ops@.take(i + 1).last() == ops@[i as int]);
                }
            }
            match ops[i] {
                EditorOp::Input(key) => text_area_input(&mut self.textarea, key),
                EditorOp::Move(m) => text_area_move(&mut self.textarea, m),
                EditorOp::InsertNewline => text_area_insert_newline(&mut self.textarea),
                EditorOp::DeleteNextChar => text_area_delete_next_char(&mut self.textarea),
                EditorOp::DeleteNextWord => text_area_delete_next_word(&mut self.textarea),
                EditorOp::DeleteLineByEnd => text_area_delete_line_by_end(&mut self.textarea),
                EditorOp::DeleteLine => self.delete_line(),
                EditorOp::Undo => text_area_undo(&mut self.textarea),
                EditorOp::Redo => text_area_redo(&mut self.textarea),
            }
            i += 1;
        }
        assert(ops@.take(ops@.len() as int) =~= ops@);
    }

    /// Handle a key press: update the mode and pending keys, run the
    /// text-area operations it asks for (see `spec_editor_step`), and say
    /// whether to save or abort. Keys that ask for no operation leave the
    /// text area as it was; saving and aborting never edit; in Insert mode a
    /// key that `typed_effect` describes edits as it says; `u` and Ctrl-R in
    /// Normal mode leave what `undo_state` and `redo_state` name, and either
    /// change nothing or end the selection.
    pub fn handle_key(&mut self, key: Key) -> (r: EditorOutcome)
        ensures
            ({
                let (keys, ops, outcome) = spec_editor_step(old(self).keys(), key);
                &&& final(self).keys() == keys
                &&& r == outcome
                &&& ops.len() == 0 ==> final(self).textarea == old(self).textarea
                &&& (forall|i: int| 0 <= i < ops.len() ==> (#[trigger] ops[i]) is Move) ==> text_lines(
                    final(self).textarea,
                ) == text_lines(old(self).textarea)
                &&& text_selection(old(self).textarea) is None ==> match ops_effect(
                    text_lines(old(self).textarea),
                    text_cursor(old(self).textarea),
                    ops,
                ) {
                    Some((l, c)) => text_lines(final(self).textarea) == l && text_cursor(final(self).textarea) == c,
                    None => true,
                }
                &&& ops == seq![EditorOp::Undo] || ops == seq![EditorOp::Redo] ==> undone_or_kept(
                    old(self).textarea,
                    final(self).textarea,
                )
                &&& ops == seq![EditorOp::Undo] ==> (text_lines(final(self).textarea), text_cursor(final(self).textarea))
                    == undo_state(old(self).textarea)
                &&& ops == seq![EditorOp::Redo] ==> (text_lines(final(self).textarea), text_cursor(final(self).textarea))
                    == redo_state(old(self).textarea)
                &&& ops.len() == 1 && ops[0] is Input ==> text_state(final(self).textarea) == input_state(
                    old(self).textarea,
                    ops[0]->Input_0,
                )
            }),
            r != EditorOutcome::Continue ==> final(self).textarea == old(self).textarea,
            final(self).title == old(self).title,
            final(self).comments == old(self).comments,
            final(self).intent == old(self).intent,
    {
        let (ops, outcome) = self.key_step(key);
        proof {
            lemma_ending_keys_run_nothing(old(self).keys(), key);
        }
        let ghost mid = *self;
        self.run_ops(&ops);
        proof {
            let sp = spec_editor_step(old(self).keys(), key);
            assert(sp.1 == ops@);
            assert(mid.textarea == old(self).textarea);
            if forall|i: int| 0 <= i < sp.1.len() ==> (#[trigger] sp.1[i]) is Move {
                assert(forall|i: int| 0 <= i < ops@.len() ==> (#[trigger] ops@[i]) is Move);
            }
        }
        outcome
    }
}

/// A key press that saves or aborts asks for no text-area operation.
pub proof fn lemma_ending_keys_run_nothing(k: EditorKeys, key: Key)
    ensures
        spec_editor_step(k, key).2 != EditorOutcome::Continue ==> spec_editor_step(k, key).1.len() == 0,
{
}

/// The lines the text area starts with: those of `message`, or one empty
/// line when the message is empty.
pub open spec fn spec_initial_lines(message: Seq<char>) -> Seq<Seq<char>> {
    if message.len() == 0 {
        seq![seq![]]
    } else {
        lines_of(message)
    }
}

/// `spec_initial_lines`, computed.
pub fn initial_lines(message: &str) -> (r: Vec<String>)
    ensures
        strings_view(r@) == spec_initial_lines(message@),
{
    let v = chars_of(message);
    let mut out: Vec<String> = Vec::new();
    if v.len() == 0 {
        out.push(String::new());
        assert(strings_view(out@) =~= seq![Seq::<char>::empty()]);
        return out;
    }
    let spans = line_spans(&v);
    let mut i: usize = 0;
    while i < spans.len()
        invariant
            spans_within(v@.len(), spans@),
            i <= spans@.len(),
            strings_view(out@) == spans_text(v@, spans@).take(i as int),
        decreases spans@.len() - i,
    {
        let (a, b) = spans[i];
        assert(spans@[i as int].0 <= spans@[i as int].1 <= v@.len());
        let ghost before = out@;
        out.push(string_of_range(&v, a, b));
        assert(strings_view(out@) =~= strings_view(before).push(span_text(v@, spans@[i as int])));
        assert(spans_text(v@, spans@).take(i + 1) =~= spans_text(v@, spans@).take(i as int).push(
            spans_text(v@, spans@)[i as int],
        ));
        i += 1;
    }
    assert(spans_text(v@, spans@).take(spans@.len() as int) =~= spans_text(v@, spans@));
    out
}

/// The lines joined with newlines between them.
pub open spec fn join_with_newlines(ls: Seq<Seq<char>>) -> Seq<char>
    decreases ls.len(),
{
    if ls.len() == 0 {
        seq![]
    } else if ls.len() == 1 {
        ls[0]
    } else {
        join_with_newlines(ls.drop_last()) + seq!['\n'] + ls.last()
    }
}

/// The message the text area's lines make: joined with newlines, with white
/// space trimmed from both ends.
pub fn message_from_lines(lines: &Vec<String>) -> (r: String)
    ensures
        r@ == trim(join_with_newlines(strings_view(lines@))),
{
    let mut out: Vec<char> = Vec::new();
    let mut i: usize = 0;
    let ghost ls = strings_view(lines@);
    while i < lines.len()
        invariant
            ls == strings_view(lines@),
            i <= lines@.len(),
            out@ == join_with_newlines(ls.take(i as int)),
        decreases lines@.len() - i,
    {
        let ghost before = out@;
        assert(ls.take(i + 1).drop_last() =~= ls.take(i as int));
        assert(ls.take(i + 1).last() == lines@[i as int]@);
        if i > 0 {
            out.push('\n');
        }
        let c = chars_of(lines[i].as_str());
        let ghost mid = out@;
        let mut j: usize = 0;
        while j < c.len()
            invariant
                j <= c@.len(),
                out@ == mid + c@.take(j as int),
            decreases c@.len() - j,
        {
            out.push(c[j]);
            assert(c@.take(j + 1) =~= c@.take(j as int).push(c@[j as int]));
            j += 1;
        }
        assert(c@.take(c@.len() as int) =~= c@);
        if i == 0 {
            assert(ls.take(1) =~= seq![ls[0]]);
            assert(out@ =~= join_with_newlines(ls.take(1)));
        } else {
            assert(out@ =~= join_with_newlines(ls.take(i + 1)));
        }
        i += 1;
    }
    assert(ls.take(lines@.len() as int) =~= ls);
    let (lo, hi) = trim_bounds(&out, 0, out.len());
    assert(out@.subrange(0, out@.len() as int) =~= out@);
    string_of_range(&out, lo, hi)
}

} // verus!
