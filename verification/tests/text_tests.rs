use rugit::editor::{initial_lines, line_delete_join, message_from_lines, EditorOp, EditorState, LineJoin};
use rugit::app::{EditorIntent, EditorMode};
use rugit::keybindings::{key_to_action, Action, Key, KeyCode};
use rugit::text::{trim_end_str, trim_str};

#[test]
fn trim_removes_unicode_white_space() {
    assert_eq!(trim_str("\t a b \u{3000}\n"), "a b");
    assert_eq!(trim_str("   "), "");
    assert_eq!(trim_end_str("  x \n"), "  x");
}

#[test]
fn initial_lines_of_a_message() {
    assert_eq!(initial_lines(""), vec![String::new()]);
    assert_eq!(initial_lines("a\r\nb\n"), vec!["a".to_string(), "b".to_string()]);
}

#[test]
fn message_joins_and_trims() {
    let lines = vec!["".to_string(), "subject ".to_string(), "".to_string(), "body".to_string(), " ".to_string()];
    assert_eq!(message_from_lines(&lines), "subject \n\nbody");
    assert_eq!(message_from_lines(&vec![]), "");
}

#[test]
fn dd_joins_the_empty_line_away() {
    assert_eq!(line_delete_join(0, 3), Some(LineJoin::DeleteNextChar));
    assert_eq!(line_delete_join(2, 3), Some(LineJoin::DeletePrevChar));
    assert_eq!(line_delete_join(0, 1), None);
}

#[test]
fn normal_mode_keys() {
    let mut e = EditorState::new("t".to_string(), "", vec![], EditorIntent::Commit);
    let esc = Key { code: KeyCode::Esc, ctrl: false, alt: false, shift: false };
    let (ops, _) = e.key_step(esc);
    assert!(ops.is_empty());
    assert_eq!(e.mode, EditorMode::Normal);
    let (ops, _) = e.key_step(Key { code: KeyCode::Char('d'), ctrl: false, alt: false, shift: false });
    assert!(ops.is_empty());
    let (ops, _) = e.key_step(Key { code: KeyCode::Char('d'), ctrl: false, alt: false, shift: false });
    assert_eq!(ops, vec![EditorOp::DeleteLine]);
    let (ops, _) = e.key_step(Key { code: KeyCode::Char('o'), ctrl: false, alt: false, shift: false });
    assert_eq!(ops.len(), 2);
    assert_eq!(e.mode, EditorMode::Insert);
}

#[test]
fn key_map_chords_and_control_keys() {
    let k = |c: char| Key { code: KeyCode::Char(c), ctrl: false, alt: false, shift: false };
    assert_eq!(key_to_action(k('c'), Some('c')), Action::CommitConfirm);
    assert_eq!(key_to_action(k('F'), Some('c')), Action::FixupPick);
    assert_eq!(key_to_action(k('x'), Some('z')), Action::NoOp);
    assert_eq!(key_to_action(Key { code: KeyCode::Enter, ctrl: false, alt: false, shift: false }, Some('p')), Action::NoOp);
    assert_eq!(key_to_action(Key { code: KeyCode::Char('d'), ctrl: true, alt: false, shift: false }, None), Action::PageDown);
    assert_eq!(key_to_action(Key { code: KeyCode::Char('c'), ctrl: true, alt: false, shift: false }, Some('c')), Action::Quit);
    assert_eq!(key_to_action(k('j'), None), Action::MoveDown);
    assert_eq!(key_to_action(Key { code: KeyCode::Tab, ctrl: false, alt: false, shift: false }, None), Action::ToggleExpand);
    assert_eq!(key_to_action(k('!'), None), Action::NoOp);
}

#[test]
fn editor_keys_type_delete_words_and_undo() {
    let key = |code: KeyCode| Key { code, ctrl: false, alt: false, shift: false };
    let ch = |c: char| key(KeyCode::Char(c));
    let mut e = EditorState::new("t".to_string(), "abc def", vec![], EditorIntent::Commit);
    // Insert mode, cursor at the end of the first line.
    e.handle_key(ch('x'));
    assert_eq!(e.message(), "abc defx");
    e.handle_key(key(KeyCode::Backspace));
    assert_eq!(e.message(), "abc def");
    e.handle_key(key(KeyCode::Enter));
    e.handle_key(ch('y'));
    assert_eq!(e.message(), "abc def\ny");
    e.handle_key(key(KeyCode::Esc));
    e.handle_key(ch('g'));
    e.handle_key(ch('g'));
    e.handle_key(ch('0'));
    e.handle_key(ch('d'));
    e.handle_key(ch('w'));
    assert_eq!(e.message(), "def\ny");
    e.handle_key(ch('u'));
    assert_eq!(e.message(), "abc def\ny");
    e.handle_key(Key { code: KeyCode::Char('r'), ctrl: true, alt: false, shift: false });
    assert_eq!(e.message(), "def\ny");
    e.handle_key(ch('i'));
    e.handle_key(key(KeyCode::Delete));
    assert_eq!(e.message(), "def\ny");
    e.handle_key(key(KeyCode::Delete));
    assert_eq!(e.message(), "ef\ny");
}

#[test]
fn editor_moves_by_keys_and_words() {
    let key = |code: KeyCode| Key { code, ctrl: false, alt: false, shift: false };
    let ch = |c: char| key(KeyCode::Char(c));
    let mut e = EditorState::new("t".to_string(), "abc def\nxy", vec![], EditorIntent::Commit);
    // Insert mode, cursor at the end of the first line.
    e.handle_key(key(KeyCode::Left));
    e.handle_key(ch('Z'));
    assert_eq!(e.message(), "abc deZf\nxy");
    e.handle_key(key(KeyCode::Home));
    e.handle_key(ch('H'));
    e.handle_key(key(KeyCode::End));
    e.handle_key(ch('E'));
    assert_eq!(e.message(), "Habc deZfE\nxy");
    e.handle_key(key(KeyCode::Down));
    e.handle_key(ch('D'));
    assert_eq!(e.message(), "Habc deZfE\nxyD");
    e.handle_key(key(KeyCode::Esc));
    e.handle_key(ch('g'));
    e.handle_key(ch('g'));
    e.handle_key(ch('0'));
    e.handle_key(ch('w'));
    e.handle_key(ch('i'));
    e.handle_key(ch('W'));
    assert_eq!(e.message(), "Habc WdeZfE\nxyD");
    e.handle_key(key(KeyCode::Esc));
    e.handle_key(ch('$'));
    e.handle_key(ch('b'));
    e.handle_key(ch('i'));
    e.handle_key(ch('B'));
    assert_eq!(e.message(), "Habc BWdeZfE\nxyD");
}
