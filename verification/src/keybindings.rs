//! Which action each key press asks for.

use vstd::prelude::*;

verus! {

/// A key, as far as the key map and the message editor tell keys apart.
#[derive(Debug, Clone, Copy, PartialEq, Eq, Structural)]
pub enum KeyCode {
    Char(char),
    Up,
    Down,
    Left,
    Right,
    Tab,
    Enter,
    Esc,
    Backspace,
    Delete,
    Home,
    End,
    PageUp,
    PageDown,
    /// A function key, F1 and up.
    F(u8),
    /// Any other key.
    Other,
}

/// A key press: the key and which of Control, Alt and Shift were held.
#[derive(Debug, Clone, Copy, PartialEq, Eq, Structural)]
pub struct Key {
    pub code: KeyCode,
    pub ctrl: bool,
    pub alt: bool,
    pub shift: bool,
}

#[derive(Debug, Clone, Copy, PartialEq, Eq, Structural)]
pub enum Action {
    Quit,
    MoveDown,
    MoveUp,
    StageFile,
    UnstageFile,
    StageAll,
    UnstageAll,
    ToggleExpand,
    SwitchToLog,
    Refresh,
    ShowHelp,
    HideHelp,
    /// first 'c' of 'c c'
    CommitBegin,
    /// second 'c'
    CommitConfirm,
    /// 'a' after 'c'
    CommitAmendConfirm,
    /// 'c F' — open commit picker for fixup
    FixupPick,
    /// 'c s' — open commit picker for squash
    SquashPick,
    /// 'c w' — open commit picker to reword a message
    RewordPick,
    Enter,
    /// 'p' — opens push submenu
    PushBegin,
    /// 'p p'
    Push,
    /// 'p f'
    PushForce,
    Pull,
    DiscardFile,
    VisualMode,
    /// 'z' — opens stash submenu
    StashBegin,
    /// 'z z'
    StashSave,
    /// 'z p'
    StashPop,
    /// 'z a'
    StashApply,
    /// 'z d'
    StashDrop,
    /// 'z l'
    StashList,
    /// 'b' — opens branch submenu
    BranchBegin,
    /// 'b b'
    BranchCheckout,
    /// 'b c'
    BranchCreate,
    /// 'b d'
    BranchDelete,
    /// 'b r'
    BranchRename,
    /// Ctrl-d
    PageDown,
    /// Ctrl-u
    PageUp,
    NoOp,
}

/// The first key of a chord.
pub open spec fn is_chord_prefix(c: char) -> bool {
    c == 'c' || c == 'p' || c == 'z' || c == 'b'
}

/// The second key of a chord; anything unrecognised cancels it.
pub open spec fn chord_action(prefix: char, second: char) -> Action {
    if prefix == 'c' && second == 'c' {
        Action::CommitConfirm
    } else if prefix == 'c' && second == 'a' {
        Action::CommitAmendConfirm
    } else if prefix == 'c' && second == 'F' {
        Action::FixupPick
    } else if prefix == 'c' && second == 's' {
        Action::SquashPick
    } else if prefix == 'c' && second == 'w' {
        Action::RewordPick
    } else if prefix == 'p' && second == 'p' {
        Action::Push
    } else if prefix == 'p' && second == 'f' {
        Action::PushForce
    } else if prefix == 'z' && second == 'z' {
        Action::StashSave
    } else if prefix == 'z' && second == 'p' {
        Action::StashPop
    } else if prefix == 'z' && second == 'a' {
        Action::StashApply
    } else if prefix == 'z' && second == 'd' {
        Action::StashDrop
    } else if prefix == 'z' && second == 'l' {
        Action::StashList
    } else if prefix == 'b' && second == 'b' {
        Action::BranchCheckout
    } else if prefix == 'b' && second == 'c' {
        Action::BranchCreate
    } else if prefix == 'b' && second == 'd' {
        Action::BranchDelete
    } else if prefix == 'b' && second == 'r' {
        Action::BranchRename
    } else {
        Action::NoOp
    }
}

/// A key on its own.
pub open spec fn single_key_action(code: KeyCode) -> Action {
    match code {
        KeyCode::Char('q') => Action::Quit,
        KeyCode::Char('j') | KeyCode::Down => Action::MoveDown,
        KeyCode::Char('k') | KeyCode::Up => Action::MoveUp,
        KeyCode::Char('s') => Action::StageFile,
        KeyCode::Char('u') => Action::UnstageFile,
        KeyCode::Char('S') => Action::StageAll,
        KeyCode::Char('U') => Action::UnstageAll,
        KeyCode::Tab => Action::ToggleExpand,
        KeyCode::Char('l') => Action::SwitchToLog,
        KeyCode::Char('b') => Action::BranchBegin,
        KeyCode::Char('g') => Action::Refresh,
        KeyCode::Char('?') => Action::ShowHelp,
        KeyCode::Esc => Action::HideHelp,
        KeyCode::Enter => Action::Enter,
        KeyCode::Char('c') => Action::CommitBegin,
        KeyCode::Char('p') => Action::PushBegin,
        KeyCode::Char('F') => Action::Pull,
        KeyCode::Char('x') => Action::DiscardFile,
        KeyCode::Char('V') => Action::VisualMode,
        KeyCode::Char('z') => Action::StashBegin,
        _ => Action::NoOp,
    }
}

/// The action of `key`, given the pending first key of a chord: Ctrl-c and
/// Ctrl-q quit and Ctrl-d / Ctrl-u page whatever is pending; after a chord
/// prefix the key completes the chord; otherwise the key acts on its own.
pub open spec fn spec_key_to_action(key: Key, pending: Option<char>) -> Action {
    if key.ctrl && (key.code == KeyCode::Char('c') || key.code == KeyCode::Char('q')) {
        Action::Quit
    } else if key.ctrl && key.code == KeyCode::Char('d') {
        Action::PageDown
    } else if key.ctrl && key.code == KeyCode::Char('u') {
        Action::PageUp
    } else if pending matches Some(prefix) && is_chord_prefix(prefix) {
        match key.code {
            KeyCode::Char(second) => chord_action(pending->0, second),
            _ => Action::NoOp,
        }
    } else {
        single_key_action(key.code)
    }
}

fn chord(prefix: char, second: char) -> (r: Action)
    ensures
        r == chord_action(prefix, second),
{
    match (prefix, second) {
        ('c', 'c') => Action::CommitConfirm,
        ('c', 'a') => Action::CommitAmendConfirm,
        ('c', 'F') => Action::FixupPick,
        ('c', 's') => Action::SquashPick,
        ('c', 'w') => Action::RewordPick,
        ('p', 'p') => Action::Push,
        ('p', 'f') => Action::PushForce,
        ('z', 'z') => Action::StashSave,
        ('z', 'p') => Action::StashPop,
        ('z', 'a') => Action::StashApply,
        ('z', 'd') => Action::StashDrop,
        ('z', 'l') => Action::StashList,
        ('b', 'b') => Action::BranchCheckout,
        ('b', 'c') => Action::BranchCreate,
        ('b', 'd') => Action::BranchDelete,
        ('b', 'r') => Action::BranchRename,
        _ => Action::NoOp,
    }
}

/// The action a key press asks for (see `spec_key_to_action`).
pub fn key_to_action(key: Key, pending: Option<char>) -> (r: Action)
    ensures
        r == spec_key_to_action(key, pending),
{
    // Handle ctrl-c / ctrl-q / ctrl-d / ctrl-u
    if key.ctrl {
        match key.code {
            KeyCode::Char('c') | KeyCode::Char('q') => return Action::Quit,
            KeyCode::Char('d') => return Action::PageDown,
            KeyCode::Char('u') => return Action::PageUp,
            _ => {},
        }
    }
    // Second key of a chord; anything unrecognised cancels it.
    if let Some(prefix) = pending {
        if prefix == 'c' || prefix == 'p' || prefix == 'z' || prefix == 'b' {
            return match key.code {
                KeyCode::Char(second) => chord(prefix, second),
                _ => Action::NoOp,
            };
        }
    }
    match key.code {
        KeyCode::Char('q') => Action::Quit,
        KeyCode::Char('j') | KeyCode::Down => Action::MoveDown,
        KeyCode::Char('k') | KeyCode::Up => Action::MoveUp,
        KeyCode::Char('s') => Action::StageFile,
        KeyCode::Char('u') => Action::UnstageFile,
        KeyCode::Char('S') => Action::StageAll,
        KeyCode::Char('U') => Action::UnstageAll,
        KeyCode::Tab => Action::ToggleExpand,
        KeyCode::Char('l') => Action::SwitchToLog,
        KeyCode::Char('b') => Action::BranchBegin,
        KeyCode::Char('g') => Action::Refresh,
        KeyCode::Char('?') => Action::ShowHelp,
        KeyCode::Esc => Action::HideHelp,
        KeyCode::Enter => Action::Enter,
        KeyCode::Char('c') => Action::CommitBegin,
        KeyCode::Char('p') => Action::PushBegin,
        KeyCode::Char('F') => Action::Pull,
        KeyCode::Char('x') => Action::DiscardFile,
        KeyCode::Char('V') => Action::VisualMode,
        KeyCode::Char('z') => Action::StashBegin,
        _ => Action::NoOp,
    }
}

} // verus!
