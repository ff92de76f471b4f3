//! The state of the status, log and popup views, and every decision that
//! moves it. Running git and drawing the screen happen elsewhere; they hand
//! their results to the functions here.

use vstd::prelude::*;

use crate::backend::{BranchInfo, CommitInfo, FileEntry, FileKindView, RepoStatus, StashInfo};
use crate::config::Config;
use crate::editor::EditorState;
use std::collections::HashSet;
use vstd::std_specs::hash::obeys_key_model;
use crate::diff::{decimal, decimal_string, hunk_patch, hunk_starts, is_change, is_hunk_header, lines_patch, spec_hunk_patch, spec_is_change, spec_lines_patch};
use crate::text::{str_eq, chars_of, chars_contain, contains_seq, lowercase, to_lowercase, line_spans, lines_of, span_text, spans_text, spans_within, string_of_range, strings_view};

verus! {

#[derive(Debug, Clone, Copy, PartialEq, Eq, Structural)]
pub enum ActiveBuffer {
    Status,
    Log,
    Help,
    Editor,
}

#[derive(Debug, Clone, Copy, PartialEq, Eq, Structural)]
pub enum FixupMode {
    Fixup,
    Squash,
    Reword,
}

/// What saving the commit editor should do.
#[derive(Debug, Clone, PartialEq)]
pub enum EditorIntent {
    Commit,
    Amend,
    /// Rewrite this commit's message and replay the commits after it.
    Reword { hash: String },
}

pub struct CommitPickerState {
    pub commits: Vec<CommitInfo>,
    pub cursor: usize,
    pub mode: FixupMode,
}

pub struct StashListState {
    pub stashes: Vec<StashInfo>,
    pub cursor: usize,
}

#[derive(Debug, Clone, Copy, PartialEq, Eq, Structural)]
pub enum BranchPickerMode {
    Checkout,
    Delete,
}

pub struct BranchPickerState {
    pub branches: Vec<BranchInfo>,
    pub cursor: usize,
    pub mode: BranchPickerMode,
}

#[derive(Debug, Clone, Copy, PartialEq, Eq, Structural)]
pub enum BranchNameMode {
    Create,
    Rename,
}

pub struct BranchNameInputState {
    pub input: String,
    pub mode: BranchNameMode,
    pub original: String,
}

pub struct CommitPreview {
    pub title: String,
    pub content: String,
    pub scroll: u16,
}

impl CommitPreview {
    /// Scroll by `lines` (negative scrolls up), stopping at 0 and at `u16::MAX`.
    pub fn scroll_by(&mut self, lines: i16)
        ensures
            final(self).scroll == (if old(self).scroll + lines < 0 {
                0
            } else if old(self).scroll + lines > u16::MAX {
                u16::MAX as int
            } else {
                old(self).scroll + lines
            }),
            final(self).title == old(self).title,
            final(self).content == old(self).content,
    {
        let target: i32 = self.scroll as i32 + lines as i32;
        self.scroll = if target < 0 {
            0
        } else if target > u16::MAX as i32 {
            u16::MAX
        } else {
            target as u16
        };
    }
}

#[derive(Debug, Clone, Copy, PartialEq, Eq, Structural)]
pub enum EditorMode {
    Normal,
    Insert,
}

#[derive(Debug, Clone, Copy, PartialEq, Eq, Hash, Structural)]
pub enum Section {
    Staged,
    Unstaged,
    Untracked,
}

impl Section {
    pub open spec fn spec_label(self) -> Seq<char> {
        match self {
            Section::Staged => "Staged Changes"@,
            Section::Unstaged => "Unstaged Changes"@,
            Section::Untracked => "Untracked Files"@,
        }
    }

    /// The heading of the section in the status buffer.
    pub fn label(self) -> (r: &'static str)
        ensures
            r@ == self.spec_label(),
    {
        match self {
            Section::Staged => "Staged Changes",
            Section::Unstaged => "Unstaged Changes",
            Section::Untracked => "Untracked Files",
        }
    }
}

/// Key for a file's expanded state and cached diff.
pub type FileKey = (Section, String);

/// The key of `path` in `section`.
pub fn file_key(section: Section, path: &str) -> (r: FileKey)
    ensures
        r.0 == section,
        r.1@ == path@,
{
    (section, path.to_string())
}

/// One line of a cached diff.
#[derive(Debug, Clone)]
pub struct DiffText {
    text: String,
}

impl View for DiffText {
    type V = Seq<char>;

    closed spec fn view(&self) -> Seq<char> {
        self.text@
    }
}

impl DiffText {
    pub fn new(text: String) -> (r: DiffText)
        ensures
            r@ == text@,
    {
        DiffText { text }
    }

    /// The text of the line.
    pub fn as_str(&self) -> (r: &str)
        ensures
            r@ == self@,
    {
        self.text.as_str()
    }
}

#[derive(Debug, Clone)]
pub enum StatusItem {
    Header { label: &'static str, count: usize, section: Section },
    File { entry: FileEntry, section: Section, is_expanded: bool },
    HunkHeader { line: DiffText, hunk_index: usize, file_path: String, section: Section },
    DiffLine {
        line: DiffText,
        file_path: String,
        section: Section,
        hunk_index: usize,
        line_in_hunk: usize,
    },
    UnpushedHeader { count: usize, upstream: String },
    RecentHeader,
    RecentCommit { info: CommitInfo },
    StashHeader { count: usize },
    StashEntry { info: StashInfo },
    Spacer,
}

/// A `StatusItem` with its texts as characters.
pub enum ItemView {
    Header { label: Seq<char>, count: usize, section: Section },
    File { entry: (Seq<char>, FileKindView), section: Section, is_expanded: bool },
    HunkHeader { line: Seq<char>, hunk_index: usize, file_path: Seq<char>, section: Section },
    DiffLine {
        line: Seq<char>,
        file_path: Seq<char>,
        section: Section,
        hunk_index: usize,
        line_in_hunk: usize,
    },
    UnpushedHeader { count: usize, upstream: Seq<char> },
    RecentHeader,
    RecentCommit { info: (Seq<char>, Seq<char>, Seq<char>) },
    StashHeader { count: usize },
    StashEntry { info: (usize, Seq<char>) },
    Spacer,
}

impl View for StatusItem {
    type V = ItemView;

    open spec fn view(&self) -> ItemView {
        match self {
            StatusItem::Header { label, count, section } => ItemView::Header {
                label: label@,
                count: *count,
                section: *section,
            },
            StatusItem::File { entry, section, is_expanded } => ItemView::File {
                entry: entry@,
                section: *section,
                is_expanded: *is_expanded,
            },
            StatusItem::HunkHeader { line, hunk_index, file_path, section } => ItemView::HunkHeader {
                line: line@,
                hunk_index: *hunk_index,
                file_path: file_path@,
                section: *section,
            },
            StatusItem::DiffLine { line, file_path, section, hunk_index, line_in_hunk } =>
                ItemView::DiffLine {
                line: line@,
                file_path: file_path@,
                section: *section,
                hunk_index: *hunk_index,
                line_in_hunk: *line_in_hunk,
            },
            StatusItem::UnpushedHeader { count, upstream } => ItemView::UnpushedHeader {
                count: *count,
                upstream: upstream@,
            },
            StatusItem::RecentHeader => ItemView::RecentHeader,
            StatusItem::RecentCommit { info } => ItemView::RecentCommit { info: info@ },
            StatusItem::StashHeader { count } => ItemView::StashHeader { count: *count },
            StatusItem::StashEntry { info } => ItemView::StashEntry { info: info@ },
            StatusItem::Spacer => ItemView::Spacer,
        }
    }
}

impl ItemView {
    /// Unchanged diff lines: the cursor skips them and they can't be staged.
    pub open spec fn is_context_line(self) -> bool {
        self matches ItemView::DiffLine { line, .. } && !spec_is_change(line)
    }
}

impl StatusItem {
    /// Unchanged diff lines: the cursor skips them and they can't be staged.
    pub fn is_context_line(&self) -> (r: bool)
        ensures
            r == self@.is_context_line(),
    {
        match self {
            StatusItem::DiffLine { line, .. } => !is_change(line.as_str()),
            _ => false,
        }
    }

    pub fn is_spacer(&self) -> (r: bool)
        ensures
            r == (self@ is Spacer),
    {
        matches!(self, StatusItem::Spacer)
    }
}

/// Moving a hunk or lines between index and worktree via a patch.
#[derive(Debug, Clone, Copy, PartialEq, Eq, Structural)]
pub enum PatchOp {
    Stage,
    Unstage,
    Discard,
}

impl PatchOp {
    pub open spec fn spec_source(self) -> Section {
        match self {
            PatchOp::Stage | PatchOp::Discard => Section::Unstaged,
            PatchOp::Unstage => Section::Staged,
        }
    }

    pub open spec fn spec_destination(self) -> Section {
        match self {
            PatchOp::Stage => Section::Staged,
            PatchOp::Unstage | PatchOp::Discard => Section::Unstaged,
        }
    }

    pub open spec fn spec_verb(self) -> Seq<char> {
        match self {
            PatchOp::Stage => "Staged"@,
            PatchOp::Unstage => "Unstaged"@,
            PatchOp::Discard => "Discarded"@,
        }
    }

    /// The section whose cached diff the patch is cut from.
    pub fn source(self) -> (r: Section)
        ensures
            r == self.spec_source(),
    {
        match self {
            PatchOp::Stage | PatchOp::Discard => Section::Unstaged,
            PatchOp::Unstage => Section::Staged,
        }
    }

    /// The section that receives the change, expanded afterwards.
    pub fn destination(self) -> (r: Section)
        ensures
            r == self.spec_destination(),
    {
        match self {
            PatchOp::Stage => Section::Staged,
            PatchOp::Unstage | PatchOp::Discard => Section::Unstaged,
        }
    }

    /// Whether the patch is applied in reverse (see `diff::lines_patch`).
    pub fn reverse(self) -> (r: bool)
        ensures
            r == !(self == PatchOp::Stage),
    {
        !matches!(self, PatchOp::Stage)
    }

    pub fn verb(self) -> (r: &'static str)
        ensures
            r@ == self.spec_verb(),
    {
        match self {
            PatchOp::Stage => "Staged",
            PatchOp::Unstage => "Unstaged",
            PatchOp::Discard => "Discarded",
        }
    }
}

// ---------------------------------------------------------------------------
// Diff lines as status items
// ---------------------------------------------------------------------------

/// The items for the lines of a diff: a hunk header item for each `@@`
/// line, numbered from 0, and a diff line item for each later line, numbered
/// within its hunk's body. Lines before the first hunk are skipped.
pub open spec fn diff_items(ls: Seq<Seq<char>>, file_path: Seq<char>, section: Section) -> Seq<
    ItemView,
>
    decreases ls.len(),
{
    if ls.len() == 0 {
        seq![]
    } else {
        let k = ls.len() - 1;
        let prev = diff_items(ls.drop_last(), file_path, section);
        let hs = hunk_starts(ls.drop_last());
        if is_hunk_header(ls[k]) {
            prev.push(
                ItemView::HunkHeader {
                    line: ls[k],
                    hunk_index: hs.len() as usize,
                    file_path,
                    section,
                },
            )
        } else if hs.len() > 0 {
            prev.push(
                ItemView::DiffLine {
                    line: ls[k],
                    file_path,
                    section,
                    hunk_index: (hs.len() - 1) as usize,
                    line_in_hunk: (k - hs.last() - 1) as usize,
                },
            )
        } else {
            prev
        }
    }
}

/// Push a hunk header or diff line item for each line of `diff`. Lines
/// before the first hunk (the file header) are skipped.
pub fn push_diff_items(items: &mut Vec<StatusItem>, diff: &str, file_path: &str, section: Section)
    ensures
        final(items)@.map_values(|it: StatusItem| it@) == old(items)@.map_values(
            |it: StatusItem| it@,
        ) + diff_items(lines_of(diff@), file_path@, section),
{
    let chars = chars_of(diff);
    let spans = line_spans(&chars);
    let ghost ls = spans_text(chars@, spans@);
    let ghost start = old(items)@.map_values(|it: StatusItem| it@);
    let mut hunk_count: usize = 0;
    let mut last_start: usize = 0;
    let mut i: usize = 0;
    assert(ls.take(0) =~= Seq::<Seq<char>>::empty());
    assert(items@.map_values(|it: StatusItem| it@) =~= start + diff_items(ls.take(0), file_path@, section));
    while i < spans.len()
        invariant
            spans_within(chars@.len(), spans@),
            ls == spans_text(chars@, spans@),
            i <= spans@.len(),
            hunk_count == hunk_starts(ls.take(i as int)).len(),
            hunk_count <= i,
            hunk_count > 0 ==> last_start == hunk_starts(ls.take(i as int)).last() && last_start < i,
            items@.map_values(|it: StatusItem| it@) == start + diff_items(
                ls.take(i as int),
                file_path@,
                section,
            ),
        decreases spans@.len() - i,
    {
        let (a, b) = spans[i];
        let ghost pre = ls.take(i as int);
        let ghost cur = ls.take(i + 1);
        proof {
            assert(cur.drop_last() =~= pre);
            assert(cur[i as int] == ls[i as int]);
            assert(ls[i as int] == chars@.subrange(a as int, b as int));
            if hunk_count > 0 {
                crate::diff::lemma_hunk_starts(pre);
            }
        }
        let ghost before = items@.map_values(|it: StatusItem| it@);
        let is_header = b - a >= 2 && chars[a] == '@' && chars[a + 1] == '@';
        if is_header {
            let line = DiffText::new(string_of_range(&chars, a, b));
            items.push(
                StatusItem::HunkHeader {
                    line,
                    hunk_index: hunk_count,
                    file_path: file_path.to_string(),
                    section,
                },
            );
            proof {
                assert(items@.map_values(|it: StatusItem| it@) =~= before.push(
                    ItemView::HunkHeader {
                        line: ls[i as int],
                        hunk_index: hunk_count,
                        file_path: file_path@,
                        section,
                    },
                ));
            }
            last_start = i;
            hunk_count = hunk_count + 1;
        } else if hunk_count > 0 {
            let line = DiffText::new(string_of_range(&chars, a, b));
            items.push(
                StatusItem::DiffLine {
                    line,
                    file_path: file_path.to_string(),
                    section,
                    hunk_index: hunk_count - 1,
                    line_in_hunk: i - last_start - 1,
                },
            );
            proof {
                assert(items@.map_values(|it: StatusItem| it@) =~= before.push(
                    ItemView::DiffLine {
                        line: ls[i as int],
                        file_path: file_path@,
                        section,
                        hunk_index: (hunk_count - 1) as usize,
                        line_in_hunk: (i - last_start - 1) as usize,
                    },
                ));
            }
        }
        i += 1;
    }
    assert(ls.take(spans@.len() as int) =~= ls);
}

// ---------------------------------------------------------------------------
// Expanded files and cached diffs, keyed by (section, path)
// ---------------------------------------------------------------------------

/// A file key as plain values.
pub open spec fn key_view(k: FileKey) -> (Section, Seq<char>) {
    (k.0, k.1@)
}

/// Whether `(section, path)` is the key `k`.
fn key_is(k: &FileKey, section: Section, path: &str) -> (r: bool)
    ensures
        r == (key_view(*k) == (section, path@)),
{
    k.0 == section && str_eq(k.1.as_str(), path)
}

/// The set of files whose diff is shown.
pub struct FileKeySet {
    keys: Vec<FileKey>,
}

impl FileKeySet {
    #[verifier::type_invariant]
    spec fn distinct(self) -> bool {
        forall|i: int, j: int|
            0 <= i < j < self.keys@.len() ==> key_view(#[trigger] self.keys@[i]) != key_view(
                #[trigger] self.keys@[j],
            )
    }

    pub closed spec fn view(&self) -> Set<(Section, Seq<char>)> {
        Set::new(|k: (Section, Seq<char>)| exists|i: int| 0 <= i < self.keys@.len() && key_view(#[trigger] self.keys@[i]) == k)
    }

    pub fn new() -> (r: FileKeySet)
        ensures
            r.view() == Set::<(Section, Seq<char>)>::empty(),
    {
        let r = FileKeySet { keys: Vec::new() };
        assert(r.view() =~= Set::<(Section, Seq<char>)>::empty());
        r
    }

    fn find(&self, section: Section, path: &str) -> (r: Option<usize>)
        ensures
            r matches Some(i) ==> i < self.keys@.len() && key_view(self.keys@[i as int]) == (section, path@),
            r is None ==> !self.view().contains((section, path@)),
    {
        let mut i: usize = 0;
        while i < self.keys.len()
            invariant
                i <= self.keys@.len(),
                forall|j: int| 0 <= j < i ==> key_view(#[trigger] self.keys@[j]) != (section, path@),
            decreases self.keys@.len() - i,
        {
            if key_is(&self.keys[i], section, path) {
                return Some(i);
            }
            i += 1;
        }
        None
    }

    pub fn contains(&self, section: Section, path: &str) -> (r: bool)
        ensures
            r == self.view().contains((section, path@)),
    {
        match self.find(section, path) {
            Some(i) => {
                assert(self.view().contains(key_view(self.keys@[i as int])));
                true
            },
            None => false,
        }
    }

    /// Add the key; returns whether it was absent.
    pub fn insert(&mut self, section: Section, path: &str) -> (r: bool)
        ensures
            final(self).view() == old(self).view().insert((section, path@)),
            r == !old(self).view().contains((section, path@)),
    {
        proof {
            use_type_invariant(&*self);
        }
        match self.find(section, path) {
            Some(i) => {
                assert(self.view().contains(key_view(self.keys@[i as int])));
                assert(self.view().insert((section, path@)) =~= self.view());
                false
            },
            None => {
                let ghost old_view = self.view();
                let mut keys: Vec<FileKey> = Vec::new();
                std::mem::swap(&mut keys, &mut self.keys);
                let ghost old_keys = keys@;
                keys.push(file_key(section, path));
                proof {
                    assert forall|i: int, j: int|
                        0 <= i < j < keys@.len() implies key_view(#[trigger] keys@[i]) != key_view(
                            #[trigger] keys@[j],
                        ) by {
                        if j == keys@.len() - 1 {
                            assert(old_view.contains(key_view(keys@[i])));
                        } else {
                            assert(keys@[i] == old_keys[i] && keys@[j] == old_keys[j]);
                        }
                    }
                }
                self.keys = keys;
                proof {
                    assert forall|k: (Section, Seq<char>)| self.view().contains(k) <==> old_view.insert(
                        (section, path@),
                    ).contains(k) by {
                        if old_view.contains(k) {
                            let w = choose|w: int| 0 <= w < old_keys.len() && key_view(#[trigger] old_keys[w]) == k;
                            assert(key_view(self.keys@[w]) == k);
                        }
                        if self.view().contains(k) && k != (section, path@) {
                            let w = choose|w: int| 0 <= w < self.keys@.len() && key_view(#[trigger] self.keys@[w]) == k;
                            assert(key_view(old_keys[w]) == k);
                        }
                        if k == (section, path@) {
                            assert(key_view(self.keys@[self.keys@.len() - 1]) == k);
                        }
                    }
                    assert(self.view() =~= old_view.insert((section, path@)));
                }
                true
            },
        }
    }

    /// Remove the key; returns whether it was present.
    pub fn remove(&mut self, section: Section, path: &str) -> (r: bool)
        ensures
            final(self).view() == old(self).view().remove((section, path@)),
            r == old(self).view().contains((section, path@)),
    {
        proof {
            use_type_invariant(&*self);
        }
        match self.find(section, path) {
            None => {
                assert(self.view().remove((section, path@)) =~= self.view());
                false
            },
            Some(i) => {
                let ghost old_view = self.view();
                let mut keys: Vec<FileKey> = Vec::new();
                std::mem::swap(&mut keys, &mut self.keys);
                let ghost old_keys = keys@;
                keys.remove(i);
                proof {
                    assert(keys@ =~= old_keys.remove(i as int));
                    assert forall|a: int, b: int|
                        0 <= a < b < keys@.len() implies key_view(#[trigger] keys@[a]) != key_view(
                            #[trigger] keys@[b],
                        ) by {
                        let a2 = if a < i { a } else { a + 1 };
                        let b2 = if b < i { b } else { b + 1 };
                        assert(keys@[a] == old_keys[a2] && keys@[b] == old_keys[b2]);
                    }
                }
                self.keys = keys;
                proof {
                    assert(old_view.contains(key_view(old_keys[i as int])));
                    assert forall|k: (Section, Seq<char>)| self.view().contains(k) <==> old_view.remove(
                        (section, path@),
                    ).contains(k) by {
                        if self.view().contains(k) {
                            let w = choose|w: int| 0 <= w < self.keys@.len() && key_view(#[trigger] self.keys@[w]) == k;
                            let w2 = if w < i { w } else { w + 1 };
                            assert(key_view(old_keys[w2]) == k);
                            assert(k != (section, path@)) by {
                                if k == (section, path@) {
                                    assert(key_view(old_keys[i as int]) == key_view(old_keys[w2]));
                                }
                            }
                        }
                        if old_view.contains(k) && k != (section, path@) {
                            let w = choose|w: int| 0 <= w < old_keys.len() && key_view(#[trigger] old_keys[w]) == k;
                            assert(w != i);
                            let w2 = if w < i { w } else { w - 1 };
                            assert(key_view(self.keys@[w2]) == k);
                        }
                    }
                    assert(self.view() =~= old_view.remove((section, path@)));
                }
                true
            },
        }
    }
}

/// Diffs fetched for files, by (section, path).
pub struct DiffCache {
    entries: Vec<(FileKey, String)>,
}

impl DiffCache {
    #[verifier::type_invariant]
    spec fn distinct(self) -> bool {
        forall|i: int, j: int|
            0 <= i < j < self.entries@.len() ==> key_view(#[trigger] self.entries@[i].0) != key_view(
                #[trigger] self.entries@[j].0,
            )
    }

    spec fn has_key_at(self, i: int, k: (Section, Seq<char>)) -> bool {
        0 <= i < self.entries@.len() && key_view(self.entries@[i].0) == k
    }

    pub closed spec fn view(&self) -> Map<(Section, Seq<char>), Seq<char>> {
        Map::new(
            |k: (Section, Seq<char>)| exists|i: int| #[trigger] self.has_key_at(i, k),
            |k: (Section, Seq<char>)| self.entries@[choose|i: int| #[trigger] self.has_key_at(i, k)].1@,
        )
    }

    /// With distinct keys, the entry found for a key is the one the view reads.
    proof fn lemma_at(self, i: int)
        requires
            self.distinct(),
            0 <= i < self.entries@.len(),
        ensures
            self.view().contains_key(key_view(self.entries@[i].0)),
            self.view()[key_view(self.entries@[i].0)] == self.entries@[i].1@,
    {
        let k = key_view(self.entries@[i].0);
        assert(self.has_key_at(i, k));
        let w = choose|w: int| #[trigger] self.has_key_at(w, k);
        assert(w == i) by {
            if w < i {
                assert(key_view(self.entries@[w].0) != key_view(self.entries@[i].0));
            } else if w > i {
                assert(key_view(self.entries@[i].0) != key_view(self.entries@[w].0));
            }
        }
    }

    pub fn new() -> (r: DiffCache)
        ensures
            r.view() == Map::<(Section, Seq<char>), Seq<char>>::empty(),
    {
        let r = DiffCache { entries: Vec::new() };
        assert(r.view() =~= Map::<(Section, Seq<char>), Seq<char>>::empty());
        r
    }

    fn find(&self, section: Section, path: &str) -> (r: Option<usize>)
        ensures
            r matches Some(i) ==> i < self.entries@.len() && key_view(self.entries@[i as int].0) == (
                section,
                path@,
            ),
            r is None ==> !self.view().contains_key((section, path@)),
    {
        let mut i: usize = 0;
        while i < self.entries.len()
            invariant
                i <= self.entries@.len(),
                forall|j: int| 0 <= j < i ==> key_view(#[trigger] self.entries@[j].0) != (section, path@),
            decreases self.entries@.len() - i,
        {
            if key_is(&self.entries[i].0, section, path) {
                return Some(i);
            }
            i += 1;
        }
        None
    }

    /// The cached diff of `(section, path)`.
    pub fn get(&self, section: Section, path: &str) -> (r: Option<&String>)
        ensures
            match r {
                Some(d) => self.view().contains_key((section, path@)) && self.view()[(section, path@)] == d@,
                None => !self.view().contains_key((section, path@)),
            },
    {
        proof {
            use_type_invariant(self);
        }
        match self.find(section, path) {
            Some(i) => {
                proof {
                    self.lemma_at(i as int);
                }
                Some(&self.entries[i].1)
            },
            None => None,
        }
    }

    pub fn contains_key(&self, section: Section, path: &str) -> (r: bool)
        ensures
            r == self.view().contains_key((section, path@)),
    {
        self.get(section, path).is_some()
    }

    /// Store `diff` for `(section, path)`, replacing any earlier one.
    pub fn insert(&mut self, section: Section, path: &str, diff: String)
        ensures
            final(self).view() == old(self).view().insert((section, path@), diff@),
    {
        proof {
            use_type_invariant(&*self);
        }
        let ghost old_view = self.view();
        let ghost k = (section, path@);
        let found = self.find(section, path);
        let mut entries: Vec<(FileKey, String)> = Vec::new();
        std::mem::swap(&mut entries, &mut self.entries);
        let ghost old_entries = entries@;
        let ghost old_self = *old(self);
        match found {
            Some(i) => {
                entries.set(i, (file_key(section, path), diff));
            },
            None => {
                entries.push((file_key(section, path), diff));
            },
        }
        proof {
            let n = entries@.len();
            assert forall|a: int, b: int|
                0 <= a < b < entries@.len() implies key_view(#[trigger] entries@[a].0) != key_view(
                    #[trigger] entries@[b].0,
                ) by {
                match found {
                    Some(i) => {
                        if a != i && b != i {
                            assert(entries@[a] == old_entries[a] && entries@[b] == old_entries[b]);
                        } else if a == i {
                            assert(entries@[b] == old_entries[b]);
                            assert(key_view(old_entries[i as int].0) != key_view(old_entries[b].0));
                        } else {
                            assert(entries@[a] == old_entries[a]);
                            assert(key_view(old_entries[a].0) != key_view(old_entries[i as int].0));
                        }
                    },
                    None => {
                        if b == n - 1 {
                            assert(entries@[a] == old_entries[a]);
                            assert(old_self.has_key_at(a, key_view(old_entries[a].0)));
                            if key_view(old_entries[a].0) == k {
                                assert(old_self.view().contains_key(k));
                            }
                        } else {
                            assert(entries@[a] == old_entries[a] && entries@[b] == old_entries[b]);
                        }
                    },
                }
            }
        }
        self.entries = entries;
        proof {
            let new_self = *self;
            assert(new_self.distinct());
            let idx: int = match found {
                Some(i) => i as int,
                None => (self.entries@.len() - 1) as int,
            };
            assert(key_view(self.entries@[idx].0) == k);
            new_self.lemma_at(idx);
            assert forall|q: (Section, Seq<char>)| #[trigger] self.view().contains_key(q) <==> old_view.insert(
                k,
                diff@,
            ).contains_key(q) by {
                if self.view().contains_key(q) && q != k {
                    let w = choose|w: int| #[trigger] new_self.has_key_at(w, q);
                    assert(w != idx);
                    assert(self.entries@[w] == old_entries[w]);
                    assert(old_self.has_key_at(w, q));
                }
                if old_view.contains_key(q) && q != k {
                    let w = choose|w: int| #[trigger] old_self.has_key_at(w, q);
                    assert(w != idx) by {
                        if found is Some {
                            assert(key_view(old_entries[idx].0) == k);
                        }
                    }
                    assert(self.entries@[w] == old_entries[w]);
                    assert(new_self.has_key_at(w, q));
                }
            }
            assert forall|q: (Section, Seq<char>)| #[trigger] self.view().contains_key(q) && q != k implies self.view()[q]
                == old_view[q] by {
                let w = choose|w: int| #[trigger] new_self.has_key_at(w, q);
                assert(w != idx);
                assert(self.entries@[w] == old_entries[w]);
                new_self.lemma_at(w);
                old_self.lemma_at(w);
            }
            assert(self.view() =~= old_view.insert(k, diff@));
        }
    }

    /// Forget the diff of `(section, path)`.
    pub fn remove(&mut self, section: Section, path: &str)
        ensures
            final(self).view() == old(self).view().remove((section, path@)),
    {
        proof {
            use_type_invariant(&*self);
        }
        let ghost old_view = self.view();
        let ghost k = (section, path@);
        match self.find(section, path) {
            None => {
                assert(self.view() =~= old_view.remove(k));
            },
            Some(i) => {
                let mut entries: Vec<(FileKey, String)> = Vec::new();
                std::mem::swap(&mut entries, &mut self.entries);
                let ghost old_entries = entries@;
                let ghost old_self = *old(self);
                entries.remove(i);
                proof {
                    assert(entries@ =~= old_entries.remove(i as int));
                    assert forall|a: int, b: int|
                        0 <= a < b < entries@.len() implies key_view(#[trigger] entries@[a].0) != key_view(
                            #[trigger] entries@[b].0,
                        ) by {
                        let a2 = if a < i { a } else { a + 1 };
                        let b2 = if b < i { b } else { b + 1 };
                        assert(entries@[a] == old_entries[a2] && entries@[b] == old_entries[b2]);
                    }
                }
                self.entries = entries;
                proof {
                    let new_self = *self;
                    assert(new_self.distinct());
                    assert forall|q: (Section, Seq<char>)| #[trigger] self.view().contains_key(q) <==> old_view.remove(
                        k,
                    ).contains_key(q) by {
                        if self.view().contains_key(q) {
                            let w = choose|w: int| #[trigger] new_self.has_key_at(w, q);
                            let w2 = if w < i { w } else { w + 1 };
                            assert(self.entries@[w] == old_entries[w2]);
                            assert(old_self.has_key_at(w2, q));
                            if q == k {
                                assert(key_view(old_entries[i as int].0) == key_view(old_entries[w2].0));
                            }
                        }
                        if old_view.contains_key(q) && q != k {
                            let w = choose|w: int| #[trigger] old_self.has_key_at(w, q);
                            assert(w != i);
                            let w2 = if w < i { w } else { w - 1 };
                            assert(self.entries@[w2] == old_entries[w]);
                            assert(new_self.has_key_at(w2, q));
                        }
                    }
                    assert forall|q: (Section, Seq<char>)| #[trigger] self.view().contains_key(q) implies self.view()[q]
                        == old_view[q] by {
                        let w = choose|w: int| #[trigger] new_self.has_key_at(w, q);
                        let w2 = if w < i { w } else { w + 1 };
                        assert(self.entries@[w] == old_entries[w2]);
                        new_self.lemma_at(w);
                        old_self.lemma_at(w2);
                    }
                    assert(self.view() =~= old_view.remove(k));
                }
            },
        }
    }

    /// Forget every diff.
    pub fn clear(&mut self)
        ensures
            final(self).view() == Map::<(Section, Seq<char>), Seq<char>>::empty(),
    {
        self.entries = Vec::new();
        assert(self.view() =~= Map::<(Section, Seq<char>), Seq<char>>::empty());
    }
}

// ---------------------------------------------------------------------------
// The status buffer's items
// ---------------------------------------------------------------------------

/// The views of a sequence of items.
pub open spec fn items_view(items: Seq<StatusItem>) -> Seq<ItemView> {
    items.map_values(|it: StatusItem| it@)
}

/// The files listed under `section`.
pub open spec fn spec_section_entries(status: RepoStatus, section: Section) -> Seq<FileEntry> {
    match section {
        Section::Staged => status.staged@,
        Section::Unstaged => status.unstaged@,
        Section::Untracked => status.untracked@,
    }
}

/// A file item for each entry, each followed by its diff's items when the
/// file is expanded and its diff is cached.
pub open spec fn file_items(
    entries: Seq<FileEntry>,
    section: Section,
    expanded: Set<(Section, Seq<char>)>,
    cache: Map<(Section, Seq<char>), Seq<char>>,
) -> Seq<ItemView>
    decreases entries.len(),
{
    if entries.len() == 0 {
        seq![]
    } else {
        let e = entries.last();
        let key = (section, e.path@);
        let is_expanded = expanded.contains(key);
        let diff = if is_expanded && cache.contains_key(key) {
            diff_items(lines_of(cache[key]), e.path@, section)
        } else {
            seq![]
        };
        file_items(entries.drop_last(), section, expanded, cache) + seq![
            ItemView::File { entry: e@, section, is_expanded },
        ] + diff
    }
}

/// A spacer between sections, but not before the first.
pub open spec fn begin_section(items: Seq<ItemView>) -> Seq<ItemView> {
    if items.len() > 1 {
        items.push(ItemView::Spacer)
    } else {
        items
    }
}

/// `items` followed by the section's header and files, when it has any.
pub open spec fn with_files(
    items: Seq<ItemView>,
    status: RepoStatus,
    section: Section,
    expanded: Set<(Section, Seq<char>)>,
    cache: Map<(Section, Seq<char>), Seq<char>>,
) -> Seq<ItemView> {
    let es = spec_section_entries(status, section);
    if es.len() == 0 {
        items
    } else {
        begin_section(items).push(
            ItemView::Header { label: section.spec_label(), count: es.len() as usize, section },
        ) + file_items(es, section, expanded, cache)
    }
}

/// The status buffer, top to bottom: a spacer, then the untracked, unstaged
/// and staged files (as in Magit), the stashes, the commits not yet pushed
/// and the recent commits, each part that has anything in it after a spacer.
pub open spec fn spec_status_items(
    status: RepoStatus,
    stashes: Seq<StashInfo>,
    recent: Seq<CommitInfo>,
    expanded: Set<(Section, Seq<char>)>,
    cache: Map<(Section, Seq<char>), Seq<char>>,
) -> Seq<ItemView> {
    let a = seq![ItemView::Spacer];
    let a = with_files(a, status, Section::Untracked, expanded, cache);
    let a = with_files(a, status, Section::Unstaged, expanded, cache);
    let a = with_files(a, status, Section::Staged, expanded, cache);
    let a = if stashes.len() == 0 {
        a
    } else {
        begin_section(a).push(ItemView::StashHeader { count: stashes.len() as usize })
            + stashes.map_values(|info: StashInfo| ItemView::StashEntry { info: info@ })
    };
    let unpushed = status.unpushed@;
    let a = if unpushed.len() == 0 {
        a
    } else {
        begin_section(a).push(
            ItemView::UnpushedHeader {
                count: if status.unpushed_total >= unpushed.len() {
                    status.unpushed_total
                } else {
                    unpushed.len() as usize
                },
                upstream: match status.upstream {
                    Some(u) => u@,
                    None => "upstream"@,
                },
            },
        ) + unpushed.map_values(|info: CommitInfo| ItemView::RecentCommit { info: info@ })
    };
    if recent.len() == 0 {
        a
    } else {
        begin_section(a).push(ItemView::RecentHeader) + recent.map_values(
            |info: CommitInfo| ItemView::RecentCommit { info: info@ },
        )
    }
}

/// Push a spacer unless `items` holds only the leading one.
fn push_begin_section(items: &mut Vec<StatusItem>)
    ensures
        items_view(final(items)@) == begin_section(items_view(old(items)@)),
{
    if items.len() > 1 {
        items.push(StatusItem::Spacer);
        assert(items_view(items@) =~= items_view(old(items)@).push(ItemView::Spacer));
    }
}

/// A stash entry item for each stash.
fn push_stash_items(items: &mut Vec<StatusItem>, stashes: &Vec<StashInfo>)
    ensures
        items_view(final(items)@) == items_view(old(items)@) + stashes@.map_values(
            |info: StashInfo| ItemView::StashEntry { info: info@ },
        ),
{
    let ghost start = items_view(items@);
    let mut i: usize = 0;
    while i < stashes.len()
        invariant
            i <= stashes@.len(),
            items_view(items@) == start + stashes@.take(i as int).map_values(
                |info: StashInfo| ItemView::StashEntry { info: info@ },
            ),
        decreases stashes@.len() - i,
    {
        let ghost before = items_view(items@);
        items.push(StatusItem::StashEntry { info: stashes[i].copy() });
        assert(stashes@.take(i + 1) =~= stashes@.take(i as int).push(stashes@[i as int]));
        assert(items_view(items@) =~= before.push(ItemView::StashEntry { info: stashes@[i as int]@ }));
        i += 1;
    }
    assert(stashes@.take(stashes@.len() as int) =~= stashes@);
}

/// A recent-commit item for each commit.
fn push_commit_items(items: &mut Vec<StatusItem>, commits: &Vec<CommitInfo>)
    ensures
        items_view(final(items)@) == items_view(old(items)@) + commits@.map_values(
            |info: CommitInfo| ItemView::RecentCommit { info: info@ },
        ),
{
    let ghost start = items_view(items@);
    let mut i: usize = 0;
    while i < commits.len()
        invariant
            i <= commits@.len(),
            items_view(items@) == start + commits@.take(i as int).map_values(
                |info: CommitInfo| ItemView::RecentCommit { info: info@ },
            ),
        decreases commits@.len() - i,
    {
        let ghost before = items_view(items@);
        items.push(StatusItem::RecentCommit { info: commits[i].copy() });
        assert(commits@.take(i + 1) =~= commits@.take(i as int).push(commits@[i as int]));
        assert(items_view(items@) =~= before.push(ItemView::RecentCommit { info: commits@[i as int]@ }));
        i += 1;
    }
    assert(commits@.take(commits@.len() as int) =~= commits@);
}

pub struct App {
    pub config: Config,
    pub buffer: ActiveBuffer,
    pub status: RepoStatus,
    pub log: Vec<CommitInfo>,
    pub cursor: usize,
    pub expanded: FileKeySet,
    pub diff_cache: DiffCache,
    /// First key of a chord (`c`, `p`, `z` or `b`) waiting for its second.
    pub pending_key: Option<char>,
    pub status_msg: Option<String>,
    pub commit_preview: Option<CommitPreview>,
    pub should_quit: bool,
    pub recent_commits: Vec<CommitInfo>,
    /// Flat list of visible status items (rebuilt on refresh)
    pub items: Vec<StatusItem>,
    pub editor: Option<EditorState>,
    /// Anchor position when visual mode is active (V key)
    pub visual_anchor: Option<usize>,
    pub commit_picker: Option<CommitPickerState>,
    pub stash_list: Option<StashListState>,
    pub stashes: Vec<StashInfo>,
    pub branch_picker: Option<BranchPickerState>,
    pub branch_name_input: Option<BranchNameInputState>,
    /// Text currently being typed into the log search prompt (Some while typing)
    pub log_search: Option<String>,
    /// Active filter query narrowing the log view; set live while typing and
    /// stays applied after confirming so j/k browse the filtered list.
    pub log_filter: Option<String>,
    /// Indices into `log` matching `log_filter`. Set via `set_log_filter`;
    /// recomputed on change rather than every keystroke and frame.
    pub log_filtered: Vec<usize>,
}

impl App {
    /// The status items that `status`, the stashes, the recent commits and
    /// the expanded files and cached diffs call for.
    pub open spec fn expected_items(&self) -> Seq<ItemView> {
        spec_status_items(
            self.status,
            self.stashes@,
            self.recent_commits@,
            self.expanded.view(),
            self.diff_cache.view(),
        )
    }

    /// A fresh app over a repository's status, recent commits and stashes,
    /// showing the status buffer.
    pub fn new(
        status: RepoStatus,
        recent_commits: Vec<CommitInfo>,
        stashes: Vec<StashInfo>,
        config: Config,
    ) -> (r: App)
        ensures
            r.buffer == ActiveBuffer::Status,
            r.cursor == 0,
            r.status == status,
            r.recent_commits == recent_commits,
            r.stashes == stashes,
            r.config == config,
            r.log@.len() == 0,
            r.expanded.view() == Set::<(Section, Seq<char>)>::empty(),
            r.diff_cache.view() == Map::<(Section, Seq<char>), Seq<char>>::empty(),
            items_view(r.items@) == r.expected_items(),
            r.pending_key is None && r.status_msg is None && r.commit_preview is None,
            !r.should_quit && r.editor is None && r.visual_anchor is None,
            r.commit_picker is None && r.stash_list is None && r.branch_picker is None,
            r.branch_name_input is None && r.log_search is None && r.log_filter is None,
            r.log_filtered@.len() == 0,
    {
        let mut app = App {
            config,
            buffer: ActiveBuffer::Status,
            status,
            log: Vec::new(),
            cursor: 0,
            expanded: FileKeySet::new(),
            diff_cache: DiffCache::new(),
            pending_key: None,
            status_msg: None,
            commit_preview: None,
            should_quit: false,
            recent_commits,
            items: Vec::new(),
            editor: None,
            visual_anchor: None,
            commit_picker: None,
            stash_list: None,
            stashes,
            branch_picker: None,
            branch_name_input: None,
            log_search: None,
            log_filter: None,
            log_filtered: Vec::new(),
        };
        app.rebuild_items();
        app
    }

    /// The files listed under `section`.
    pub fn section_entries(&self, section: Section) -> (r: &Vec<FileEntry>)
        ensures
            r@ == spec_section_entries(self.status, section),
    {
        match section {
            Section::Staged => &self.status.staged,
            Section::Unstaged => &self.status.unstaged,
            Section::Untracked => &self.status.untracked,
        }
    }

    /// Push the header and files of `section`, when it has any.
    fn push_section(&self, items: &mut Vec<StatusItem>, section: Section)
        ensures
            items_view(final(items)@) == with_files(
                items_view(old(items)@),
                self.status,
                section,
                self.expanded.view(),
                self.diff_cache.view(),
            ),
    {
        let entries = self.section_entries(section);
        if entries.len() == 0 {
            return;
        }
        push_begin_section(items);
        let ghost mid = items_view(items@);
        items.push(StatusItem::Header { label: section.label(), count: entries.len(), section });
        let ghost start = items_view(items@);
        assert(start =~= mid.push(
            ItemView::Header { label: section.spec_label(), count: entries@.len() as usize, section },
        ));
        let mut i: usize = 0;
        assert(start + file_items(entries@.take(0), section, self.expanded.view(), self.diff_cache.view())
            =~= start);
        while i < entries.len()
            invariant
                i <= entries@.len(),
                entries@ == spec_section_entries(self.status, section),
                items_view(items@) == start + file_items(
                    entries@.take(i as int),
                    section,
                    self.expanded.view(),
                    self.diff_cache.view(),
                ),
            decreases entries@.len() - i,
        {
            let entry = &entries[i];
            let ghost before = items_view(items@);
            let is_expanded = self.expanded.contains(section, entry.path.as_str());
            items.push(StatusItem::File { entry: entry.copy(), section, is_expanded });
            let ghost with_file = items_view(items@);
            assert(with_file =~= before.push(ItemView::File { entry: entry@, section, is_expanded }));
            if is_expanded {
                match self.diff_cache.get(section, entry.path.as_str()) {
                    Some(diff) => {
                        push_diff_items(items, diff.as_str(), entry.path.as_str(), section);
                    },
                    None => {},
                }
            }
            proof {
                let t = entries@.take(i + 1);
                assert(t.drop_last() =~= entries@.take(i as int));
                assert(t.last() == entries@[i as int]);
                assert(items_view(items@) =~= start + file_items(
                    t,
                    section,
                    self.expanded.view(),
                    self.diff_cache.view(),
                ));
            }
            i += 1;
        }
        assert(entries@.take(entries@.len() as int) =~= entries@);
    }

    /// Rebuild the flat items list from current status + expanded set.
    /// Section order matches Magit: Untracked → Unstaged → Staged.
    pub fn rebuild_items(&mut self)
        ensures
            items_view(final(self).items@) == final(self).expected_items(),
            *final(self) == (App { items: final(self).items, ..*old(self) }),
    {
        let mut items: Vec<StatusItem> = Vec::new();
        items.push(StatusItem::Spacer);
        assert(items_view(items@) =~= seq![ItemView::Spacer]);
        self.push_section(&mut items, Section::Untracked);
        self.push_section(&mut items, Section::Unstaged);
        self.push_section(&mut items, Section::Staged);

        if self.stashes.len() > 0 {
            push_begin_section(&mut items);
            let ghost before = items_view(items@);
            items.push(StatusItem::StashHeader { count: self.stashes.len() });
            assert(items_view(items@) =~= before.push(
                ItemView::StashHeader { count: self.stashes@.len() as usize },
            ));
            push_stash_items(&mut items, &self.stashes);
        }

        if self.status.unpushed.len() > 0 {
            push_begin_section(&mut items);
            let ghost before = items_view(items@);
            // `unpushed` is capped; show the real total.
            let count = if self.status.unpushed_total >= self.status.unpushed.len() {
                self.status.unpushed_total
            } else {
                self.status.unpushed.len()
            };
            let upstream = match &self.status.upstream {
                Some(u) => u.clone(),
                None => String::from_str("upstream"),
            };
            items.push(StatusItem::UnpushedHeader { count, upstream });
            assert(items_view(items@) =~= before.push(
                ItemView::UnpushedHeader {
                    count,
                    upstream: match self.status.upstream {
                        Some(u) => u@,
                        None => "upstream"@,
                    },
                },
            ));
            push_commit_items(&mut items, &self.status.unpushed);
        }

        if self.recent_commits.len() > 0 {
            push_begin_section(&mut items);
            let ghost before = items_view(items@);
            items.push(StatusItem::RecentHeader);
            assert(items_view(items@) =~= before.push(ItemView::RecentHeader));
            push_commit_items(&mut items, &self.recent_commits);
        }

        self.items = items;
    }
}

// ---------------------------------------------------------------------------
// Cursor movement
// ---------------------------------------------------------------------------

/// Whether the cursor may rest on item `i` (anything but a context line).
pub open spec fn selectable(items: Seq<ItemView>, i: int) -> bool {
    !items[i].is_context_line()
}

/// The first selectable item in `[lo, hi)`.
pub open spec fn first_selectable(items: Seq<ItemView>, lo: int, hi: int) -> Option<int>
    decreases hi - lo,
{
    if lo >= hi {
        None
    } else if selectable(items, lo) {
        Some(lo)
    } else {
        first_selectable(items, lo + 1, hi)
    }
}

/// The last selectable item in `[lo, hi)`.
pub open spec fn last_selectable(items: Seq<ItemView>, lo: int, hi: int) -> Option<int>
    decreases hi - lo,
{
    if lo >= hi {
        None
    } else if selectable(items, hi - 1) {
        Some(hi - 1)
    } else {
        last_selectable(items, lo, hi - 1)
    }
}

/// What `first_selectable` finds: the least selectable index in the range.
pub proof fn lemma_first_selectable(items: Seq<ItemView>, lo: int, hi: int)
    ensures
        match first_selectable(items, lo, hi) {
            Some(i) => lo <= i < hi && selectable(items, i) && forall|j: int|
                lo <= j < i ==> !selectable(items, j),
            None => forall|j: int| lo <= j < hi ==> !selectable(items, j),
        },
    decreases hi - lo,
{
    if lo < hi && !selectable(items, lo) {
        lemma_first_selectable(items, lo + 1, hi);
    }
}

/// What `last_selectable` finds: the greatest selectable index in the range.
pub proof fn lemma_last_selectable(items: Seq<ItemView>, lo: int, hi: int)
    ensures
        match last_selectable(items, lo, hi) {
            Some(i) => lo <= i < hi && selectable(items, i) && forall|j: int|
                i < j < hi ==> !selectable(items, j),
            None => forall|j: int| lo <= j < hi ==> !selectable(items, j),
        },
    decreases hi - lo,
{
    if lo < hi && !selectable(items, hi - 1) {
        lemma_last_selectable(items, lo, hi - 1);
    }
}

/// The nearest item at or before `i` that isn't a context line; item 0 always counts.
pub open spec fn spec_selectable_at_or_before(items: Seq<ItemView>, i: int) -> int {
    match last_selectable(items, 1, i + 1) {
        Some(j) => j,
        None => 0,
    }
}

/// `first_selectable` over the items of a vector.
fn find_first_selectable(items: &Vec<StatusItem>, lo: usize, hi: usize) -> (r: Option<usize>)
    requires
        hi <= items@.len(),
    ensures
        r == (match first_selectable(items_view(items@), lo as int, hi as int) {
            Some(i) => Some(i as usize),
            None => None::<usize>,
        }),
{
    let ghost v = items_view(items@);
    let mut i = lo;
    while i < hi
        invariant
            lo <= i,
            hi <= items@.len(),
            v == items_view(items@),
            first_selectable(v, lo as int, hi as int) == first_selectable(v, i as int, hi as int),
        decreases hi - i,
    {
        if !items[i].is_context_line() {
            assert(v[i as int] == items@[i as int]@);
            return Some(i);
        }
        assert(v[i as int] == items@[i as int]@);
        i += 1;
    }
    None
}

/// `last_selectable` over the items of a vector.
fn find_last_selectable(items: &Vec<StatusItem>, lo: usize, hi: usize) -> (r: Option<usize>)
    requires
        hi <= items@.len(),
    ensures
        r == (match last_selectable(items_view(items@), lo as int, hi as int) {
            Some(i) => Some(i as usize),
            None => None::<usize>,
        }),
{
    let ghost v = items_view(items@);
    let mut j = hi;
    while j > lo
        invariant
            j <= hi,
            hi <= items@.len(),
            v == items_view(items@),
            last_selectable(v, lo as int, hi as int) == last_selectable(v, lo as int, j as int),
        decreases j,
    {
        assert(v[j - 1] == items@[j - 1]@);
        if !items[j - 1].is_context_line() {
            return Some(j - 1);
        }
        j -= 1;
    }
    None
}

impl App {
    /// Keep the cursor on an item, and off a Spacer.
    pub fn clamp_cursor(&mut self)
        ensures
            ({
                let n = final(self).items@.len();
                let v = items_view(final(self).items@);
                let c = final(self).cursor;
                &&& (n == 0 ==> c == 0)
                &&& (n > 0 ==> c < n)
                &&& c <= old(self).cursor
                &&& (c > 0 ==> !(v[c as int] is Spacer))
                &&& forall|j: int| c < j <= old(self).cursor && j < n ==> v[j] is Spacer
            }),
            *final(self) == (App { cursor: final(self).cursor, ..*old(self) }),
    {
        let n = self.items.len();
        let mut c = if n == 0 {
            0
        } else if self.cursor < n - 1 {
            self.cursor
        } else {
            n - 1
        };
        let ghost v = items_view(self.items@);
        while c > 0 && self.items[c].is_spacer()
            invariant
                n == self.items@.len(),
                v == items_view(self.items@),
                n == 0 ==> c == 0,
                n > 0 ==> c < n,
                c <= old(self).cursor,
                forall|j: int| c < j <= old(self).cursor && j < n ==> v[j] is Spacer,
            decreases c,
        {
            assert(v[c as int] == self.items@[c as int]@);
            c -= 1;
        }
        proof {
            if c > 0 {
                assert(v[c as int] == self.items@[c as int]@);
            }
        }
        self.cursor = c;
    }

    /// Nearest item at or before `i` that isn't a context line; item 0 always counts.
    pub fn selectable_at_or_before(&self, i: usize) -> (r: usize)
        requires
            i < self.items@.len(),
        ensures
            r == spec_selectable_at_or_before(items_view(self.items@), i as int),
    {
        let _n = self.items.len();
        proof {
            lemma_last_selectable(items_view(self.items@), 1, i + 1);
        }
        match find_last_selectable(&self.items, 1, i + 1) {
            Some(j) => j,
            None => 0,
        }
    }

    pub fn move_down(&mut self)
        ensures
            old(self).buffer == ActiveBuffer::Status ==> final(self).cursor == (match first_selectable(
                items_view(old(self).items@),
                old(self).cursor + 1,
                old(self).items@.len() as int,
            ) {
                Some(i) => i as usize,
                None => old(self).cursor,
            }),
            old(self).buffer == ActiveBuffer::Log ==> final(self).cursor == (if old(self).cursor + 1
                < old(self).log_filtered@.len() {
                (old(self).cursor + 1) as usize
            } else {
                old(self).cursor
            }),
            old(self).buffer != ActiveBuffer::Status && old(self).buffer != ActiveBuffer::Log
                ==> final(self).cursor == old(self).cursor,
            *final(self) == (App { cursor: final(self).cursor, ..*old(self) }),
    {
        let _n = self.items.len();
        let _m = self.log_filtered.len();
        match self.buffer {
            ActiveBuffer::Status => {
                if self.cursor < usize::MAX {
                    if let Some(next) = find_first_selectable(&self.items, self.cursor + 1, self.items.len()) {
                        self.cursor = next;
                    }
                }
            },
            ActiveBuffer::Log => {
                if self.cursor < usize::MAX && self.cursor + 1 < self.log_visible_len() {
                    self.cursor += 1;
                }
            },
            _ => {},
        }
    }

    pub fn move_up(&mut self)
        requires
            old(self).buffer == ActiveBuffer::Status ==> old(self).cursor <= old(self).items@.len(),
        ensures
            old(self).buffer == ActiveBuffer::Status && old(self).cursor > 0 ==> final(self).cursor
                == spec_selectable_at_or_before(items_view(old(self).items@), old(self).cursor - 1),
            old(self).buffer == ActiveBuffer::Log ==> final(self).cursor == (if old(self).cursor > 0 {
                (old(self).cursor - 1) as usize
            } else {
                0
            }),
            !(old(self).buffer == ActiveBuffer::Status && old(self).cursor > 0) && old(self).buffer
                != ActiveBuffer::Log ==> final(self).cursor == old(self).cursor,
            *final(self) == (App { cursor: final(self).cursor, ..*old(self) }),
    {
        match self.buffer {
            ActiveBuffer::Status if self.cursor > 0 => {
                self.cursor = self.selectable_at_or_before(self.cursor - 1);
            },
            ActiveBuffer::Log => self.cursor = if self.cursor > 0 { self.cursor - 1 } else { 0 },
            _ => {},
        }
    }

    pub fn move_page_down(&mut self, amount: usize)
        requires
            old(self).cursor + amount <= usize::MAX,
            old(self).buffer == ActiveBuffer::Status && old(self).items@.len() > 0 ==> old(self).cursor
                < usize::MAX,
        ensures
            ({
                let n = old(self).items@.len() as int;
                let v = items_view(old(self).items@);
                let c = old(self).cursor as int;
                let target = if c + amount < n - 1 { c + amount } else { n - 1 };
                old(self).buffer == ActiveBuffer::Status && n > 0 ==> final(self).cursor == (match first_selectable(
                    v,
                    target,
                    n,
                ) {
                    Some(i) => i as usize,
                    None => match last_selectable(v, c + 1, target + 1) {
                        Some(i) => i as usize,
                        None => old(self).cursor,
                    },
                })
            }),
            ({
                let len = old(self).log_filtered@.len() as int;
                let c = old(self).cursor as int;
                old(self).buffer == ActiveBuffer::Log ==> final(self).cursor == (if len > 0 {
                    (if c + amount < len - 1 { c + amount } else { len - 1 }) as usize
                } else {
                    old(self).cursor
                })
            }),
            !(old(self).buffer == ActiveBuffer::Status && old(self).items@.len() > 0) && old(self).buffer
                != ActiveBuffer::Log ==> final(self).cursor == old(self).cursor,
            old(self).buffer == ActiveBuffer::Status && old(self).items@.len() > 0 ==> final(self).cursor
                == crate::laws::cursor_after_page_down(*old(self), amount),
            *final(self) == (App { cursor: final(self).cursor, ..*old(self) }),
    {
        match self.buffer {
            ActiveBuffer::Status if self.items.len() > 0 => {
                let n = self.items.len();
                let target = if self.cursor + amount < n - 1 { self.cursor + amount } else { n - 1 };
                // Past a run of context lines at the end, fall back to the last
                // selectable item between the cursor and the target.
                self.cursor = match find_first_selectable(&self.items, target, n) {
                    Some(i) => i,
                    None => match find_last_selectable(&self.items, self.cursor + 1, target + 1) {
                        Some(i) => i,
                        None => self.cursor,
                    },
                };
            },
            ActiveBuffer::Log => {
                let len = self.log_visible_len();
                if len > 0 {
                    self.cursor = if self.cursor + amount < len - 1 { self.cursor + amount } else { len - 1 };
                }
            },
            _ => {},
        }
    }

    pub fn move_page_up(&mut self, amount: usize)
        requires
            old(self).buffer == ActiveBuffer::Status && old(self).items@.len() > 0 ==> (if old(self).cursor
                >= amount {
                old(self).cursor - amount
            } else {
                0
            }) < old(self).items@.len(),
        ensures
            ({
                let back = if old(self).cursor >= amount { old(self).cursor - amount } else { 0 };
                &&& old(self).buffer == ActiveBuffer::Status && old(self).items@.len() > 0 ==> final(self).cursor
                    == spec_selectable_at_or_before(items_view(old(self).items@), back)
                &&& old(self).buffer == ActiveBuffer::Log ==> final(self).cursor == back
                &&& !(old(self).buffer == ActiveBuffer::Status && old(self).items@.len() > 0) && old(self).buffer
                    != ActiveBuffer::Log ==> final(self).cursor == old(self).cursor
            }),
            old(self).buffer == ActiveBuffer::Status && old(self).items@.len() > 0 ==> final(self).cursor
                == crate::laws::cursor_after_page_up(*old(self), amount),
            *final(self) == (App { cursor: final(self).cursor, ..*old(self) }),
    {
        let back = if self.cursor >= amount { self.cursor - amount } else { 0 };
        match self.buffer {
            ActiveBuffer::Status if self.items.len() > 0 => {
                self.cursor = self.selectable_at_or_before(back);
            },
            ActiveBuffer::Log => self.cursor = back,
            _ => {},
        }
    }

    /// Number of commits currently visible in the log buffer.
    pub fn log_visible_len(&self) -> (r: usize)
        ensures
            r == self.log_filtered@.len(),
    {
        self.log_filtered.len()
    }
}

// ---------------------------------------------------------------------------
// The log filter
// ---------------------------------------------------------------------------

/// Whether a commit matches the lower-cased query: in its summary, author or
/// hash, compared in lower case.
pub open spec fn commit_matches(c: (Seq<char>, Seq<char>, Seq<char>), query: Seq<char>) -> bool {
    contains_seq(lowercase(c.1), query) || contains_seq(lowercase(c.2), query) || contains_seq(
        lowercase(c.0),
        query,
    )
}

/// Indices of the commits that match `query`, in log order.
pub open spec fn matching_indices(log: Seq<CommitInfo>, query: Seq<char>) -> Seq<usize>
    decreases log.len(),
{
    if log.len() == 0 {
        seq![]
    } else {
        let prev = matching_indices(log.drop_last(), query);
        if commit_matches(log.last()@, query) {
            prev.push((log.len() - 1) as usize)
        } else {
            prev
        }
    }
}

/// `0, 1, …, n - 1`.
pub open spec fn all_indices(n: nat) -> Seq<usize> {
    Seq::new(n, |i: int| i as usize)
}

/// The commits the log buffer shows: with a non-empty filter, those that
/// match it, case-insensitively; otherwise all.
pub open spec fn spec_log_filtered(log: Seq<CommitInfo>, filter: Option<Seq<char>>) -> Seq<usize> {
    match filter {
        Some(q) if q.len() > 0 => matching_indices(log, lowercase(q)),
        _ => all_indices(log.len()),
    }
}

/// The filter as plain characters.
pub open spec fn filter_view(filter: Option<String>) -> Option<Seq<char>> {
    match filter {
        Some(q) => Some(q@),
        None => None,
    }
}

/// Whether `c` matches the lower-cased `query` (see `commit_matches`).
fn commit_matches_exec(c: &CommitInfo, query: &Vec<char>) -> (r: bool)
    ensures
        r == commit_matches(c@, query@),
{
    let summary = chars_of(to_lowercase(c.summary.as_str()).as_str());
    if chars_contain(&summary, query) {
        return true;
    }
    let author = chars_of(to_lowercase(c.author.as_str()).as_str());
    if chars_contain(&author, query) {
        return true;
    }
    let hash = chars_of(to_lowercase(c.short_hash.as_str()).as_str());
    chars_contain(&hash, query)
}

/// The log filter's matches (see `spec_log_filtered`).
pub fn log_filter_matches(log: &Vec<CommitInfo>, filter: &Option<String>) -> (r: Vec<usize>)
    ensures
        r@ == spec_log_filtered(log@, filter_view(*filter)),
{
    let _n = log.len();
    let mut out: Vec<usize> = Vec::new();
    let mut i: usize = 0;
    match filter {
        Some(q) if !q.as_str().is_empty() => {
            let query = chars_of(to_lowercase(q.as_str()).as_str());
            assert(log@.take(0) =~= Seq::<CommitInfo>::empty());
            while i < log.len()
                invariant
                    i <= log@.len(),
                    query@ == lowercase(q@),
                    out@ == matching_indices(log@.take(i as int), query@),
                decreases log@.len() - i,
            {
                let t = Ghost(log@.take(i + 1));
                assert(t@.drop_last() =~= log@.take(i as int));
                assert(t@.last() == log@[i as int]);
                if commit_matches_exec(&log[i], &query) {
                    out.push(i);
                }
                i += 1;
            }
            assert(log@.take(log@.len() as int) =~= log@);
        },
        _ => {
            while i < log.len()
                invariant
                    i <= log@.len(),
                    out@ == all_indices(i as nat),
                decreases log@.len() - i,
            {
                out.push(i);
                assert(out@ =~= all_indices((i + 1) as nat));
                i += 1;
            }
            assert(out@ =~= all_indices(log@.len()));
        },
    }
    out
}

/// The commits at the valid indices of `idx`, in order.
pub open spec fn commits_at(log: Seq<CommitInfo>, idx: Seq<usize>) -> Seq<CommitInfo>
    decreases idx.len(),
{
    if idx.len() == 0 {
        seq![]
    } else {
        let prev = commits_at(log, idx.drop_last());
        if idx.last() < log.len() {
            prev.push(log[idx.last() as int])
        } else {
            prev
        }
    }
}

/// Every index is in range and they increase: the log filter never lists
/// a commit twice or out of order.
pub proof fn law_log_filter_keeps_log_order(log: Seq<CommitInfo>, filter: Option<Seq<char>>)
    requires
        log.len() <= usize::MAX,
    ensures
        forall|i: int|
            0 <= i < spec_log_filtered(log, filter).len() ==> #[trigger] spec_log_filtered(log, filter)[i]
                < log.len(),
        forall|i: int, j: int|
            0 <= i < j < spec_log_filtered(log, filter).len() ==> #[trigger] spec_log_filtered(log, filter)[i]
                < #[trigger] spec_log_filtered(log, filter)[j],
{
    match filter {
        Some(q) if q.len() > 0 => lemma_matching_indices(log, lowercase(q)),
        _ => {},
    }
}

/// `matching_indices` lists exactly the matching commits, in increasing order.
pub proof fn lemma_matching_indices(log: Seq<CommitInfo>, query: Seq<char>)
    requires
        log.len() <= usize::MAX,
    ensures
        forall|i: int|
            0 <= i < matching_indices(log, query).len() ==> #[trigger] matching_indices(log, query)[i]
                < log.len() && commit_matches(log[matching_indices(log, query)[i] as int]@, query),
        forall|i: int, j: int|
            0 <= i < j < matching_indices(log, query).len() ==> #[trigger] matching_indices(log, query)[i]
                < #[trigger] matching_indices(log, query)[j],
        forall|k: int|
            0 <= k < log.len() && commit_matches(#[trigger] log[k]@, query) ==> matching_indices(
                log,
                query,
            ).contains(k as usize),
    decreases log.len(),
{
    if log.len() > 0 {
        let p = log.drop_last();
        lemma_matching_indices(p, query);
        let m = matching_indices(log, query);
        let mp = matching_indices(p, query);
        assert forall|i: int| 0 <= i < m.len() implies #[trigger] m[i] < log.len() && commit_matches(
            log[m[i] as int]@,
            query,
        ) by {
            if i == mp.len() {
                assert(m[i] == (log.len() - 1) as usize);
            }
            if i < mp.len() {
                assert(m[i] == mp[i]);
                assert(log[mp[i] as int] == p[mp[i] as int]);
            }
        }
        assert forall|k: int| 0 <= k < log.len() && commit_matches(#[trigger] log[k]@, query) implies m.contains(
            k as usize,
        ) by {
            if k < log.len() - 1 {
                assert(p[k] == log[k]);
                let w = choose|w: int| 0 <= w < mp.len() && mp[w] == k as usize;
                assert(m[w] == k as usize);
            } else {
                assert(m.last() == k as usize);
            }
        }
    }
}

impl App {
    /// Recompute the log filter's matches after the log or the filter changed.
    fn rebuild_log_filter(&mut self)
        ensures
            final(self).log_filtered@ == spec_log_filtered(old(self).log@, filter_view(old(self).log_filter)),
            *final(self) == (App { log_filtered: final(self).log_filtered, ..*old(self) }),
    {
        self.log_filtered = log_filter_matches(&self.log, &self.log_filter);
    }

    /// Show `log` in the log buffer, under the current filter.
    pub fn load_log(&mut self, log: Vec<CommitInfo>)
        ensures
            final(self).log == log,
            final(self).log_filtered@ == spec_log_filtered(log@, filter_view(old(self).log_filter)),
            *final(self) == (App { log: final(self).log, log_filtered: final(self).log_filtered, ..*old(self) }),
    {
        self.log = log;
        self.rebuild_log_filter();
    }

    /// Set or clear the log filter, recomputing the match list and moving
    /// the cursor back to the top.
    pub fn set_log_filter(&mut self, filter: Option<String>)
        ensures
            final(self).log_filter == filter,
            final(self).log_filtered@ == spec_log_filtered(old(self).log@, filter_view(filter)),
            final(self).cursor == 0,
            *final(self) == (App {
                log_filter: final(self).log_filter,
                log_filtered: final(self).log_filtered,
                cursor: 0,
                ..*old(self)
            }),
    {
        self.log_filter = filter;
        self.rebuild_log_filter();
        self.cursor = 0;
    }

    /// The commits currently visible in the log buffer, in display order.
    pub fn log_visible(&self) -> (r: Vec<&CommitInfo>)
        ensures
            r@.len() == commits_at(self.log@, self.log_filtered@).len(),
            forall|k: int| 0 <= k < r@.len() ==> *r@[k] == commits_at(self.log@, self.log_filtered@)[k],
    {
        let mut out: Vec<&CommitInfo> = Vec::new();
        let mut k: usize = 0;
        let _n = self.log.len();
        while k < self.log_filtered.len()
            invariant
                k <= self.log_filtered@.len(),
                _n == self.log@.len(),
                out@.len() == commits_at(self.log@, self.log_filtered@.take(k as int)).len(),
                forall|j: int|
                    0 <= j < out@.len() ==> *out@[j] == commits_at(self.log@, self.log_filtered@.take(k as int))[j],
            decreases self.log_filtered@.len() - k,
        {
            let i = self.log_filtered[k];
            let t = Ghost(self.log_filtered@.take(k + 1));
            assert(t@.drop_last() =~= self.log_filtered@.take(k as int));
            assert(t@.last() == i);
            if i < self.log.len() {
                out.push(&self.log[i]);
            }
            k += 1;
        }
        assert(self.log_filtered@.take(self.log_filtered@.len() as int) =~= self.log_filtered@);
        out
    }
}

// ---------------------------------------------------------------------------
// Staging, unstaging and discarding at the cursor
// ---------------------------------------------------------------------------

/// What a stage, unstage or discard key does to the item under the cursor.
/// The program carries it out and reports back.
pub enum CursorAction {
    /// Nothing to do for this item.
    Nothing,
    /// Only tell the user something.
    Message(String),
    StageFile(String),
    UnstageFile(String),
    /// Stage every file of the section (its header is under the cursor).
    StageSection { section: Section, paths: Vec<String> },
    UnstageAll,
    /// Apply the operation to one hunk of a cached diff.
    Hunk { file_path: String, hunk_index: usize },
    /// Apply the operation to one change line of a cached diff.
    Line { file_path: String, hunk_index: usize, line_in_hunk: usize },
    /// Remove an untracked file or directory from the worktree.
    DeleteUntracked(String),
    DeleteAllUntracked(Vec<String>),
    DiscardStagedFile(String),
    DiscardFile(String),
    DiscardAllStaged,
    DiscardAllUnstaged,
    /// Discard a hunk of the worktree, as git now shows it.
    DiscardHunk { file_path: String, hunk_index: usize },
}

/// `CursorAction` as plain values.
pub enum CursorActionView {
    Nothing,
    Message(Seq<char>),
    StageFile(Seq<char>),
    UnstageFile(Seq<char>),
    StageSection { section: Section, paths: Seq<Seq<char>> },
    UnstageAll,
    Hunk { file_path: Seq<char>, hunk_index: usize },
    Line { file_path: Seq<char>, hunk_index: usize, line_in_hunk: usize },
    DeleteUntracked(Seq<char>),
    DeleteAllUntracked(Seq<Seq<char>>),
    DiscardStagedFile(Seq<char>),
    DiscardFile(Seq<char>),
    DiscardAllStaged,
    DiscardAllUnstaged,
    DiscardHunk { file_path: Seq<char>, hunk_index: usize },
}

/// The texts of a vector of strings.

impl View for CursorAction {
    type V = CursorActionView;

    open spec fn view(&self) -> CursorActionView {
        match self {
            CursorAction::Nothing => CursorActionView::Nothing,
            CursorAction::Message(m) => CursorActionView::Message(m@),
            CursorAction::StageFile(p) => CursorActionView::StageFile(p@),
            CursorAction::UnstageFile(p) => CursorActionView::UnstageFile(p@),
            CursorAction::StageSection { section, paths } => CursorActionView::StageSection {
                section: *section,
                paths: strings_view(paths@),
            },
            CursorAction::UnstageAll => CursorActionView::UnstageAll,
            CursorAction::Hunk { file_path, hunk_index } => CursorActionView::Hunk {
                file_path: file_path@,
                hunk_index: *hunk_index,
            },
            CursorAction::Line { file_path, hunk_index, line_in_hunk } => CursorActionView::Line {
                file_path: file_path@,
                hunk_index: *hunk_index,
                line_in_hunk: *line_in_hunk,
            },
            CursorAction::DeleteUntracked(p) => CursorActionView::DeleteUntracked(p@),
            CursorAction::DeleteAllUntracked(ps) => CursorActionView::DeleteAllUntracked(strings_view(ps@)),
            CursorAction::DiscardStagedFile(p) => CursorActionView::DiscardStagedFile(p@),
            CursorAction::DiscardFile(p) => CursorActionView::DiscardFile(p@),
            CursorAction::DiscardAllStaged => CursorActionView::DiscardAllStaged,
            CursorAction::DiscardAllUnstaged => CursorActionView::DiscardAllUnstaged,
            CursorAction::DiscardHunk { file_path, hunk_index } => CursorActionView::DiscardHunk {
                file_path: file_path@,
                hunk_index: *hunk_index,
            },
        }
    }
}

/// The paths of a section's files.
pub open spec fn entry_paths(entries: Seq<FileEntry>) -> Seq<Seq<char>> {
    entries.map_values(|e: FileEntry| e.path@)
}

/// The hunk or change line under the cursor, for an operation whose source
/// section it is in; anything else does nothing.
pub open spec fn spec_patch_action(item: ItemView, op: PatchOp) -> CursorActionView {
    match item {
        ItemView::HunkHeader { hunk_index, file_path, section, .. } if section == op.spec_source() =>
            CursorActionView::Hunk { file_path, hunk_index },
        ItemView::DiffLine { line, file_path, section, hunk_index, line_in_hunk } if section
            == op.spec_source() && spec_is_change(line) => CursorActionView::Line {
            file_path,
            hunk_index,
            line_in_hunk,
        },
        _ => CursorActionView::Nothing,
    }
}

/// Staging: a staged file is already staged; another file is staged; the
/// header of the unstaged or untracked files stages them all; a hunk or
/// change line is staged by patch.
pub open spec fn spec_stage_action(item: ItemView, status: RepoStatus) -> CursorActionView {
    match item {
        ItemView::File { entry, section: Section::Staged, .. } => CursorActionView::Message(
            entry.0 + " is already staged"@,
        ),
        ItemView::File { entry, .. } => CursorActionView::StageFile(entry.0),
        ItemView::Header { section, .. } if section == Section::Unstaged || section
            == Section::Untracked => CursorActionView::StageSection {
            section,
            paths: entry_paths(spec_section_entries(status, section)),
        },
        _ => spec_patch_action(item, PatchOp::Stage),
    }
}

/// Unstaging: a staged file is unstaged; the staged header unstages all; a
/// staged hunk or change line is unstaged by patch.
pub open spec fn spec_unstage_action(item: ItemView) -> CursorActionView {
    match item {
        ItemView::File { entry, section: Section::Staged, .. } => CursorActionView::UnstageFile(entry.0),
        ItemView::Header { section: Section::Staged, .. } => CursorActionView::UnstageAll,
        _ => spec_patch_action(item, PatchOp::Unstage),
    }
}

/// Discarding: untracked files are deleted; a staged file loses both its
/// staged and unstaged changes; another file its unstaged ones; a header
/// does that to its whole section; an unstaged hunk is discarded.
pub open spec fn spec_discard_action(item: ItemView, status: RepoStatus) -> CursorActionView {
    match item {
        ItemView::File { entry, section: Section::Untracked, .. } => CursorActionView::DeleteUntracked(entry.0),
        ItemView::File { entry, section: Section::Staged, .. } => CursorActionView::DiscardStagedFile(entry.0),
        ItemView::File { entry, .. } => CursorActionView::DiscardFile(entry.0),
        ItemView::Header { section: Section::Untracked, .. } => CursorActionView::DeleteAllUntracked(
            entry_paths(status.untracked@),
        ),
        ItemView::Header { section: Section::Staged, .. } => CursorActionView::DiscardAllStaged,
        ItemView::Header { .. } => CursorActionView::DiscardAllUnstaged,
        ItemView::HunkHeader { hunk_index, file_path, section: Section::Unstaged, .. } =>
            CursorActionView::DiscardHunk { file_path, hunk_index },
        _ => CursorActionView::Nothing,
    }
}

/// The paths of `entries`, in order.
fn paths_of(entries: &Vec<FileEntry>) -> (r: Vec<String>)
    ensures
        strings_view(r@) == entry_paths(entries@),
{
    let mut out: Vec<String> = Vec::new();
    let mut i: usize = 0;
    while i < entries.len()
        invariant
            i <= entries@.len(),
            strings_view(out@) == entry_paths(entries@.take(i as int)),
        decreases entries@.len() - i,
    {
        let ghost before = out@;
        out.push(entries[i].path.clone());
        assert(entry_paths(entries@.take(i + 1)) =~= entry_paths(entries@.take(i as int)).push(
            entries@[i as int].path@,
        ));
        assert(strings_view(out@) =~= strings_view(before).push(entries@[i as int].path@));
        i += 1;
    }
    assert(entries@.take(entries@.len() as int) =~= entries@);
    out
}

/// The hunk or change line under the cursor, for `op` (see `spec_patch_action`).
fn patch_action(item: &StatusItem, op: PatchOp) -> (r: CursorAction)
    ensures
        r@ == spec_patch_action(item@, op),
{
    match item {
        StatusItem::HunkHeader { hunk_index, file_path, section, .. } if *section == op.source() =>
            CursorAction::Hunk { file_path: file_path.clone(), hunk_index: *hunk_index },
        StatusItem::DiffLine { line, file_path, section, hunk_index, line_in_hunk } if *section
            == op.source() && is_change(line.as_str()) => CursorAction::Line {
            file_path: file_path.clone(),
            hunk_index: *hunk_index,
            line_in_hunk: *line_in_hunk,
        },
        _ => CursorAction::Nothing,
    }
}

impl App {
    /// What staging does to the item under the cursor (nothing past the end).
    pub fn stage_action(&self) -> (r: CursorAction)
        ensures
            r@ == (if self.cursor < self.items@.len() {
                spec_stage_action(self.items@[self.cursor as int]@, self.status)
            } else {
                CursorActionView::Nothing
            }),
    {
        if self.cursor >= self.items.len() {
            return CursorAction::Nothing;
        }
        let item = &self.items[self.cursor];
        match item {
            StatusItem::File { entry, section: Section::Staged, .. } => {
                let msg = entry.path.clone().concat(" is already staged");
                CursorAction::Message(msg)
            },
            StatusItem::File { entry, .. } => CursorAction::StageFile(entry.path.clone()),
            StatusItem::Header { section, .. } if *section == Section::Unstaged || *section
                == Section::Untracked => CursorAction::StageSection {
                section: *section,
                paths: paths_of(self.section_entries(*section)),
            },
            _ => patch_action(item, PatchOp::Stage),
        }
    }

    /// What unstaging does to the item under the cursor (nothing past the end).
    pub fn unstage_action(&self) -> (r: CursorAction)
        ensures
            r@ == (if self.cursor < self.items@.len() {
                spec_unstage_action(self.items@[self.cursor as int]@)
            } else {
                CursorActionView::Nothing
            }),
    {
        if self.cursor >= self.items.len() {
            return CursorAction::Nothing;
        }
        let item = &self.items[self.cursor];
        match item {
            StatusItem::File { entry, section: Section::Staged, .. } => CursorAction::UnstageFile(
                entry.path.clone(),
            ),
            StatusItem::Header { section: Section::Staged, .. } => CursorAction::UnstageAll,
            _ => patch_action(item, PatchOp::Unstage),
        }
    }

    /// What discarding does to the item under the cursor (nothing past the end).
    pub fn discard_action(&self) -> (r: CursorAction)
        ensures
            r@ == (if self.cursor < self.items@.len() {
                spec_discard_action(self.items@[self.cursor as int]@, self.status)
            } else {
                CursorActionView::Nothing
            }),
    {
        if self.cursor >= self.items.len() {
            return CursorAction::Nothing;
        }
        match &self.items[self.cursor] {
            StatusItem::File { entry, section: Section::Untracked, .. } => CursorAction::DeleteUntracked(
                entry.path.clone(),
            ),
            StatusItem::File { entry, section: Section::Staged, .. } => CursorAction::DiscardStagedFile(
                entry.path.clone(),
            ),
            StatusItem::File { entry, .. } => CursorAction::DiscardFile(entry.path.clone()),
            StatusItem::Header { section: Section::Untracked, .. } => CursorAction::DeleteAllUntracked(
                paths_of(&self.status.untracked),
            ),
            StatusItem::Header { section: Section::Staged, .. } => CursorAction::DiscardAllStaged,
            StatusItem::Header { .. } => CursorAction::DiscardAllUnstaged,
            StatusItem::HunkHeader { hunk_index, file_path, section: Section::Unstaged, .. } =>
                CursorAction::DiscardHunk { file_path: file_path.clone(), hunk_index: *hunk_index },
            _ => CursorAction::Nothing,
        }
    }

    /// Once a whole-file or whole-section action has been carried out, drop
    /// the cached diffs it made stale (before the status is read again).
    /// Hunk and line actions refresh their own files' diffs instead.
    pub fn forget_stale_diffs(&mut self, action: &CursorAction)
        ensures
            final(self).diff_cache@ == diffs_after(old(self).diff_cache@, action@),
            *final(self) == (App { diff_cache: final(self).diff_cache, ..*old(self) }),
    {
        match action {
            CursorAction::StageSection { .. } | CursorAction::UnstageAll | CursorAction::DiscardAllStaged
            | CursorAction::DiscardAllUnstaged => self.diff_cache.clear(),
            CursorAction::DiscardStagedFile(p) => self.diff_cache.remove(Section::Staged, p.as_str()),
            CursorAction::DiscardFile(p) => self.diff_cache.remove(Section::Unstaged, p.as_str()),
            _ => {},
        }
    }
}

/// What to read again once a cursor action has been carried out.
pub enum FollowUp {
    Nothing,
    /// Read the whole status again.
    Refresh,
    /// Read the status again and the diffs of `paths`; `destination` is the
    /// section that received the change, whose diffs are shown.
    RefreshFiles { paths: Vec<String>, destination: Section },
}

/// `FollowUp` as plain values.
pub enum FollowUpView {
    Nothing,
    Refresh,
    RefreshFiles { paths: Seq<Seq<char>>, destination: Section },
}

impl View for FollowUp {
    type V = FollowUpView;

    open spec fn view(&self) -> FollowUpView {
        match self {
            FollowUp::Nothing => FollowUpView::Nothing,
            FollowUp::Refresh => FollowUpView::Refresh,
            FollowUp::RefreshFiles { paths, destination } => FollowUpView::RefreshFiles {
                paths: strings_view(paths@),
                destination: *destination,
            },
        }
    }
}

/// What an action carried out for operation `op` reads again: a file
/// staged or unstaged, or a hunk or line patched, refreshes that file's
/// diffs with the receiving section shown (the worktree for a discarded
/// hunk); whole sections, deleted files and discarded files refresh the
/// whole status; messages and no-ops refresh nothing.
pub open spec fn spec_follow_up(a: CursorActionView, op: PatchOp) -> FollowUpView {
    match a {
        CursorActionView::Nothing | CursorActionView::Message(_) => FollowUpView::Nothing,
        CursorActionView::StageFile(p) => FollowUpView::RefreshFiles { paths: seq![p], destination: Section::Staged },
        CursorActionView::UnstageFile(p) => FollowUpView::RefreshFiles {
            paths: seq![p],
            destination: Section::Unstaged,
        },
        CursorActionView::Hunk { file_path, .. } | CursorActionView::Line { file_path, .. } =>
            FollowUpView::RefreshFiles { paths: seq![file_path], destination: op.spec_destination() },
        CursorActionView::DiscardHunk { file_path, .. } => FollowUpView::RefreshFiles {
            paths: seq![file_path],
            destination: Section::Unstaged,
        },
        _ => FollowUpView::Refresh,
    }
}

fn one_path(p: &String) -> (r: Vec<String>)
    ensures
        strings_view(r@) == seq![p@],
{
    let mut v: Vec<String> = Vec::new();
    v.push(p.clone());
    assert(strings_view(v@) =~= seq![p@]);
    v
}

impl CursorAction {
    /// What to read again once this action has been carried out for `op`
    /// (see `spec_follow_up`).
    pub fn follow_up(&self, op: PatchOp) -> (r: FollowUp)
        ensures
            r@ == spec_follow_up(self@, op),
    {
        match self {
            CursorAction::Nothing | CursorAction::Message(_) => FollowUp::Nothing,
            CursorAction::StageFile(p) => FollowUp::RefreshFiles { paths: one_path(p), destination: Section::Staged },
            CursorAction::UnstageFile(p) => FollowUp::RefreshFiles {
                paths: one_path(p),
                destination: Section::Unstaged,
            },
            CursorAction::Hunk { file_path, .. } | CursorAction::Line { file_path, .. } => FollowUp::RefreshFiles {
                paths: one_path(file_path),
                destination: op.destination(),
            },
            CursorAction::DiscardHunk { file_path, .. } => FollowUp::RefreshFiles {
                paths: one_path(file_path),
                destination: Section::Unstaged,
            },
            _ => FollowUp::Refresh,
        }
    }
}

/// The cached diffs left once `a` has been carried out: none after a
/// section-wide action, all but the discarded file's after discarding a
/// file, and all of them otherwise.
pub open spec fn diffs_after(
    cache: Map<(Section, Seq<char>), Seq<char>>,
    a: CursorActionView,
) -> Map<(Section, Seq<char>), Seq<char>> {
    match a {
        CursorActionView::StageSection { .. } | CursorActionView::UnstageAll | CursorActionView::DiscardAllStaged
        | CursorActionView::DiscardAllUnstaged => Map::empty(),
        CursorActionView::DiscardStagedFile(p) => cache.remove((Section::Staged, p)),
        CursorActionView::DiscardFile(p) => cache.remove((Section::Unstaged, p)),
        _ => cache,
    }
}

// ---------------------------------------------------------------------------
// Patches cut from cached diffs
// ---------------------------------------------------------------------------

/// A selected change line: (file, hunk index, index within the hunk body).
pub type LineRef = (String, usize, usize);

pub open spec fn line_ref_view(l: LineRef) -> (Seq<char>, usize, usize) {
    (l.0@, l.1, l.2)
}

/// The change lines of `op`'s source section among items `[lo, hi)`.
pub open spec fn selection_lines(items: Seq<ItemView>, lo: int, hi: int, source: Section) -> Seq<
    (Seq<char>, usize, usize),
>
    decreases hi - lo,
{
    if hi <= lo {
        seq![]
    } else {
        let prev = selection_lines(items, lo, hi - 1, source);
        match items[hi - 1] {
            ItemView::DiffLine { line, file_path, section, hunk_index, line_in_hunk } if section == source
                && spec_is_change(line) => prev.push((file_path, hunk_index, line_in_hunk)),
            _ => prev,
        }
    }
}

/// The lines of one (file, hunk) of a selection.
pub struct LineGroup {
    pub file_path: String,
    pub hunk_index: usize,
    pub lines: HashSet<usize>,
}

/// The key of a group as plain values.
pub open spec fn group_key(g: LineGroup) -> (Seq<char>, usize) {
    (g.file_path@, g.hunk_index)
}

/// Distinct groups have distinct keys.
pub open spec fn keys_distinct(groups: Seq<LineGroup>) -> bool {
    forall|a: int, b: int|
        0 <= a < b < groups.len() ==> group_key(#[trigger] groups[a]) != group_key(#[trigger] groups[b])
}

/// Every line is in the group of its key.
pub open spec fn lines_covered(groups: Seq<LineGroup>, lines: Seq<(Seq<char>, usize, usize)>) -> bool {
    forall|k: int|
        #![trigger lines[k]]
        0 <= k < lines.len() ==> exists|a: int|
            0 <= a < groups.len() && group_key(#[trigger] groups[a]) == (lines[k].0, lines[k].1)
                && groups[a].lines@.contains(lines[k].2)
}

/// Every line index of a group was given for its key.
pub open spec fn members_given(groups: Seq<LineGroup>, lines: Seq<(Seq<char>, usize, usize)>) -> bool {
    forall|a: int, x: usize|
        0 <= a < groups.len() && #[trigger] groups[a].lines@.contains(x) ==> exists|k: int|
            0 <= k < lines.len() && #[trigger] lines[k] == (groups[a].file_path@, groups[a].hunk_index, x)
}

/// Every group's key was given.
pub open spec fn keys_given(groups: Seq<LineGroup>, lines: Seq<(Seq<char>, usize, usize)>) -> bool {
    forall|a: int|
        #![trigger groups[a]]
        0 <= a < groups.len() ==> exists|k: int|
            0 <= k < lines.len() && (#[trigger] lines[k]).0 == groups[a].file_path@ && lines[k].1
                == groups[a].hunk_index
}

/// `groups` partitions `lines` by (file, hunk): one group per key, holding
/// exactly the line indices given for that key.
#[verifier::opaque]
pub open spec fn groups_partition(groups: Seq<LineGroup>, lines: Seq<(Seq<char>, usize, usize)>) -> bool {
    &&& keys_distinct(groups)
    &&& lines_covered(groups, lines)
    &&& members_given(groups, lines)
    &&& keys_given(groups, lines)
}

/// `groups` is `old_groups` with group `g` replaced by one of the same key
/// that also holds `x`.
pub open spec fn added_to(old_groups: Seq<LineGroup>, groups: Seq<LineGroup>, g: int, x: usize) -> bool {
    &&& 0 <= g < old_groups.len()
    &&& groups.len() == old_groups.len()
    &&& groups[g].file_path@ == old_groups[g].file_path@
    &&& groups[g].hunk_index == old_groups[g].hunk_index
    &&& groups[g].lines@ == old_groups[g].lines@.insert(x)
    &&& forall|a: int| 0 <= a < groups.len() && a != g ==> #[trigger] groups[a] == old_groups[a]
}

proof fn lemma_add_distinct(old_groups: Seq<LineGroup>, groups: Seq<LineGroup>, g: int, x: usize)
    requires
        keys_distinct(old_groups),
        added_to(old_groups, groups, g, x),
    ensures
        keys_distinct(groups),
{
    assert forall|a: int, b: int| 0 <= a < b < groups.len() implies group_key(#[trigger] groups[a])
        != group_key(#[trigger] groups[b]) by {
        assert(group_key(old_groups[a]) != group_key(old_groups[b]));
        if a != g {
            assert(groups[a] == old_groups[a]);
        }
        if b != g {
            assert(groups[b] == old_groups[b]);
        }
    }
}

proof fn lemma_add_covered(
    old_groups: Seq<LineGroup>,
    groups: Seq<LineGroup>,
    g: int,
    pre: Seq<(Seq<char>, usize, usize)>,
    x: usize,
)
    requires
        lines_covered(old_groups, pre),
        added_to(old_groups, groups, g, x),
    ensures
        lines_covered(groups, pre.push((groups[g].file_path@, groups[g].hunk_index, x))),
{
    let cur = pre.push((groups[g].file_path@, groups[g].hunk_index, x));
    assert forall|k: int| #![trigger cur[k]] 0 <= k < cur.len() implies exists|a: int|
        0 <= a < groups.len() && group_key(#[trigger] groups[a]) == (cur[k].0, cur[k].1)
            && groups[a].lines@.contains(cur[k].2) by {
        if k == pre.len() {
            assert(group_key(groups[g]) == (cur[k].0, cur[k].1) && groups[g].lines@.contains(cur[k].2));
        } else {
            assert(cur[k] == pre[k]);
            let a = choose|a: int|
                0 <= a < old_groups.len() && group_key(#[trigger] old_groups[a]) == (pre[k].0, pre[k].1)
                    && old_groups[a].lines@.contains(pre[k].2);
            if a == g {
                assert(groups[g].lines@.contains(pre[k].2));
            } else {
                assert(groups[a] == old_groups[a]);
            }
        }
    }
}

proof fn lemma_add_members(
    old_groups: Seq<LineGroup>,
    groups: Seq<LineGroup>,
    g: int,
    pre: Seq<(Seq<char>, usize, usize)>,
    x: usize,
)
    requires
        members_given(old_groups, pre),
        added_to(old_groups, groups, g, x),
    ensures
        members_given(groups, pre.push((groups[g].file_path@, groups[g].hunk_index, x))),
{
    let cur = pre.push((groups[g].file_path@, groups[g].hunk_index, x));
    assert forall|a: int, y: usize| 0 <= a < groups.len() && #[trigger] groups[a].lines@.contains(y) implies exists|
        k: int,
    | 0 <= k < cur.len() && #[trigger] cur[k] == (groups[a].file_path@, groups[a].hunk_index, y) by {
        if a == g && y == x {
            assert(cur[pre.len() as int] == (groups[a].file_path@, groups[a].hunk_index, y));
        } else {
            if a != g {
                assert(groups[a] == old_groups[a]);
            }
            assert(old_groups[a].lines@.contains(y));
            let k = choose|k: int|
                0 <= k < pre.len() && #[trigger] pre[k] == (old_groups[a].file_path@, old_groups[a].hunk_index, y);
            assert(cur[k] == pre[k]);
        }
    }
}

proof fn lemma_add_keys(
    old_groups: Seq<LineGroup>,
    groups: Seq<LineGroup>,
    g: int,
    pre: Seq<(Seq<char>, usize, usize)>,
    x: usize,
)
    requires
        keys_given(old_groups, pre),
        added_to(old_groups, groups, g, x),
    ensures
        keys_given(groups, pre.push((groups[g].file_path@, groups[g].hunk_index, x))),
{
    let cur = pre.push((groups[g].file_path@, groups[g].hunk_index, x));
    assert forall|a: int| #![trigger groups[a]] 0 <= a < groups.len() implies exists|k: int|
        0 <= k < cur.len() && (#[trigger] cur[k]).0 == groups[a].file_path@ && cur[k].1 == groups[a].hunk_index by {
        if a != g {
            assert(groups[a] == old_groups[a]);
        }
        let k = choose|k: int|
            0 <= k < pre.len() && (#[trigger] pre[k]).0 == old_groups[a].file_path@ && pre[k].1
                == old_groups[a].hunk_index;
        assert(cur[k] == pre[k]);
    }
}

/// `groups` is `old_groups` and one more group, of a new key, holding just `x`.
pub open spec fn appended(old_groups: Seq<LineGroup>, groups: Seq<LineGroup>, x: usize) -> bool {
    &&& groups.len() == old_groups.len() + 1
    &&& forall|a: int| 0 <= a < old_groups.len() ==> #[trigger] groups[a] == old_groups[a]
    &&& forall|a: int| 0 <= a < old_groups.len() ==> group_key(#[trigger] old_groups[a]) != group_key(groups.last())
    &&& groups.last().lines@ == Set::<usize>::empty().insert(x)
}

proof fn lemma_new_distinct(old_groups: Seq<LineGroup>, groups: Seq<LineGroup>, x: usize)
    requires
        keys_distinct(old_groups),
        appended(old_groups, groups, x),
    ensures
        keys_distinct(groups),
{
    let n = old_groups.len() as int;
    assert forall|a: int, b: int| 0 <= a < b < groups.len() implies group_key(#[trigger] groups[a])
        != group_key(#[trigger] groups[b]) by {
        assert(groups[a] == old_groups[a]);
        if b < n {
            assert(groups[b] == old_groups[b]);
            assert(group_key(old_groups[a]) != group_key(old_groups[b]));
        } else {
            assert(group_key(old_groups[a]) != group_key(groups.last()));
        }
    }
}

proof fn lemma_new_covered(
    old_groups: Seq<LineGroup>,
    groups: Seq<LineGroup>,
    pre: Seq<(Seq<char>, usize, usize)>,
    x: usize,
)
    requires
        lines_covered(old_groups, pre),
        appended(old_groups, groups, x),
    ensures
        lines_covered(groups, pre.push((groups.last().file_path@, groups.last().hunk_index, x))),
{
    let n = old_groups.len() as int;
    let cur = pre.push((groups.last().file_path@, groups.last().hunk_index, x));
    assert forall|k: int| #![trigger cur[k]] 0 <= k < cur.len() implies exists|a: int|
        0 <= a < groups.len() && group_key(#[trigger] groups[a]) == (cur[k].0, cur[k].1)
            && groups[a].lines@.contains(cur[k].2) by {
        if k == pre.len() {
            assert(group_key(groups[n]) == (cur[k].0, cur[k].1) && groups[n].lines@.contains(cur[k].2));
        } else {
            assert(cur[k] == pre[k]);
            let a = choose|a: int|
                0 <= a < old_groups.len() && group_key(#[trigger] old_groups[a]) == (pre[k].0, pre[k].1)
                    && old_groups[a].lines@.contains(pre[k].2);
            assert(groups[a] == old_groups[a]);
        }
    }
}

proof fn lemma_new_members(
    old_groups: Seq<LineGroup>,
    groups: Seq<LineGroup>,
    pre: Seq<(Seq<char>, usize, usize)>,
    x: usize,
)
    requires
        members_given(old_groups, pre),
        appended(old_groups, groups, x),
    ensures
        members_given(groups, pre.push((groups.last().file_path@, groups.last().hunk_index, x))),
{
    let n = old_groups.len() as int;
    let cur = pre.push((groups.last().file_path@, groups.last().hunk_index, x));
    assert forall|a: int, y: usize| 0 <= a < groups.len() && #[trigger] groups[a].lines@.contains(y) implies exists|
        k: int,
    | 0 <= k < cur.len() && #[trigger] cur[k] == (groups[a].file_path@, groups[a].hunk_index, y) by {
        if a == n {
            assert(y == x);
            assert(cur[pre.len() as int] == (groups[a].file_path@, groups[a].hunk_index, y));
        } else {
            assert(groups[a] == old_groups[a]);
            let k = choose|k: int|
                0 <= k < pre.len() && #[trigger] pre[k] == (old_groups[a].file_path@, old_groups[a].hunk_index, y);
            assert(cur[k] == pre[k]);
        }
    }
}

proof fn lemma_new_keys(
    old_groups: Seq<LineGroup>,
    groups: Seq<LineGroup>,
    pre: Seq<(Seq<char>, usize, usize)>,
    x: usize,
)
    requires
        keys_given(old_groups, pre),
        appended(old_groups, groups, x),
    ensures
        keys_given(groups, pre.push((groups.last().file_path@, groups.last().hunk_index, x))),
{
    let n = old_groups.len() as int;
    let cur = pre.push((groups.last().file_path@, groups.last().hunk_index, x));
    assert forall|a: int| #![trigger groups[a]] 0 <= a < groups.len() implies exists|k: int|
        0 <= k < cur.len() && (#[trigger] cur[k]).0 == groups[a].file_path@ && cur[k].1 == groups[a].hunk_index by {
        if a == n {
            assert(cur[pre.len() as int].0 == groups[a].file_path@);
        } else {
            assert(groups[a] == old_groups[a]);
            let k = choose|k: int|
                0 <= k < pre.len() && (#[trigger] pre[k]).0 == old_groups[a].file_path@ && pre[k].1
                    == old_groups[a].hunk_index;
            assert(cur[k] == pre[k]);
        }
    }
}

/// The group of `(file, hunk)`, if there is one.
fn find_group(groups: &Vec<LineGroup>, file: &str, hunk: usize) -> (r: Option<usize>)
    ensures
        r matches Some(g) ==> g < groups@.len() && group_key(groups@[g as int]) == (file@, hunk),
        r is None ==> forall|a: int| 0 <= a < groups@.len() ==> group_key(#[trigger] groups@[a]) != (file@, hunk),
{
    let mut g: usize = 0;
    while g < groups.len()
        invariant
            g <= groups@.len(),
            forall|a: int| 0 <= a < g ==> group_key(#[trigger] groups@[a]) != (file@, hunk),
        decreases groups@.len() - g,
    {
        if groups[g].hunk_index == hunk && str_eq(groups[g].file_path.as_str(), file) {
            return Some(g);
        }
        g += 1;
    }
    None
}

proof fn lemma_partition_add(
    old_groups: Seq<LineGroup>,
    groups: Seq<LineGroup>,
    g: int,
    pre: Seq<(Seq<char>, usize, usize)>,
    x: usize,
)
    requires
        groups_partition(old_groups, pre),
        added_to(old_groups, groups, g, x),
    ensures
        groups_partition(groups, pre.push((groups[g].file_path@, groups[g].hunk_index, x))),
{
    reveal(groups_partition);
    lemma_add_distinct(old_groups, groups, g, x);
    lemma_add_covered(old_groups, groups, g, pre, x);
    lemma_add_members(old_groups, groups, g, pre, x);
    lemma_add_keys(old_groups, groups, g, pre, x);
}

proof fn lemma_partition_new(
    old_groups: Seq<LineGroup>,
    groups: Seq<LineGroup>,
    pre: Seq<(Seq<char>, usize, usize)>,
    x: usize,
)
    requires
        groups_partition(old_groups, pre),
        appended(old_groups, groups, x),
    ensures
        groups_partition(groups, pre.push((groups.last().file_path@, groups.last().hunk_index, x))),
{
    reveal(groups_partition);
    lemma_new_distinct(old_groups, groups, x);
    lemma_new_covered(old_groups, groups, pre, x);
    lemma_new_members(old_groups, groups, pre, x);
    lemma_new_keys(old_groups, groups, pre, x);
}

/// Group selected lines by (file, hunk), one patch's worth each.
pub fn group_lines(lines: &Vec<LineRef>) -> (r: Vec<LineGroup>)
    ensures
        groups_partition(r@, lines@.map_values(|l: LineRef| line_ref_view(l))),
{
    let ghost lv = lines@.map_values(|l: LineRef| line_ref_view(l));
    let mut groups: Vec<LineGroup> = Vec::new();
    let mut i: usize = 0;
    assert(obeys_key_model::<usize>());
    assert(groups_partition(groups@, lv.take(0))) by {
        reveal(groups_partition);
    }
    while i < lines.len()
        invariant
            i <= lines@.len(),
            lv == lines@.map_values(|l: LineRef| line_ref_view(l)),
            obeys_key_model::<usize>(),
            groups_partition(groups@, lv.take(i as int)),
        decreases lines@.len() - i,
    {
        let (file, hunk, line) = (&lines[i].0, lines[i].1, lines[i].2);
        let ghost pre = lv.take(i as int);
        let ghost cur = lv.take(i + 1);
        assert(cur =~= pre.push((file@, hunk, line)));
        let found = find_group(&groups, file.as_str(), hunk);
        let ghost old_groups = groups@;
        if let Some(g) = found {
            // Existing group: add the line to it.
            let mut grp = groups.remove(g);
            let ghost removed = groups@;
            grp.lines.insert(line);
            groups.insert(g, grp);
            proof {
                assert(removed =~= old_groups.remove(g as int));
                assert forall|a: int| 0 <= a < groups@.len() && a != g implies groups@[a] == old_groups[a] by {
                    if a < g {
                        assert(groups@[a] == removed[a]);
                    } else {
                        assert(groups@[a] == removed[a - 1]);
                    }
                }
                assert(added_to(old_groups, groups@, g as int, line));
                lemma_partition_add(old_groups, groups@, g as int, pre, line);
            }
        } else {
            let mut set: HashSet<usize> = HashSet::new();
            set.insert(line);
            groups.push(LineGroup { file_path: file.clone(), hunk_index: hunk, lines: set });
            proof {
                assert(appended(old_groups, groups@, line));
                lemma_partition_new(old_groups, groups@, pre, line);
            }
        }
        i += 1;
    }
    assert(lv.take(lines@.len() as int) =~= lv);
    groups
}

/// Whether `s` is among `v`.
fn contains_string(v: &Vec<String>, s: &str) -> (r: bool)
    ensures
        r == exists|a: int| 0 <= a < v@.len() && (#[trigger] v@[a])@ == s@,
{
    let mut j: usize = 0;
    while j < v.len()
        invariant
            j <= v@.len(),
            forall|a: int| 0 <= a < j ==> (#[trigger] v@[a])@ != s@,
        decreases v@.len() - j,
    {
        if str_eq(v[j].as_str(), s) {
            return true;
        }
        j += 1;
    }
    false
}

/// `s` without repeats, each kept where it first occurs.
pub open spec fn dedup(s: Seq<Seq<char>>) -> Seq<Seq<char>>
    decreases s.len(),
{
    if s.len() == 0 {
        seq![]
    } else {
        let prev = dedup(s.drop_last());
        if prev.contains(s.last()) {
            prev
        } else {
            prev.push(s.last())
        }
    }
}

/// The files of the groups, each once, in order of first appearance.
pub fn group_files(groups: &Vec<LineGroup>) -> (r: Vec<String>)
    ensures
        strings_view(r@) == dedup(groups@.map_values(|g: LineGroup| g.file_path@)),
{
    let ghost fv = groups@.map_values(|g: LineGroup| g.file_path@);
    let mut files: Vec<String> = Vec::new();
    let mut i: usize = 0;
    assert(fv.take(0) =~= Seq::<Seq<char>>::empty());
    assert(strings_view(files@) =~= dedup(fv.take(0)));
    while i < groups.len()
        invariant
            i <= groups@.len(),
            fv == groups@.map_values(|g: LineGroup| g.file_path@),
            strings_view(files@) == dedup(fv.take(i as int)),
        decreases groups@.len() - i,
    {
        let file = &groups[i].file_path;
        let seen = contains_string(&files, file.as_str());
        let ghost before = files@;
        proof {
            let t = fv.take(i + 1);
            assert(t.drop_last() =~= fv.take(i as int));
            assert(t.last() == file@);
            if seen {
                let a = choose|a: int| 0 <= a < before.len() && (#[trigger] before[a])@ == file@;
                assert(strings_view(before)[a] == file@);
            } else {
                assert(!strings_view(before).contains(file@)) by {
                    if strings_view(before).contains(file@) {
                        let a = choose|a: int| 0 <= a < strings_view(before).len() && strings_view(before)[a] == file@;
                        assert(before[a]@ == file@);
                    }
                }
            }
        }
        if !seen {
            files.push(file.clone());
            assert(strings_view(files@) =~= strings_view(before).push(file@));
        }
        i += 1;
    }
    assert(fv.take(groups@.len() as int) =~= fv);
    files
}

/// The cached diff of `op`'s source section for `file_path`.
pub open spec fn source_diff(cache: Map<(Section, Seq<char>), Seq<char>>, op: PatchOp, file_path: Seq<char>) -> Option<Seq<char>> {
    if cache.contains_key((op.spec_source(), file_path)) {
        Some(cache[(op.spec_source(), file_path)])
    } else {
        None
    }
}

/// The text of an optional string.
pub open spec fn opt_view(s: Option<String>) -> Option<Seq<char>> {
    match s {
        Some(t) => Some(t@),
        None => None,
    }
}

/// The (section, path) of the file item at `c`, if `c` holds one.
pub open spec fn file_at(items: Seq<StatusItem>, c: int) -> Option<(Section, Seq<char>)> {
    if 0 <= c < items.len() {
        match items[c]@ {
            ItemView::File { entry, section, .. } => Some((section, entry.0)),
            _ => None,
        }
    } else {
        None
    }
}

impl App {
    /// Inclusive (start, end) of the visual selection, if active.
    pub fn visual_range(&self) -> (r: Option<(usize, usize)>)
        ensures
            r == (match self.visual_anchor {
                Some(a) => Some(if a <= self.cursor { (a, self.cursor) } else { (self.cursor, a) }),
                None => None,
            }),
    {
        match self.visual_anchor {
            Some(anchor) => Some(if anchor <= self.cursor { (anchor, self.cursor) } else { (self.cursor, anchor) }),
            None => None,
        }
    }

    /// Leave visual mode, returning the change lines of `op`'s source section
    /// in the selection; `None` when visual mode was not active.
    pub fn take_visual_lines(&mut self, op: PatchOp) -> (r: Option<Vec<LineRef>>)
        ensures
            final(self).visual_anchor is None,
            *final(self) == (App { visual_anchor: None, ..*old(self) }),
            match old(self).visual_anchor {
                None => r is None,
                Some(a) => {
                    let (start, end) = if a <= old(self).cursor { (a, old(self).cursor) } else { (old(self).cursor, a) };
                    let hi = if end + 1 < old(self).items@.len() { end + 1 } else { old(self).items@.len() as int };
                    r matches Some(lines) && lines@.map_values(|l: LineRef| line_ref_view(l))
                        == selection_lines(items_view(old(self).items@), start as int, hi, op.spec_source())
                },
            },
    {
        let (start, end) = match self.visual_range() {
            Some(r) => r,
            None => return None,
        };
        self.visual_anchor = None;
        let n = self.items.len();
        let hi = if end < n - 0 && end + 1 < n { end + 1 } else { n };
        let source = op.source();
        let ghost v = items_view(self.items@);
        let mut out: Vec<LineRef> = Vec::new();
        let mut i = start;
        proof {
            assert(out@.map_values(|l: LineRef| line_ref_view(l)) =~= selection_lines(v, start as int, start as int, source));
        }
        if start < hi {
            while i < hi
                invariant
                    start <= i <= hi <= self.items@.len(),
                    v == items_view(self.items@),
                    out@.map_values(|l: LineRef| line_ref_view(l)) == selection_lines(v, start as int, i as int, source),
                decreases hi - i,
            {
                let ghost before = out@;
                assert(v[i as int] == self.items@[i as int]@);
                match &self.items[i] {
                    StatusItem::DiffLine { line, file_path, section, hunk_index, line_in_hunk } => {
                        if *section == source && is_change(line.as_str()) {
                            out.push((file_path.clone(), *hunk_index, *line_in_hunk));
                            assert(out@.map_values(|l: LineRef| line_ref_view(l)) =~= before.map_values(|l: LineRef| line_ref_view(l)).push((file_path@, *hunk_index, *line_in_hunk)));
                        }
                    },
                    _ => {},
                }
                i += 1;
            }
        } else {
            proof {
                assert(selection_lines(v, start as int, hi as int, source) =~= Seq::<(Seq<char>, usize, usize)>::empty());
            }
        }
        Some(out)
    }

    /// One hunk of the cached diff of `op`'s source section, as a patch.
    pub fn hunk_patch_for(&self, op: PatchOp, file_path: &str, hunk_index: usize) -> (r: Option<String>)
        ensures
            opt_view(r) == (match source_diff(self.diff_cache.view(), op, file_path@) {
                Some(d) => spec_hunk_patch(d, hunk_index as int),
                None => None,
            }),
    {
        match self.diff_cache.get(op.source(), file_path) {
            Some(diff) => hunk_patch(diff.as_str(), hunk_index),
            None => None,
        }
    }

    /// The patch for one group of selected lines, cut from the cached diff of
    /// `op`'s source section.
    pub fn group_patch(&self, op: PatchOp, group: &LineGroup) -> (r: Option<String>)
        ensures
            opt_view(r) == (match source_diff(self.diff_cache.view(), op, group.file_path@) {
                Some(d) => spec_lines_patch(d, group.hunk_index as int, group.lines@, !(op == PatchOp::Stage)),
                None => None,
            }),
    {
        match self.diff_cache.get(op.source(), group.file_path.as_str()) {
            Some(diff) => lines_patch(diff.as_str(), group.hunk_index, &group.lines, op.reverse()),
            None => None,
        }
    }

    /// First step of refreshing after a patch: drop both cached diffs of each path.
    pub fn forget_diffs(&mut self, paths: &Vec<String>)
        ensures
            forall|k: (Section, Seq<char>)| #[trigger] final(self).diff_cache.view().contains_key(k) <==> (old(self).diff_cache.view().contains_key(k)
                && !((k.0 == Section::Staged || k.0 == Section::Unstaged) && exists|i: int| 0 <= i < paths@.len() && paths@[i]@ == k.1)),
            forall|k: (Section, Seq<char>)| #[trigger] final(self).diff_cache.view().contains_key(k) ==> final(self).diff_cache.view()[k] == old(self).diff_cache.view()[k],
            *final(self) == (App { diff_cache: final(self).diff_cache, ..*old(self) }),
    {
        let mut i: usize = 0;
        while i < paths.len()
            invariant
                i <= paths@.len(),
                forall|k: (Section, Seq<char>)| #[trigger] self.diff_cache.view().contains_key(k) <==> (old(self).diff_cache.view().contains_key(k)
                    && !((k.0 == Section::Staged || k.0 == Section::Unstaged) && exists|j: int| 0 <= j < i && paths@[j]@ == k.1)),
                forall|k: (Section, Seq<char>)| #[trigger] self.diff_cache.view().contains_key(k) ==> self.diff_cache.view()[k] == old(self).diff_cache.view()[k],
                *self == (App { diff_cache: self.diff_cache, ..*old(self) }),
            decreases paths@.len() - i,
        {
            self.diff_cache.remove(Section::Staged, paths[i].as_str());
            self.diff_cache.remove(Section::Unstaged, paths[i].as_str());
            proof {
                assert forall|k: (Section, Seq<char>)| #[trigger] self.diff_cache.view().contains_key(k) <==> (old(self).diff_cache.view().contains_key(k)
                    && !((k.0 == Section::Staged || k.0 == Section::Unstaged) && exists|j: int| 0 <= j < i + 1 && paths@[j]@ == k.1)) by {
                    if (k.0 == Section::Staged || k.0 == Section::Unstaged) && k.1 == paths@[i as int]@ {
                        assert(0 <= i < i + 1 && paths@[i as int]@ == k.1);
                    }
                    if (k.0 == Section::Staged || k.0 == Section::Unstaged) && exists|j: int| 0 <= j < i + 1 && paths@[j]@ == k.1 {
                        let j = choose|j: int| 0 <= j < i + 1 && paths@[j]@ == k.1;
                        if j < i {
                            assert(0 <= j < i && paths@[j]@ == k.1);
                        }
                    }
                }
            }
            i += 1;
        }
    }

    /// Second step of refreshing after a patch, once the new status is in:
    /// a file gone from `section` is collapsed there; otherwise its diff must
    /// be fetched again when `section` received the change or the file was
    /// expanded there. Returns whether to fetch.
    pub fn needs_diff(&mut self, section: Section, path: &str, destination: Section) -> (r: bool)
        ensures
            ({
                let listed = exists|i: int| 0 <= i < spec_section_entries(old(self).status, section).len()
                    && (#[trigger] spec_section_entries(old(self).status, section)[i]).path@ == path@;
                &&& r == (listed && (section == destination || old(self).expanded.view().contains((section, path@))))
                &&& final(self).expanded.view() == if listed { old(self).expanded.view() } else { old(self).expanded.view().remove((section, path@)) }
            }),
            *final(self) == (App { expanded: final(self).expanded, ..*old(self) }),
    {
        let entries = self.section_entries(section);
        let mut i: usize = 0;
        let mut listed = false;
        while i < entries.len()
            invariant
                i <= entries@.len(),
                listed == exists|j: int| 0 <= j < i && (#[trigger] entries@[j]).path@ == path@,
            decreases entries@.len() - i,
        {
            if str_eq(entries[i].path.as_str(), path) {
                listed = true;
            }
            i += 1;
        }
        if !listed {
            self.expanded.remove(section, path);
            return false;
        }
        section == destination || self.expanded.contains(section, path)
    }

    /// Third step: keep a freshly fetched diff (when fetching worked) and show it.
    pub fn store_diff(&mut self, section: Section, path: &str, diff: Option<String>)
        ensures
            final(self).diff_cache.view() == (match diff {
                Some(d) => old(self).diff_cache.view().insert((section, path@), d@),
                None => old(self).diff_cache.view(),
            }),
            final(self).expanded.view() == old(self).expanded.view().insert((section, path@)),
            *final(self) == (App { diff_cache: final(self).diff_cache, expanded: final(self).expanded, ..*old(self) }),
    {
        if let Some(d) = diff {
            self.diff_cache.insert(section, path, d);
        }
        self.expanded.insert(section, path);
    }

    /// Last step of a refresh: rebuild the items and put the cursor back on one.
    pub fn finish_refresh(&mut self)
        ensures
            items_view(final(self).items@) == old(self).expected_items(),
            final(self).items@.len() == 0 ==> final(self).cursor == 0,
            final(self).items@.len() > 0 ==> final(self).cursor < final(self).items@.len(),
            final(self).cursor > 0 ==> !(final(self).items@[final(self).cursor as int]@ is Spacer),
            *final(self) == (App { items: final(self).items, cursor: final(self).cursor, ..*old(self) }),
    {
        self.rebuild_items();
        self.clamp_cursor();
    }

    /// Show or hide the diff of the file under the cursor. Untracked files
    /// have no diff against the index, so they don't expand. Returns the
    /// file whose diff must be fetched first (see `finish_expand`).
    pub fn toggle_expand_at_cursor(&mut self) -> (r: Option<FileKey>)
        ensures
            match file_at(old(self).items@, old(self).cursor as int) {
                None => r is None && *final(self) == *old(self),
                Some(key) => if key.0 == Section::Untracked {
                    r is None && *final(self) == *old(self)
                } else if old(self).expanded.view().contains(key) {
                    r is None && final(self).expanded.view() == old(self).expanded.view().remove(key)
                        && items_view(final(self).items@) == final(self).expected_items()
                        && *final(self) == (App { expanded: final(self).expanded, items: final(self).items, ..*old(self) })
                } else if old(self).diff_cache.view().contains_key(key) {
                    r is None && final(self).expanded.view() == old(self).expanded.view().insert(key)
                        && items_view(final(self).items@) == final(self).expected_items()
                        && *final(self) == (App { expanded: final(self).expanded, items: final(self).items, ..*old(self) })
                } else {
                    r matches Some(k) && key_view(k) == key && *final(self) == *old(self)
                },
            },
    {
        if self.cursor >= self.items.len() {
            return None;
        }
        let (section, path) = match &self.items[self.cursor] {
            StatusItem::File { entry, section, .. } => (*section, entry.path.clone()),
            _ => return None,
        };
        if section == Section::Untracked {
            return None;
        }
        if self.expanded.contains(section, path.as_str()) {
            self.expanded.remove(section, path.as_str());
            self.rebuild_items();
            return None;
        }
        if !self.diff_cache.contains_key(section, path.as_str()) {
            return Some((section, path));
        }
        self.expanded.insert(section, path.as_str());
        self.rebuild_items();
        None
    }

    /// Finish expanding a file once its diff was fetched: show it, or report
    /// why it could not be read.
    pub fn finish_expand(&mut self, key: FileKey, diff: Result<String, String>)
        ensures
            match diff {
                Ok(d) => final(self).diff_cache.view() == old(self).diff_cache.view().insert(key_view(key), d@)
                    && final(self).expanded.view() == old(self).expanded.view().insert(key_view(key))
                    && items_view(final(self).items@) == final(self).expected_items()
                    && *final(self) == (App { diff_cache: final(self).diff_cache, expanded: final(self).expanded, items: final(self).items, ..*old(self) }),
                Err(e) => final(self).status_msg matches Some(m) && m@ == "Diff error: "@ + e@
                    && *final(self) == (App { status_msg: final(self).status_msg, ..*old(self) }),
            },
    {
        let (section, path) = key;
        match diff {
            Ok(d) => {
                self.diff_cache.insert(section, path.as_str(), d);
                self.expanded.insert(section, path.as_str());
                self.rebuild_items();
            },
            Err(e) => {
                self.status_msg = Some(String::from_str("Diff error: ").concat(e.as_str()));
            },
        }
    }
}

/// `"{verb} hunk {n}"`, numbering hunks from 1.
pub fn hunk_message(op: PatchOp, hunk_index: usize) -> (r: String)
    requires
        hunk_index < usize::MAX,
    ensures
        r@ == op.spec_verb() + " hunk "@ + decimal((hunk_index + 1) as nat),
{
    let n = decimal_string(hunk_index + 1);
    String::from_str(op.verb()).concat(" hunk ").concat(n.as_str())
}

/// `"{verb} {n} line(s)"`.
pub fn lines_message(op: PatchOp, applied: usize) -> (r: String)
    ensures
        r@ == op.spec_verb() + " "@ + decimal(applied as nat) + " line(s)"@,
{
    let n = decimal_string(applied);
    String::from_str(op.verb()).concat(" ").concat(n.as_str()).concat(" line(s)")
}

} // verus!
