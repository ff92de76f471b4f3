//! What the screen shows, as text: each line a run of segments, each with
//! the tone it is drawn in. The program turns tones into colours and draws
//! the lines.

use vstd::prelude::*;

use crate::app::{BranchNameInputState, BranchNameMode, Section, StatusItem};
use crate::backend::{BranchInfo, CommitInfo, FileKind, FileKindView, RepoStatus, StashInfo};
use crate::diff::{decimal, decimal_string};
use crate::text::{chars_of, starts_with_char};

verus! {

/// How a file kind's mark is coloured.
#[derive(Debug, Clone, Copy, PartialEq, Eq, Structural)]
pub enum Mark {
    /// New content (added or untracked).
    New,
    Changed,
    Moved,
    Gone,
    Conflict,
}

/// How a segment is drawn.
#[derive(Debug, Clone, Copy, PartialEq, Eq, Structural)]
pub enum Tone {
    Plain,
    /// Greyed out.
    Dim,
    /// A section heading.
    Heading(Section),
    /// A file's kind mark.
    Kind(Mark),
    /// A hunk header, and `@` lines of a diff.
    Hunk,
    /// An added diff line.
    Added,
    /// A removed diff line.
    Removed,
    /// The unpushed and stash headings.
    Accent,
    /// A stash's name.
    StashName,
    /// The recent commits heading.
    Recent,
    /// A commit hash in the status buffer.
    Hash,
    /// The backend's name in the header.
    Backend,
    /// The branch and commit in the header.
    Head,
    /// The footer's message.
    Message,
    /// A key in the footer's key list.
    Key,
    /// A commit hash in the log.
    LogHash,
    /// An author in the log.
    Author,
    /// The entry under a popup's cursor.
    Selected,
    /// A commit hash in the commit picker, under the cursor.
    SelectedHash,
    /// The current-branch marker, and the current branch's name.
    Current,
    /// Lines of a commit's header in the preview.
    Header,
}

/// A run of text drawn in one tone.
pub struct Segment {
    pub text: String,
    pub tone: Tone,
}

pub open spec fn segs(v: Seq<Segment>) -> Seq<(Seq<char>, Tone)> {
    v.map_values(|s: Segment| (s.text@, s.tone))
}

fn seg(text: String, tone: Tone) -> (r: Segment)
    ensures
        r.text == text,
        r.tone == tone,
{
    Segment { text, tone }
}

fn lit(text: &str, tone: Tone) -> (r: Segment)
    ensures
        r.text@ == text@,
        r.tone == tone,
{
    Segment { text: String::from_str(text), tone }
}

/// The one-letter mark of a file kind.
pub open spec fn spec_kind_prefix(kind: FileKindView) -> Seq<char> {
    match kind {
        FileKindView::Modified => "M"@,
        FileKindView::Added => "A"@,
        FileKindView::Deleted => "D"@,
        FileKindView::Renamed(_) => "R"@,
        FileKindView::Untracked => "?"@,
        FileKindView::Conflicted => "!"@,
    }
}

/// `spec_kind_prefix`, computed.
pub fn kind_prefix(kind: &FileKind) -> (r: &'static str)
    ensures
        r@ == spec_kind_prefix(kind@),
{
    match kind {
        FileKind::Modified => "M",
        FileKind::Added => "A",
        FileKind::Deleted => "D",
        FileKind::Renamed(_) => "R",
        FileKind::Untracked => "?",
        FileKind::Conflicted => "!",
    }
}

/// How a file kind's mark is coloured.
pub open spec fn spec_kind_mark(kind: FileKindView) -> Mark {
    match kind {
        FileKindView::Added | FileKindView::Untracked => Mark::New,
        FileKindView::Modified => Mark::Changed,
        FileKindView::Renamed(_) => Mark::Moved,
        FileKindView::Deleted => Mark::Gone,
        FileKindView::Conflicted => Mark::Conflict,
    }
}

fn kind_mark(kind: &FileKind) -> (r: Mark)
    ensures
        r == spec_kind_mark(kind@),
{
    match kind {
        FileKind::Added | FileKind::Untracked => Mark::New,
        FileKind::Modified => Mark::Changed,
        FileKind::Renamed(_) => Mark::Moved,
        FileKind::Deleted => Mark::Gone,
        FileKind::Conflicted => Mark::Conflict,
    }
}

/// The tone of a diff line in the status buffer.
pub open spec fn spec_diff_tone(line: Seq<char>) -> Tone {
    if starts_with_char(line, '+') {
        Tone::Added
    } else if starts_with_char(line, '-') {
        Tone::Removed
    } else if starts_with_char(line, '@') {
        Tone::Hunk
    } else {
        Tone::Dim
    }
}

fn first_char_is(s: &str, c: char) -> (r: bool)
    ensures
        r == starts_with_char(s@, c),
{
    let v = chars_of(s);
    v.len() > 0 && v[0] == c
}

fn diff_tone(line: &str) -> (r: Tone)
    ensures
        r == spec_diff_tone(line@),
{
    if first_char_is(line, '+') {
        Tone::Added
    } else if first_char_is(line, '-') {
        Tone::Removed
    } else if first_char_is(line, '@') {
        Tone::Hunk
    } else {
        Tone::Dim
    }
}

/// How the status buffer draws an item.
pub open spec fn item_segments(item: crate::app::ItemView) -> Seq<(Seq<char>, Tone)> {
    match item {
        crate::app::ItemView::Header { label, count, section } => seq![
            (label + " ("@ + decimal(count as nat) + ")"@, Tone::Heading(section)),
        ],
        crate::app::ItemView::File { entry, is_expanded, .. } => seq![
            ("  "@, Tone::Plain),
            (spec_kind_prefix(entry.1) + " "@, Tone::Kind(spec_kind_mark(entry.1))),
            (entry.0, Tone::Plain),
            (if is_expanded { seq![] } else { "…"@ }, Tone::Dim),
        ],
        crate::app::ItemView::HunkHeader { line, .. } => seq![("    "@ + line, Tone::Hunk)],
        crate::app::ItemView::DiffLine { line, .. } => seq![("    "@ + line, spec_diff_tone(line))],
        crate::app::ItemView::UnpushedHeader { count, upstream } => seq![
            (" "@, Tone::Plain),
            ("Unpushed to "@ + upstream + " ("@ + decimal(count as nat) + ")"@, Tone::Accent),
        ],
        crate::app::ItemView::RecentHeader => seq![(" "@, Tone::Plain), ("Recent commits"@, Tone::Recent)],
        crate::app::ItemView::StashHeader { count } => seq![
            (" "@, Tone::Plain),
            ("Stashes ("@ + decimal(count as nat) + ")"@, Tone::Accent),
        ],
        crate::app::ItemView::StashEntry { info } => seq![
            ("  "@, Tone::Plain),
            ("stash@{"@ + decimal(info.0 as nat) + "} "@, Tone::StashName),
            (info.1, Tone::Plain),
        ],
        crate::app::ItemView::Spacer => seq![],
        crate::app::ItemView::RecentCommit { info } => seq![
            ("  "@, Tone::Plain),
            (info.0 + " "@, Tone::Hash),
            (info.1, Tone::Plain),
        ],
    }
}

/// How the status buffer draws `item` (see `item_segments`).
pub fn status_item_segments(item: &StatusItem) -> (r: Vec<Segment>)
    ensures
        segs(r@) == item_segments(item@),
{
    let mut v: Vec<Segment> = Vec::new();
    match item {
        StatusItem::Header { label, count, section } => {
            let t = String::from_str(label).concat(" (").concat(decimal_string(*count).as_str()).concat(")");
            v.push(seg(t, Tone::Heading(*section)));
            assert(segs(v@) =~= item_segments(item@));
        },
        StatusItem::File { entry, is_expanded, .. } => {
            v.push(lit("  ", Tone::Plain));
            v.push(seg(String::from_str(kind_prefix(&entry.kind)).concat(" "), Tone::Kind(kind_mark(&entry.kind))));
            v.push(seg(entry.path.clone(), Tone::Plain));
            let tail = if *is_expanded { String::new() } else { String::from_str("…") };
            v.push(seg(tail, Tone::Dim));
            assert(segs(v@) =~= item_segments(item@));
        },
        StatusItem::HunkHeader { line, .. } => {
            v.push(seg(String::from_str("    ").concat(line.as_str()), Tone::Hunk));
            assert(segs(v@) =~= item_segments(item@));
        },
        StatusItem::DiffLine { line, .. } => {
            v.push(seg(String::from_str("    ").concat(line.as_str()), diff_tone(line.as_str())));
            assert(segs(v@) =~= item_segments(item@));
        },
        StatusItem::UnpushedHeader { count, upstream } => {
            v.push(lit(" ", Tone::Plain));
            let t = String::from_str("Unpushed to ").concat(upstream.as_str()).concat(" (").concat(
                decimal_string(*count).as_str(),
            ).concat(")");
            v.push(seg(t, Tone::Accent));
            assert(segs(v@) =~= item_segments(item@));
        },
        StatusItem::RecentHeader => {
            v.push(lit(" ", Tone::Plain));
            v.push(lit("Recent commits", Tone::Recent));
            assert(segs(v@) =~= item_segments(item@));
        },
        StatusItem::StashHeader { count } => {
            v.push(lit(" ", Tone::Plain));
            let t = String::from_str("Stashes (").concat(decimal_string(*count).as_str()).concat(")");
            v.push(seg(t, Tone::Accent));
            assert(segs(v@) =~= item_segments(item@));
        },
        StatusItem::StashEntry { info } => {
            v.push(lit("  ", Tone::Plain));
            let t = String::from_str("stash@{").concat(decimal_string(info.index).as_str()).concat("} ");
            v.push(seg(t, Tone::StashName));
            v.push(seg(info.summary.clone(), Tone::Plain));
            assert(segs(v@) =~= item_segments(item@));
        },
        StatusItem::Spacer => {
            assert(segs(v@) =~= item_segments(item@));
        },
        StatusItem::RecentCommit { info } => {
            v.push(lit("  ", Tone::Plain));
            v.push(seg(info.short_hash.clone().concat(" "), Tone::Hash));
            v.push(seg(info.summary.clone(), Tone::Plain));
            assert(segs(v@) =~= item_segments(item@));
        },
    }
    v
}

/// Whether row `i` is drawn as part of the visual selection `range`
/// (inclusive): the cursor's own row is drawn as the cursor instead.
pub fn in_visual(i: usize, cursor: usize, range: Option<(usize, usize)>) -> (r: bool)
    ensures
        r == (match range {
            Some((s, e)) => s <= i && i <= e && i != cursor,
            None => false,
        }),
{
    match range {
        Some((s, e)) => s <= i && i <= e && i != cursor,
        None => false,
    }
}

/// The header line: the backend's name, then HEAD's branch, short hash and
/// summary (or that there are no commits yet).
pub open spec fn header_segments(kind_name: Seq<char>, status: RepoStatus) -> Seq<(Seq<char>, Tone)> {
    let first = seq![(" "@ + kind_name + " "@, Tone::Backend)];
    match status.head {
        Some(branch) => {
            let (head, summary) = match (status.head_short_hash, status.head_summary) {
                (Some(hash), Some(summary)) => ("head: "@ + branch@ + " · "@ + hash@ + " "@, summary@),
                _ => ("head: "@ + branch@ + " "@, seq![]),
            };
            first + seq![("│ "@, Tone::Plain), (head, Tone::Head), (summary, Tone::Plain)]
        },
        None => first + seq![("│ (no commits yet)"@, Tone::Plain)],
    }
}

/// The header line (see `header_segments`).
pub fn header_line(kind_name: &str, status: &RepoStatus) -> (r: Vec<Segment>)
    ensures
        segs(r@) == header_segments(kind_name@, *status),
{
    let mut v: Vec<Segment> = Vec::new();
    v.push(seg(String::from_str(" ").concat(kind_name).concat(" "), Tone::Backend));
    match &status.head {
        Some(branch) => {
            let (head, summary) = match (&status.head_short_hash, &status.head_summary) {
                (Some(hash), Some(summary)) => (
                    String::from_str("head: ").concat(branch.as_str()).concat(" · ").concat(hash.as_str()).concat(" "),
                    summary.clone(),
                ),
                _ => (String::from_str("head: ").concat(branch.as_str()).concat(" "), String::new()),
            };
            v.push(lit("│ ", Tone::Plain));
            v.push(seg(head, Tone::Head));
            v.push(seg(summary, Tone::Plain));
        },
        None => {
            v.push(lit("│ (no commits yet)", Tone::Plain));
        },
    }
    assert(segs(v@) =~= header_segments(kind_name@, *status));
    v
}

/// The footer's list of keys, each followed by the rest of its word.
pub open spec fn key_list() -> Seq<(Seq<char>, Tone)> {
    seq![
        (" "@, Tone::Plain),
        ("[s/S]"@, Tone::Key),
        ("tage"@, Tone::Plain),
        ("  "@, Tone::Plain),
        ("[u/U]"@, Tone::Key),
        ("nstage"@, Tone::Plain),
        ("  "@, Tone::Plain),
        ("[x]"@, Tone::Key),
        ("discard"@, Tone::Plain),
        ("  "@, Tone::Plain),
        ("[Tab]"@, Tone::Key),
        ("expand"@, Tone::Plain),
        ("  "@, Tone::Plain),
        ("[c]"@, Tone::Key),
        ("ommit"@, Tone::Plain),
        ("  "@, Tone::Plain),
        ("[z]"@, Tone::Key),
        ("stash"@, Tone::Plain),
        ("  "@, Tone::Plain),
        ("[p]"@, Tone::Key),
        ("ush"@, Tone::Plain),
        ("  "@, Tone::Plain),
        ("[F]"@, Tone::Key),
        ("pull"@, Tone::Plain),
        ("  "@, Tone::Plain),
        ("[b]"@, Tone::Key),
        ("ranch"@, Tone::Plain),
        ("  "@, Tone::Plain),
        ("[l]"@, Tone::Key),
        ("og"@, Tone::Plain),
        ("  "@, Tone::Plain),
        ("[g]"@, Tone::Key),
        ("refresh"@, Tone::Plain),
        ("  "@, Tone::Plain),
        ("[?]"@, Tone::Key),
        ("help"@, Tone::Plain),
        ("  "@, Tone::Plain),
        ("[q]"@, Tone::Key),
        ("uit"@, Tone::Plain),
    ]
}

/// The footer: the message when there is one, else the key list.
pub open spec fn footer_segments(msg: Option<Seq<char>>) -> Seq<(Seq<char>, Tone)> {
    match msg {
        Some(m) => seq![(" "@, Tone::Plain), (m, Tone::Message)],
        None => key_list(),
    }
}

/// The footer (see `footer_segments`).
#[verifier::rlimit(60)]
pub fn footer_line(status_msg: &Option<String>) -> (r: Vec<Segment>)
    ensures
        segs(r@) == footer_segments(
            match status_msg {
                Some(m) => Some(m@),
                None => None,
            },
        ),
{
    let mut v: Vec<Segment> = Vec::new();
    match status_msg {
        Some(m) => {
            v.push(lit(" ", Tone::Plain));
            v.push(seg(m.clone(), Tone::Message));
            assert(segs(v@) =~= seq![(" "@, Tone::Plain), (m@, Tone::Message)]);
        },
        None => {
            v.push(lit(" ", Tone::Plain));
            v.push(lit("[s/S]", Tone::Key));
            v.push(lit("tage", Tone::Plain));
            v.push(lit("  ", Tone::Plain));
            v.push(lit("[u/U]", Tone::Key));
            v.push(lit("nstage", Tone::Plain));
            v.push(lit("  ", Tone::Plain));
            v.push(lit("[x]", Tone::Key));
            v.push(lit("discard", Tone::Plain));
            v.push(lit("  ", Tone::Plain));
            v.push(lit("[Tab]", Tone::Key));
            v.push(lit("expand", Tone::Plain));
            v.push(lit("  ", Tone::Plain));
            v.push(lit("[c]", Tone::Key));
            v.push(lit("ommit", Tone::Plain));
            v.push(lit("  ", Tone::Plain));
            v.push(lit("[z]", Tone::Key));
            v.push(lit("stash", Tone::Plain));
            v.push(lit("  ", Tone::Plain));
            v.push(lit("[p]", Tone::Key));
            v.push(lit("ush", Tone::Plain));
            v.push(lit("  ", Tone::Plain));
            v.push(lit("[F]", Tone::Key));
            v.push(lit("pull", Tone::Plain));
            v.push(lit("  ", Tone::Plain));
            v.push(lit("[b]", Tone::Key));
            v.push(lit("ranch", Tone::Plain));
            v.push(lit("  ", Tone::Plain));
            v.push(lit("[l]", Tone::Key));
            v.push(lit("og", Tone::Plain));
            v.push(lit("  ", Tone::Plain));
            v.push(lit("[g]", Tone::Key));
            v.push(lit("refresh", Tone::Plain));
            v.push(lit("  ", Tone::Plain));
            v.push(lit("[?]", Tone::Key));
            v.push(lit("help", Tone::Plain));
            v.push(lit("  ", Tone::Plain));
            v.push(lit("[q]", Tone::Key));
            v.push(lit("uit", Tone::Plain));
            assert(segs(v@) =~= key_list());
        },
    }
    v
}

/// The log's title while a non-empty filter is on.
pub open spec fn log_title_text(query: Seq<char>, count: usize) -> Seq<char> {
    " /"@ + query + " ("@ + decimal(count as nat) + " match"@ + (if count == 1 {
        seq![]
    } else {
        "es"@
    }) + ") — Esc to clear "@
}

/// The log's title: the filter and its number of matches while a
/// non-empty filter is on, else none.
pub fn log_title(filter: &Option<String>, count: usize) -> (r: Option<String>)
    ensures
        match filter {
            Some(q) => if q@.len() > 0 {
                r matches Some(t) && t@ == log_title_text(q@, count)
            } else {
                r is None
            },
            None => r is None,
        },
{
    match filter {
        Some(q) => {
            if q.as_str().is_empty() {
                return None;
            }
            let plural = if count == 1 { "" } else { "es" };
            proof {
                reveal_strlit("");
            }
            Some(
                String::from_str(" /").concat(q.as_str()).concat(" (").concat(decimal_string(count).as_str()).concat(
                    " match",
                ).concat(plural).concat(") — Esc to clear "),
            )
        },
        None => None,
    }
}

/// How the log draws a commit: hash, author, summary.
pub fn log_row(commit: &CommitInfo) -> (r: Vec<Segment>)
    ensures
        segs(r@) == seq![
            (commit.short_hash@ + " "@, Tone::LogHash),
            (commit.author@ + " "@, Tone::Author),
            (commit.summary@, Tone::Plain),
        ],
{
    let mut v: Vec<Segment> = Vec::new();
    v.push(seg(commit.short_hash.clone().concat(" "), Tone::LogHash));
    v.push(seg(commit.author.clone().concat(" "), Tone::Author));
    v.push(seg(commit.summary.clone(), Tone::Plain));
    assert(segs(v@) =~= seq![
        (commit.short_hash@ + " "@, Tone::LogHash),
        (commit.author@ + " "@, Tone::Author),
        (commit.summary@, Tone::Plain),
    ]);
    v
}

/// The mark before a popup entry: an arrow on the entry under the cursor.
pub open spec fn spec_selection_prefix(selected: bool) -> Seq<char> {
    if selected {
        "> "@
    } else {
        "  "@
    }
}

/// `spec_selection_prefix`, computed.
pub fn selection_prefix(selected: bool) -> (r: &'static str)
    ensures
        r@ == spec_selection_prefix(selected),
{
    if selected { "> " } else { "  " }
}

/// The first entry a popup list of `height` rows shows, keeping the cursor
/// on the last row once it goes past the first screen.
pub fn list_start(cursor: usize, height: usize) -> (r: usize)
    requires
        cursor < usize::MAX,
    ensures
        r == (if cursor + 1 > height { cursor + 1 - height } else { 0 }),
{
    if cursor + 1 > height { cursor + 1 - height } else { 0 }
}

/// How the commit picker draws a commit.
pub fn commit_picker_row(commit: &CommitInfo, selected: bool) -> (r: Vec<Segment>)
    ensures
        segs(r@) == seq![
            (spec_selection_prefix(selected), Tone::Plain),
            (commit.short_hash@ + " "@, if selected { Tone::SelectedHash } else { Tone::Dim }),
            (commit.summary@, if selected { Tone::Selected } else { Tone::Plain }),
        ],
{
    let mut v: Vec<Segment> = Vec::new();
    v.push(lit(selection_prefix(selected), Tone::Plain));
    v.push(seg(commit.short_hash.clone().concat(" "), if selected { Tone::SelectedHash } else { Tone::Dim }));
    v.push(seg(commit.summary.clone(), if selected { Tone::Selected } else { Tone::Plain }));
    assert(segs(v@) =~= seq![
        (spec_selection_prefix(selected), Tone::Plain),
        (commit.short_hash@ + " "@, if selected { Tone::SelectedHash } else { Tone::Dim }),
        (commit.summary@, if selected { Tone::Selected } else { Tone::Plain }),
    ]);
    v
}

/// How the stash list draws a stash.
pub fn stash_row(stash: &StashInfo, selected: bool) -> (r: Segment)
    ensures
        r.text@ == spec_selection_prefix(selected) + "stash@{"@ + decimal(stash.index as nat) + "}: "@
            + stash.summary@,
        r.tone == (if selected { Tone::Selected } else { Tone::Plain }),
{
    let t = String::from_str(selection_prefix(selected)).concat("stash@{").concat(
        decimal_string(stash.index).as_str(),
    ).concat("}: ").concat(stash.summary.as_str());
    seg(t, if selected { Tone::Selected } else { Tone::Plain })
}

/// How the branch picker draws a branch: a star on the current one.
pub fn branch_row(branch: &BranchInfo, selected: bool) -> (r: Vec<Segment>)
    ensures
        segs(r@) == seq![
            (spec_selection_prefix(selected), Tone::Plain),
            (if branch.is_current { "* "@ } else { "  "@ }, if branch.is_current { Tone::Current } else { Tone::Plain }),
            (branch.name@, if selected {
                Tone::Selected
            } else if branch.is_current {
                Tone::Current
            } else {
                Tone::Plain
            }),
        ],
{
    let mut v: Vec<Segment> = Vec::new();
    v.push(lit(selection_prefix(selected), Tone::Plain));
    if branch.is_current {
        v.push(lit("* ", Tone::Current));
    } else {
        v.push(lit("  ", Tone::Plain));
    }
    let tone = if selected {
        Tone::Selected
    } else if branch.is_current {
        Tone::Current
    } else {
        Tone::Plain
    };
    v.push(seg(branch.name.clone(), tone));
    assert(segs(v@) =~= seq![
        (spec_selection_prefix(selected), Tone::Plain),
        (if branch.is_current { "* "@ } else { "  "@ }, if branch.is_current { Tone::Current } else { Tone::Plain }),
        (branch.name@, tone),
    ]);
    v
}

/// The branch name prompt's title and text, with a `_` for the cursor.
pub fn branch_prompt(state: &BranchNameInputState) -> (r: (&'static str, String))
    ensures
        match state.mode {
            BranchNameMode::Create => r.0@ == " New branch name "@ && r.1@ == "  Branch name: "@ + state.input@
                + "_"@,
            BranchNameMode::Rename => r.0@ == " Rename branch "@ && r.1@ == "  Rename '"@ + state.original@
                + "' to: "@ + state.input@ + "_"@,
        },
{
    match state.mode {
        BranchNameMode::Create => (
            " New branch name ",
            String::from_str("  Branch name: ").concat(state.input.as_str()).concat("_"),
        ),
        BranchNameMode::Rename => (
            " Rename branch ",
            String::from_str("  Rename '").concat(state.original.as_str()).concat("' to: ").concat(
                state.input.as_str(),
            ).concat("_"),
        ),
    }
}

/// The log search prompt's text, with a `_` for the cursor.
pub fn search_prompt(input: &str) -> (r: String)
    ensures
        r@ == "  /"@ + input@ + "_"@,
{
    String::from_str("  /").concat(input).concat("_")
}

/// The tone of a line of the commit preview: added and removed lines (not
/// the file names), hunk headers, and the commit's header lines.
pub open spec fn spec_preview_tone(l: Seq<char>) -> Tone {
    if crate::diff::strip_prefix(l, "+"@) is Some && crate::diff::strip_prefix(l, "+++"@) is None {
        Tone::Added
    } else if crate::diff::strip_prefix(l, "-"@) is Some && crate::diff::strip_prefix(l, "---"@) is None {
        Tone::Removed
    } else if crate::diff::strip_prefix(l, "@@"@) is Some {
        Tone::Hunk
    } else if crate::diff::strip_prefix(l, "commit "@) is Some || crate::diff::strip_prefix(l, "Author:"@) is Some
        || crate::diff::strip_prefix(l, "Date:"@) is Some {
        Tone::Header
    } else {
        Tone::Plain
    }
}

fn starts_with(l: &Vec<char>, p: &str) -> (r: bool)
    ensures
        r == (crate::diff::strip_prefix(l@, p@) is Some),
{
    let pv = chars_of(p);
    if pv.len() > l.len() {
        return false;
    }
    let mut i: usize = 0;
    while i < pv.len()
        invariant
            pv@ == p@,
            pv@.len() <= l@.len(),
            i <= pv@.len(),
            forall|j: int| 0 <= j < i ==> l@[j] == pv@[j],
        decreases pv@.len() - i,
    {
        if l[i] != pv[i] {
            assert(l@.take(pv@.len() as int)[i as int] != pv@[i as int]);
            return false;
        }
        i += 1;
    }
    assert(l@.take(pv@.len() as int) =~= pv@);
    true
}

/// `spec_preview_tone`, computed.
pub fn preview_tone(line: &str) -> (r: Tone)
    ensures
        r == spec_preview_tone(line@),
{
    let l = chars_of(line);
    if starts_with(&l, "+") && !starts_with(&l, "+++") {
        Tone::Added
    } else if starts_with(&l, "-") && !starts_with(&l, "---") {
        Tone::Removed
    } else if starts_with(&l, "@@") {
        Tone::Hunk
    } else if starts_with(&l, "commit ") || starts_with(&l, "Author:") || starts_with(&l, "Date:") {
        Tone::Header
    } else {
        Tone::Plain
    }
}

// ---------------------------------------------------------------------------
// The editor
// ---------------------------------------------------------------------------

/// Rows for the editor's comments: none without comments, else one per
/// comment plus a blank one, at most half of `inner_height`.
pub fn comments_height(count: usize, inner_height: u16) -> (r: u16)
    ensures
        r == (if count == 0 {
            0int
        } else if count + 1 < inner_height / 2 {
            count + 1
        } else {
            (inner_height / 2) as int
        }),
{
    if count == 0 {
        return 0;
    }
    let half = inner_height / 2;
    if count < (half as usize) && count + 1 < half as usize {
        (count + 1) as u16
    } else {
        half
    }
}

/// What `unicode_width`'s `UnicodeWidthChar::width` gives for `c`: the
/// columns it takes, `None` for a control character.
pub uninterp spec fn display_width(c: char) -> Option<usize>;

/// `UnicodeWidthChar::width`. Below U+0020 and from U+007F up to U+00A0 a
/// character is a control character (`None`); the rest of ASCII takes one
/// column; from U+00A0 on every character has a width. What that width is,
/// the crate's tables decide; no clause states it.
#[verifier::external_body]
fn char_width(c: char) -> (r: Option<usize>)
    ensures
        r == display_width(c),
        (c as u32) < 0x20 || (0x7f <= (c as u32) && (c as u32) < 0xa0) ==> r is None,
        0x20 <= (c as u32) && (c as u32) < 0x7f ==> r == Some(1usize),
        0xa0 <= (c as u32) ==> r is Some,
{
    unicode_width::UnicodeWidthChar::width(c)
}

/// The columns of `s`'s first `n` characters, counting a control character
/// as none, in `u16` arithmetic that wraps.
pub open spec fn columns(s: Seq<char>, n: int) -> u16
    decreases n,
{
    if n <= 0 || s.len() == 0 {
        0
    } else {
        let k = if n <= s.len() { n } else { s.len() as int };
        let w = match display_width(s[k - 1]) {
            Some(w) => w as u16,
            None => 0u16,
        };
        ((columns(s, k - 1) + w) % 0x10000) as u16
    }
}

/// Where the terminal cursor goes over the editor's text area (at `x`, `y`,
/// `width` columns wide) for the text cursor at `row`, `col` of `lines`:
/// nowhere when the row has no line or the column falls outside the area.
pub fn editor_cursor(x: u16, y: u16, width: u16, lines: &Vec<String>, row: usize, col: usize) -> (r: Option<(u16, u16)>)
    ensures
        row >= lines@.len() ==> r is None,
        row < lines@.len() ==> ({
            let w = columns(lines@[row as int]@, col as int);
            let cx = if x + w > u16::MAX { u16::MAX as int } else { x + w };
            let cy = if y + (row as u16) > u16::MAX { u16::MAX as int } else { y + (row as u16) };
            if width > 0 && cx < x + width {
                r == Some((cx as u16, cy as u16))
            } else {
                r is None
            }
        }),
{
    if row >= lines.len() {
        return None;
    }
    let chars = chars_of(lines[row].as_str());
    let ghost s = chars@;
    let n = if col < chars.len() { col } else { chars.len() };
    let mut i: usize = 0;
    let mut w: u16 = 0;
    while i < n
        invariant
            n <= chars@.len(),
            s == chars@,
            i <= n,
            w == columns(s, i as int),
        decreases n - i,
    {
        let cw = match char_width(chars[i]) {
            Some(c) => c as u16,
            None => 0,
        };
        w = w.wrapping_add(cw);
        i += 1;
    }
    proof {
        if col as int > s.len() {
            assert(columns(s, col as int) == columns(s, s.len() as int));
        }
    }
    let cx = x.saturating_add(w);
    let cy = y.saturating_add(row as u16);
    if width > 0 && (cx as u32) < (x as u32) + (width as u32) {
        Some((cx, cy))
    } else {
        None
    }
}

/// The editor's status line.
pub fn editor_status(mode: crate::app::EditorMode, pending_colon: bool) -> (r: Vec<Segment>)
    ensures
        mode == crate::app::EditorMode::Insert ==> segs(r@) == seq![
            (" -- INSERT --  (Esc: normal mode)"@, Tone::Added),
        ],
        mode == crate::app::EditorMode::Normal && pending_colon ==> segs(r@) == seq![
            (" -- NORMAL --  (:wq_)"@, Tone::Head),
        ],
        mode == crate::app::EditorMode::Normal && !pending_colon ==> segs(r@) == seq![
            (" -- NORMAL --  "@, Tone::Head),
            ("i"@, Tone::Key),
            (": insert  "@, Tone::Plain),
            ("Enter"@, Tone::Key),
            (" / "@, Tone::Plain),
            (":wq"@, Tone::Key),
            (": save  "@, Tone::Plain),
            ("q"@, Tone::Key),
            (": abort  "@, Tone::Plain),
            ("u"@, Tone::Key),
            (": undo  "@, Tone::Plain),
            ("C-r"@, Tone::Key),
            (": redo"@, Tone::Plain),
        ],
{
    let mut v: Vec<Segment> = Vec::new();
    match mode {
        crate::app::EditorMode::Insert => {
            v.push(lit(" -- INSERT --  (Esc: normal mode)", Tone::Added));
        },
        crate::app::EditorMode::Normal => {
            if pending_colon {
                v.push(lit(" -- NORMAL --  (:wq_)", Tone::Head));
            } else {
                v.push(lit(" -- NORMAL --  ", Tone::Head));
                v.push(lit("i", Tone::Key));
                v.push(lit(": insert  ", Tone::Plain));
                v.push(lit("Enter", Tone::Key));
                v.push(lit(" / ", Tone::Plain));
                v.push(lit(":wq", Tone::Key));
                v.push(lit(": save  ", Tone::Plain));
                v.push(lit("q", Tone::Key));
                v.push(lit(": abort  ", Tone::Plain));
                v.push(lit("u", Tone::Key));
                v.push(lit(": undo  ", Tone::Plain));
                v.push(lit("C-r", Tone::Key));
                v.push(lit(": redo", Tone::Plain));
            }
        },
    }
    assert(mode == crate::app::EditorMode::Insert ==> segs(v@) =~= seq![
        (" -- INSERT --  (Esc: normal mode)"@, Tone::Added),
    ]);
    assert(mode == crate::app::EditorMode::Normal && pending_colon ==> segs(v@) =~= seq![
        (" -- NORMAL --  (:wq_)"@, Tone::Head),
    ]);
    assert(mode == crate::app::EditorMode::Normal && !pending_colon ==> segs(v@) =~= seq![
        (" -- NORMAL --  "@, Tone::Head),
        ("i"@, Tone::Key),
        (": insert  "@, Tone::Plain),
        ("Enter"@, Tone::Key),
        (" / "@, Tone::Plain),
        (":wq"@, Tone::Key),
        (": save  "@, Tone::Plain),
        ("q"@, Tone::Key),
        (": abort  "@, Tone::Plain),
        ("u"@, Tone::Key),
        (": undo  "@, Tone::Plain),
        ("C-r"@, Tone::Key),
        (": redo"@, Tone::Plain),
    ]);
    v
}

} // verus!
