//! Reading a jj repository: what `jj status` and `jj log` print, turned
//! into the program's status and commit lists. Running `jj` is the
//! program's job; this module decides what to run and reads what came back.

use vstd::prelude::*;

use crate::backend::{CommitInfo, FileEntry, FileKind, FileKindView, RepoStatus};
use crate::diff::{decimal, decimal_string, split_once};
use crate::text::{
    chars_of, find_char_in, first_index_of, line_spans, lines_of, span_text, spans_text, string_of_range,
    trim, trim_bounds,
};

verus! {

/// A jj repository, known by its root directory.
pub struct JjBackend {
    pub root: String,
}

/// The separator between the fields of a `jj log` line.
pub const FIELD_SEP: char = '\x1f';

/// The message when no `.jj` directory holds `path`.
pub open spec fn no_root_message(path: Seq<char>) -> Seq<char> {
    "No .jj directory found from "@ + path
}

impl JjBackend {
    /// The backend for the repository whose root was found above `path`
    /// (`found_root`); an error naming `path` when none was found.
    pub fn new(found_root: Option<String>, path: &str) -> (r: Result<JjBackend, String>)
        ensures
            match found_root {
                Some(root) => r matches Ok(b) && b.root@ == root@,
                None => r matches Err(e) && e@ == no_root_message(path@),
            },
    {
        match found_root {
            Some(root) => Ok(JjBackend { root }),
            None => Err(String::from_str("No .jj directory found from ").concat(path)),
        }
    }

    /// The repository root.
    pub fn repo_root(&self) -> (r: &str)
        ensures
            r@ == self.root@,
    {
        self.root.as_str()
    }

    /// The tool's name, shown in the header.
    pub fn kind_name(&self) -> (r: &'static str)
        ensures
            r@ == "jj"@,
    {
        "jj"
    }
}

/// What one line of `jj status` says: whether the file counts as staged,
/// its kind and its path. `M` and `D` are unstaged, `A` staged; other
/// lines say nothing.
pub open spec fn status_line(line: Seq<char>) -> Option<(bool, FileKindView, Seq<char>)> {
    match split_once(line, ' ') {
        Some((code, rest)) => if code == seq!['M'] {
            Some((false, FileKindView::Modified, trim(rest)))
        } else if code == seq!['A'] {
            Some((true, FileKindView::Added, trim(rest)))
        } else if code == seq!['D'] {
            Some((false, FileKindView::Deleted, trim(rest)))
        } else {
            None
        },
        None => None,
    }
}

/// The files of `lines` on the staged (`staged`) or unstaged side, in order.
pub open spec fn status_side(lines: Seq<Seq<char>>, staged: bool) -> Seq<(Seq<char>, FileKindView)>
    decreases lines.len(),
{
    if lines.len() == 0 {
        seq![]
    } else {
        let before = status_side(lines.drop_last(), staged);
        match status_line(lines.last()) {
            Some((s, kind, path)) => if s == staged {
                before.push((path, kind))
            } else {
                before
            },
            None => before,
        }
    }
}

pub open spec fn entries_view(v: Seq<FileEntry>) -> Seq<(Seq<char>, FileKindView)> {
    v.map_values(|e: FileEntry| e@)
}

/// The code and path of the line `chars[a..b]`, when it has a known code.
fn read_status_line(chars: &Vec<char>, a: usize, b: usize) -> (r: Option<(bool, FileEntry)>)
    requires
        a <= b <= chars@.len(),
    ensures
        match status_line(chars@.subrange(a as int, b as int)) {
            Some((s, kind, path)) => r matches Some((rs, e)) && rs == s && e@ == (path, kind),
            None => r is None,
        },
{
    let ghost line = chars@.subrange(a as int, b as int);
    let k = find_char_in(chars, a, b, ' ');
    if k >= b {
        return None;
    }
    proof {
        assert(line.take(k - a) =~= chars@.subrange(a as int, k as int));
        assert(line.skip(k - a + 1) =~= chars@.subrange(k + 1, b as int));
    }
    let (kind, staged) = if k == a + 1 && chars[a] == 'M' {
        assert(line.take(k - a) =~= seq!['M']);
        (FileKind::Modified, false)
    } else if k == a + 1 && chars[a] == 'A' {
        assert(line.take(k - a) =~= seq!['A']);
        (FileKind::Added, true)
    } else if k == a + 1 && chars[a] == 'D' {
        assert(line.take(k - a) =~= seq!['D']);
        (FileKind::Deleted, false)
    } else {
        proof {
            let code = line.take(k - a);
            if code.len() == 1 {
                assert(code[0] == chars@[a as int]);
            }
            assert(code != seq!['M'] && code != seq!['A'] && code != seq!['D']);
        }
        return None;
    };
    let (lo, hi) = trim_bounds(chars, k + 1, b);
    let path = string_of_range(chars, lo, hi);
    Some((staged, FileEntry { path, kind }))
}

/// The status `jj status` printed: `M`/`D` lines as unstaged changes, `A`
/// lines as staged ones, each path trimmed; nothing else is read.
pub fn parse_status(output: &str) -> (r: RepoStatus)
    ensures
        entries_view(r.staged@) == status_side(lines_of(output@), true),
        entries_view(r.unstaged@) == status_side(lines_of(output@), false),
        r.untracked@.len() == 0,
        r.unpushed@.len() == 0,
        r.unpushed_total == 0,
        r.head is None && r.head_short_hash is None && r.head_summary is None && r.upstream is None,
{
    let chars = chars_of(output);
    let spans = line_spans(&chars);
    let ghost lines = lines_of(output@);
    let mut staged: Vec<FileEntry> = Vec::new();
    let mut unstaged: Vec<FileEntry> = Vec::new();
    let mut i: usize = 0;
    while i < spans.len()
        invariant
            chars@ == output@,
            lines == spans_text(chars@, spans@),
            crate::text::spans_within(chars@.len(), spans@),
            i <= spans@.len(),
            entries_view(staged@) == status_side(lines.take(i as int), true),
            entries_view(unstaged@) == status_side(lines.take(i as int), false),
        decreases spans@.len() - i,
    {
        let (a, b) = spans[i];
        assert(spans@[i as int].0 <= spans@[i as int].1 <= chars@.len());
        let ghost line = span_text(chars@, spans@[i as int]);
        assert(lines.take(i + 1).drop_last() =~= lines.take(i as int));
        assert(lines.take(i + 1).last() == line);
        let got = read_status_line(&chars, a, b);
        match got {
            Some((true, e)) => {
                let ghost before = staged@;
                staged.push(e);
                assert(entries_view(staged@) =~= entries_view(before).push(e@));
            },
            Some((false, e)) => {
                let ghost before = unstaged@;
                unstaged.push(e);
                assert(entries_view(unstaged@) =~= entries_view(before).push(e@));
            },
            None => {},
        }
        i += 1;
    }
    assert(lines.take(spans@.len() as int) =~= lines);
    let mut r = RepoStatus::empty();
    r.staged = staged;
    r.unstaged = unstaged;
    r
}

/// The hash, summary and author of one `jj log` line: its first three
/// `FIELD_SEP`-separated fields, when a fourth follows.
pub open spec fn log_line(line: Seq<char>) -> Option<(Seq<char>, Seq<char>, Seq<char>)> {
    match split_once(line, FIELD_SEP) {
        Some((hash, r1)) => match split_once(r1, FIELD_SEP) {
            Some((summary, r2)) => match split_once(r2, FIELD_SEP) {
                Some((author, _)) => Some((hash, summary, author)),
                None => None,
            },
            None => None,
        },
        None => None,
    }
}

/// The commits of `lines`, in order; lines with too few fields are skipped.
pub open spec fn log_commits(lines: Seq<Seq<char>>) -> Seq<(Seq<char>, Seq<char>, Seq<char>)>
    decreases lines.len(),
{
    if lines.len() == 0 {
        seq![]
    } else {
        match log_line(lines.last()) {
            Some(c) => log_commits(lines.drop_last()).push(c),
            None => log_commits(lines.drop_last()),
        }
    }
}

pub open spec fn commits_view(v: Seq<CommitInfo>) -> Seq<(Seq<char>, Seq<char>, Seq<char>)> {
    v.map_values(|c: CommitInfo| c@)
}

/// Position of the next separator in `chars[lo..hi]`, when there is one.
fn next_field(chars: &Vec<char>, lo: usize, hi: usize) -> (r: Option<usize>)
    requires
        lo <= hi <= chars@.len(),
    ensures
        match split_once(chars@.subrange(lo as int, hi as int), FIELD_SEP) {
            Some((before, after)) => r matches Some(k) && lo <= k < hi
                && before == chars@.subrange(lo as int, k as int)
                && after == chars@.subrange(k + 1, hi as int),
            None => r is None,
        },
{
    let k = find_char_in(chars, lo, hi, FIELD_SEP);
    if k < hi {
        assert(chars@.subrange(lo as int, hi as int).take(k - lo) =~= chars@.subrange(lo as int, k as int));
        assert(chars@.subrange(lo as int, hi as int).skip(k - lo + 1) =~= chars@.subrange(k + 1, hi as int));
        Some(k)
    } else {
        None
    }
}

/// The commit of the line `chars[a..b]`, when it has all four fields.
fn read_log_line(chars: &Vec<char>, a: usize, b: usize) -> (r: Option<CommitInfo>)
    requires
        a <= b <= chars@.len(),
    ensures
        match log_line(chars@.subrange(a as int, b as int)) {
            Some(c) => r matches Some(info) && info@ == c,
            None => r is None,
        },
{
    let k1 = match next_field(chars, a, b) {
        Some(k) => k,
        None => return None,
    };
    let k2 = match next_field(chars, k1 + 1, b) {
        Some(k) => k,
        None => return None,
    };
    let k3 = match next_field(chars, k2 + 1, b) {
        Some(k) => k,
        None => return None,
    };
    Some(CommitInfo {
        short_hash: string_of_range(chars, a, k1),
        summary: string_of_range(chars, k1 + 1, k2),
        author: string_of_range(chars, k2 + 1, k3),
    })
}

/// The commits `jj log` printed with the template `log_args` asks for.
pub fn parse_log(output: &str) -> (r: Vec<CommitInfo>)
    ensures
        commits_view(r@) == log_commits(lines_of(output@)),
{
    let chars = chars_of(output);
    let spans = line_spans(&chars);
    let ghost lines = lines_of(output@);
    let mut out: Vec<CommitInfo> = Vec::new();
    let mut i: usize = 0;
    while i < spans.len()
        invariant
            chars@ == output@,
            lines == spans_text(chars@, spans@),
            crate::text::spans_within(chars@.len(), spans@),
            i <= spans@.len(),
            commits_view(out@) == log_commits(lines.take(i as int)),
        decreases spans@.len() - i,
    {
        let (a, b) = spans[i];
        assert(spans@[i as int].0 <= spans@[i as int].1 <= chars@.len());
        assert(lines.take(i + 1).drop_last() =~= lines.take(i as int));
        assert(lines.take(i + 1).last() == span_text(chars@, spans@[i as int]));
        match read_log_line(&chars, a, b) {
            Some(info) => {
                let ghost before = out@;
                out.push(info);
                assert(commits_view(out@) =~= commits_view(before).push(out@.last()@));
            },
            None => {},
        }
        i += 1;
    }
    assert(lines.take(spans@.len() as int) =~= lines);
    out
}

/// The template that makes `jj log` print one `parse_log` line per commit.
pub open spec fn log_template() -> Seq<char> {
    "separate(\"\\x1f\", change_id.short(), description.first_line(), author.name(), author.timestamp()) ++ \"\\n\""@
}

/// The arguments of `jj log` for the newest `limit` commits.
pub fn log_args(limit: usize) -> (r: Vec<String>)
    ensures
        r@.len() == 7,
        r@[0]@ == "log"@,
        r@[1]@ == "--no-graph"@,
        r@[2]@ == "--no-pager"@,
        r@[3]@ == "--template"@,
        r@[4]@ == log_template(),
        r@[5]@ == "-n"@,
        r@[6]@ == decimal(limit as nat),
{
    let mut v: Vec<String> = Vec::new();
    v.push(String::from_str("log"));
    v.push(String::from_str("--no-graph"));
    v.push(String::from_str("--no-pager"));
    v.push(String::from_str("--template"));
    v.push(String::from_str(
        "separate(\"\\x1f\", change_id.short(), description.first_line(), author.name(), author.timestamp()) ++ \"\\n\"",
    ));
    v.push(String::from_str("-n"));
    v.push(decimal_string(limit));
    v
}

} // verus!
