//! Cutting unified diffs into patches `git apply` accepts.

use std::collections::HashSet;
use vstd::prelude::*;
use vstd::std_specs::hash::obeys_key_model;

use crate::text::{
    chars_of, find_char_from, first_index_of, lemma_first_index_of_props, line_spans, lines_of,
    span_text, spans_text, spans_within, starts_with_char, string_of,
};

verus! {

broadcast use vstd::std_specs::hash::group_hash_axioms;

// ---------------------------------------------------------------------------
// Specifications
// ---------------------------------------------------------------------------

/// Whether a diff body line is an addition or removal.
pub open spec fn spec_is_change(line: Seq<char>) -> bool {
    starts_with_char(line, '+') || starts_with_char(line, '-')
}

/// Whether a line opens a hunk (`@@ ...`).
pub open spec fn is_hunk_header(line: Seq<char>) -> bool {
    line.len() >= 2 && line[0] == '@' && line[1] == '@'
}

/// Indices of the hunk header lines of `ls`, in increasing order.
pub open spec fn hunk_starts(ls: Seq<Seq<char>>) -> Seq<int>
    decreases ls.len(),
{
    if ls.len() == 0 {
        seq![]
    } else {
        let prev = hunk_starts(ls.drop_last());
        if is_hunk_header(ls.last()) {
            prev.push(ls.len() - 1)
        } else {
            prev
        }
    }
}

/// The lines joined, each followed by a newline.
pub open spec fn join_lines(ls: Seq<Seq<char>>) -> Seq<char>
    decreases ls.len(),
{
    if ls.len() == 0 {
        seq![]
    } else {
        join_lines(ls.drop_last()) + ls.last() + seq!['\n']
    }
}

/// The lines `[lo, hi)` of hunk `index`: from its header up to the next
/// header or the end of the diff.
pub open spec fn hunk_range(ls: Seq<Seq<char>>, index: int) -> (int, int) {
    let st = hunk_starts(ls);
    (st[index], if index + 1 < st.len() { st[index + 1] } else { ls.len() as int })
}

/// The patch made of the file header and hunk `index` of `diff`; `None` when
/// the diff has no hunks or fewer than `index + 1`.
pub open spec fn spec_hunk_patch(diff: Seq<char>, index: int) -> Option<Seq<char>> {
    let ls = lines_of(diff);
    let st = hunk_starts(ls);
    if st.len() == 0 || index < 0 || index >= st.len() {
        None
    } else {
        let (lo, hi) = hunk_range(ls, index);
        Some(join_lines(ls.take(st[0])) + join_lines(ls.subrange(lo, hi)))
    }
}

/// `Some(rest)` when `s` starts with `p`.
pub open spec fn strip_prefix(s: Seq<char>, p: Seq<char>) -> Option<Seq<char>> {
    if p.len() <= s.len() && s.take(p.len() as int) == p {
        Some(s.skip(p.len() as int))
    } else {
        None
    }
}

/// The parts before and after the first `c`, when `s` holds one.
pub open spec fn split_once(s: Seq<char>, c: char) -> Option<(Seq<char>, Seq<char>)> {
    let k = first_index_of(s, c);
    if k < s.len() {
        Some((s.take(k as int), s.skip(k as int + 1)))
    } else {
        None
    }
}

pub open spec fn is_digit(c: char) -> bool {
    '0' <= c && c <= '9'
}

pub open spec fn digit_value(c: char) -> int {
    (c as int) - ('0' as int)
}

pub open spec fn all_digits(s: Seq<char>) -> bool {
    forall|i: int| 0 <= i < s.len() ==> is_digit(#[trigger] s[i])
}

/// The number that the decimal digits `s` spell.
pub open spec fn digits_value(s: Seq<char>) -> int
    decreases s.len(),
{
    if s.len() == 0 {
        0
    } else {
        10 * digits_value(s.drop_last()) + digit_value(s.last())
    }
}

/// `str::parse::<u32>`: an optional `+`, then at least one decimal digit,
/// with a value that fits in a `u32`.
pub open spec fn parse_u32(s: Seq<char>) -> Option<u32> {
    let digits = if starts_with_char(s, '+') { s.drop_first() } else { s };
    if digits.len() > 0 && all_digits(digits) && digits_value(digits) <= u32::MAX {
        Some(digits_value(digits) as u32)
    } else {
        None
    }
}

/// The start number of one side of a hunk header (`-10,2` gives 10).
pub open spec fn side_start(part: Seq<char>, sign: char) -> Option<u32> {
    if starts_with_char(part, sign) {
        let rest = part.drop_first();
        parse_u32(rest.take(first_index_of(rest, ',') as int))
    } else {
        None
    }
}

/// `@@ -old_start[,count] +new_start[,count] @@` read as (old_start, new_start).
pub open spec fn spec_parse_hunk_starts(header: Seq<char>) -> Option<(u32, u32)> {
    match strip_prefix(header, seq!['@', '@', ' ']) {
        None => None,
        Some(inner) => match split_once(inner, ' ') {
            None => None,
            Some((old_part, rest)) => match split_once(rest, ' ') {
                None => None,
                Some((new_part, _)) => match (side_start(old_part, '-'), side_start(new_part, '+')) {
                    (Some(a), Some(b)) => Some((a, b)),
                    _ => None,
                },
            },
        },
    }
}

/// What becomes of body line `i` in a line patch: selected change lines
/// stay, unselected lines of the "before" side become context, unselected
/// lines of the other side are dropped, context lines stay.
pub open spec fn patch_line(line: Seq<char>, i: int, selected: Set<usize>, reverse: bool) -> Option<
    Seq<char>,
> {
    let as_context = if reverse { '+' } else { '-' };
    let dropped = if reverse { '-' } else { '+' };
    if spec_is_change(line) && selected.contains(i as usize) {
        Some(line)
    } else if starts_with_char(line, as_context) {
        Some(seq![' '] + line.drop_first())
    } else if !starts_with_char(line, dropped) {
        Some(line)
    } else {
        None
    }
}

/// The new hunk body: `patch_line` applied to each line, dropped lines left out.
pub open spec fn patch_body(body: Seq<Seq<char>>, selected: Set<usize>, reverse: bool) -> Seq<
    Seq<char>,
>
    decreases body.len(),
{
    if body.len() == 0 {
        seq![]
    } else {
        let prev = patch_body(body.drop_last(), selected, reverse);
        match patch_line(body.last(), body.len() - 1, selected, reverse) {
            Some(l) => prev.push(l),
            None => prev,
        }
    }
}

/// Whether some selected index is a change line of `body`.
pub open spec fn has_selected_change(body: Seq<Seq<char>>, selected: Set<usize>) -> bool {
    exists|i: int|
        0 <= i < body.len() && spec_is_change(#[trigger] body[i]) && selected.contains(i as usize)
}

/// Number of lines that start with a space or with `side`.
pub open spec fn count_side(ls: Seq<Seq<char>>, side: char) -> nat
    decreases ls.len(),
{
    if ls.len() == 0 {
        0
    } else {
        count_side(ls.drop_last(), side) + if starts_with_char(ls.last(), ' ') || starts_with_char(
            ls.last(),
            side,
        ) {
            1nat
        } else {
            0nat
        }
    }
}

/// Decimal digits of `n`, most significant first.
pub open spec fn decimal(n: nat) -> Seq<char>
    decreases n,
{
    if n < 10 {
        seq![(n + ('0' as nat)) as char]
    } else {
        decimal(n / 10).push(((n % 10) + ('0' as nat)) as char)
    }
}

/// `@@ -{old},{old_count} +{new},{new_count} @@`, newline included.
pub open spec fn hunk_header_text(old: nat, old_count: nat, new: nat, new_count: nat) -> Seq<char> {
    seq!['@', '@', ' ', '-'] + decimal(old) + seq![','] + decimal(old_count) + seq![' ', '+']
        + decimal(new) + seq![','] + decimal(new_count) + seq![' ', '@', '@', '\n']
}

/// The patch that applies only the selected change lines of hunk `index`.
pub open spec fn spec_lines_patch(diff: Seq<char>, index: int, selected: Set<usize>, reverse: bool) -> Option<
    Seq<char>,
> {
    let ls = lines_of(diff);
    let st = hunk_starts(ls);
    if st.len() == 0 || index < 0 || index >= st.len() {
        None
    } else {
        let (lo, hi) = hunk_range(ls, index);
        let header = ls[lo];
        let body = ls.subrange(lo + 1, hi);
        match spec_parse_hunk_starts(header) {
            None => None,
            Some((old_start, new_start)) => if !has_selected_change(body, selected) {
                None
            } else {
                let nb = patch_body(body, selected, reverse);
                Some(
                    join_lines(ls.take(st[0])) + hunk_header_text(
                        old_start as nat,
                        count_side(nb, '-'),
                        new_start as nat,
                        count_side(nb, '+'),
                    ) + join_lines(nb),
                )
            },
        }
    }
}

/// The text of a new body line: the span, with its first character
/// replaced by a space when it was turned into context.
pub open spec fn body_text(chars: Seq<char>, e: (usize, usize, bool)) -> Seq<char> {
    if e.2 {
        seq![' '] + chars.subrange(e.0 + 1, e.1 as int)
    } else {
        chars.subrange(e.0 as int, e.1 as int)
    }
}

// ---------------------------------------------------------------------------
// Lemmas
// ---------------------------------------------------------------------------

/// Hunk starts are increasing indices of header lines.
pub proof fn lemma_hunk_starts(ls: Seq<Seq<char>>)
    ensures
        forall|i: int| 0 <= i < hunk_starts(ls).len() ==> 0 <= #[trigger] hunk_starts(ls)[i] < ls.len(),
        forall|i: int|
            0 <= i < hunk_starts(ls).len() ==> is_hunk_header(ls[#[trigger] hunk_starts(ls)[i]]),
        forall|i: int, j: int|
            0 <= i < j < hunk_starts(ls).len() ==> #[trigger] hunk_starts(ls)[i]
                < #[trigger] hunk_starts(ls)[j],
        forall|k: int| 0 <= k < ls.len() && is_hunk_header(#[trigger] ls[k]) ==> hunk_starts(ls).contains(k),
    decreases ls.len(),
{
    if ls.len() > 0 {
        let p = ls.drop_last();
        lemma_hunk_starts(p);
        assert forall|k: int| 0 <= k < ls.len() && is_hunk_header(#[trigger] ls[k]) implies hunk_starts(
            ls,
        ).contains(k) by {
            if k < ls.len() - 1 {
                assert(p[k] == ls[k]);
                let w = choose|w: int| 0 <= w < hunk_starts(p).len() && hunk_starts(p)[w] == k;
                assert(hunk_starts(ls)[w] == k);
            } else {
                assert(hunk_starts(ls).last() == k);
            }
        }
    }
}

/// Hunk `index`'s line range lies in the diff and begins with its header.
pub proof fn lemma_hunk_range(ls: Seq<Seq<char>>, index: int)
    requires
        0 <= index < hunk_starts(ls).len(),
    ensures
        0 <= hunk_range(ls, index).0 < hunk_range(ls, index).1 <= ls.len(),
        hunk_starts(ls)[0] <= hunk_range(ls, index).0,
        is_hunk_header(ls[hunk_range(ls, index).0]),
{
    lemma_hunk_starts(ls);
    if index > 0 {
        assert(hunk_starts(ls)[0] < hunk_starts(ls)[index]);
    }
    if index + 1 < hunk_starts(ls).len() {
        assert(hunk_starts(ls)[index] < hunk_starts(ls)[index + 1]);
    }
}

proof fn lemma_digits_value_nonneg(s: Seq<char>)
    requires
        all_digits(s),
    ensures
        digits_value(s) >= 0,
    decreases s.len(),
{
    if s.len() > 0 {
        lemma_digits_value_nonneg(s.drop_last());
        assert(is_digit(s[s.len() - 1]));
    }
}

/// A longer run of digits never has a smaller value than its prefix.
proof fn lemma_digits_value_mono(s: Seq<char>, i: int)
    requires
        0 <= i <= s.len(),
        all_digits(s),
    ensures
        digits_value(s.take(i)) <= digits_value(s),
    decreases s.len() - i,
{
    if i < s.len() {
        lemma_digits_value_mono(s, i + 1);
        assert(s.take(i + 1).drop_last() =~= s.take(i));
        assert(is_digit(s[i]));
        lemma_digits_value_nonneg(s.take(i));
    } else {
        assert(s.take(i) =~= s);
    }
}

// ---------------------------------------------------------------------------
// Executable code
// ---------------------------------------------------------------------------

/// Whether `v[lo..hi]` starts with the character `c`.
fn span_starts_with(v: &Vec<char>, lo: usize, hi: usize, c: char) -> (r: bool)
    requires
        lo <= hi <= v.len(),
    ensures
        r == starts_with_char(v@.subrange(lo as int, hi as int), c),
{
    lo < hi && v[lo] == c
}

/// Whether a diff body line is an addition or removal.
pub fn is_change(line: &str) -> (r: bool)
    ensures
        r == spec_is_change(line@),
{
    let mut it = line.chars();
    let first = it.next();
    match first {
        Some(c) => c == '+' || c == '-',
        None => false,
    }
}

/// A diff split into lines, with the index of each `@@` hunk header.
struct Hunks {
    chars: Vec<char>,
    spans: Vec<(usize, usize)>,
    starts: Vec<usize>,
}

impl Hunks {
    spec fn lines(&self) -> Seq<Seq<char>> {
        spans_text(self.chars@, self.spans@)
    }

    spec fn wf(&self) -> bool {
        &&& spans_within(self.chars@.len(), self.spans@)
        &&& self.starts@.len() == hunk_starts(self.lines()).len()
        &&& forall|i: int|
            0 <= i < self.starts@.len() ==> #[trigger] self.starts@[i] == hunk_starts(self.lines())[i]
    }

    /// `None` when the diff has no hunks.
    fn parse(diff: &str) -> (r: Option<Self>)
        ensures
            r matches Some(h) ==> h.wf() && h.chars@ == diff@ && h.lines() == lines_of(diff@)
                && h.starts@.len() > 0,
            r is None <==> hunk_starts(lines_of(diff@)).len() == 0,
    {
        let chars = chars_of(diff);
        let spans = line_spans(&chars);
        let ghost ls = spans_text(chars@, spans@);
        let mut starts: Vec<usize> = Vec::new();
        let mut i: usize = 0;
        while i < spans.len()
            invariant
                spans_within(chars@.len(), spans@),
                ls == spans_text(chars@, spans@),
                i <= spans.len(),
                starts@.len() == hunk_starts(ls.take(i as int)).len(),
                forall|k: int|
                    0 <= k < starts@.len() ==> #[trigger] starts@[k] == hunk_starts(
                        ls.take(i as int),
                    )[k],
            decreases spans.len() - i,
        {
            let (lo, hi) = spans[i];
            proof {
                assert(ls.take(i + 1).drop_last() =~= ls.take(i as int));
                assert(ls.take(i + 1).last() == ls[i as int]);
                assert(ls[i as int] == chars@.subrange(lo as int, hi as int));
            }
            if hi - lo >= 2 && chars[lo] == '@' && chars[lo + 1] == '@' {
                starts.push(i);
            }
            i += 1;
        }
        assert(ls.take(spans@.len() as int) =~= ls);
        if starts.len() == 0 {
            None
        } else {
            Some(Hunks { chars, spans, starts })
        }
    }

    /// Number of lines before the first hunk (`diff --git`, `---`, `+++`, …).
    fn file_header(&self) -> (r: usize)
        requires
            self.wf(),
            self.starts@.len() > 0,
        ensures
            r == hunk_starts(self.lines())[0],
    {
        self.starts[0]
    }

    /// Hunk `index` as the line range `[start, end)`, starting with its `@@` line.
    fn hunk(&self, index: usize) -> (r: Option<(usize, usize)>)
        requires
            self.wf(),
        ensures
            index < self.starts@.len() ==> r == Some(
                (
                    hunk_range(self.lines(), index as int).0 as usize,
                    hunk_range(self.lines(), index as int).1 as usize,
                ),
            ),
            index >= self.starts@.len() ==> r is None,
    {
        if index >= self.starts.len() {
            return None;
        }
        let start = self.starts[index];
        let end = if index + 1 < self.starts.len() {
            self.starts[index + 1]
        } else {
            self.spans.len()
        };
        Some((start, end))
    }
}

/// Appends lines `[lo, hi)` of `spans`, each followed by a newline.
fn push_lines(out: &mut Vec<char>, chars: &Vec<char>, spans: &Vec<(usize, usize)>, lo: usize, hi: usize)
    requires
        lo <= hi <= spans@.len(),
        spans_within(chars@.len(), spans@),
    ensures
        final(out)@ == old(out)@ + join_lines(spans_text(chars@, spans@).subrange(lo as int, hi as int)),
{
    let ghost ls = spans_text(chars@, spans@);
    let ghost start = out@;
    let mut i = lo;
    assert(ls.subrange(lo as int, lo as int) =~= Seq::<Seq<char>>::empty());
    assert(start + Seq::<char>::empty() =~= start);
    while i < hi
        invariant
            lo <= i <= hi <= spans@.len(),
            spans_within(chars@.len(), spans@),
            ls == spans_text(chars@, spans@),
            out@ == start + join_lines(ls.subrange(lo as int, i as int)),
        decreases hi - i,
    {
        let (a, b) = spans[i];
        let ghost before = out@;
        let mut k = a;
        while k < b
            invariant
                a <= k <= b <= chars@.len(),
                out@ == before + chars@.subrange(a as int, k as int),
            decreases b - k,
        {
            out.push(chars[k]);
            assert(chars@.subrange(a as int, k + 1) =~= chars@.subrange(a as int, k as int).push(chars@[k as int]));
            k += 1;
        }
        out.push('\n');
        proof {
            let sub = ls.subrange(lo as int, i + 1);
            assert(sub.drop_last() =~= ls.subrange(lo as int, i as int));
            assert(sub.last() == chars@.subrange(a as int, b as int));
            assert(out@ =~= start + join_lines(sub));
        }
        i += 1;
    }
}

/// The character of the decimal digit `d`.
fn digit_char(d: usize) -> (c: char)
    requires
        d < 10,
    ensures
        c == ((d + ('0' as nat)) as char),
{
    match d {
        0 => '0',
        1 => '1',
        2 => '2',
        3 => '3',
        4 => '4',
        5 => '5',
        6 => '6',
        7 => '7',
        8 => '8',
        _ => '9',
    }
}

/// Appends the decimal digits of `n`.
fn push_decimal(out: &mut Vec<char>, n: usize)
    ensures
        final(out)@ == old(out)@ + decimal(n as nat),
    decreases n,
{
    if n >= 10 {
        push_decimal(out, n / 10);
    }
    let c = digit_char(n % 10);
    out.push(c);
    assert(out@ =~= old(out)@ + decimal(n as nat));
}

/// The decimal digits of `n` as a string.
pub fn decimal_string(n: usize) -> (r: String)
    ensures
        r@ == decimal(n as nat),
{
    let mut v: Vec<char> = Vec::new();
    push_decimal(&mut v, n);
    assert(v@ =~= decimal(n as nat));
    string_of(&v)
}

/// Parse `@@ -old_start[,count] +new_start[,count] @@` into (old_start, new_start).
pub fn parse_hunk_starts(header: &str) -> (r: Option<(u32, u32)>)
    ensures
        r == spec_parse_hunk_starts(header@),
{
    let v = chars_of(header);
    assert(v@.subrange(0, v@.len() as int) =~= v@);
    parse_hunk_starts_in(&v, 0, v.len())
}

/// `parse_hunk_starts` on the characters `v[lo..hi]`.
fn parse_hunk_starts_in(v: &Vec<char>, lo: usize, hi: usize) -> (r: Option<(u32, u32)>)
    requires
        lo <= hi <= v.len(),
    ensures
        r == spec_parse_hunk_starts(v@.subrange(lo as int, hi as int)),
{
    let ghost s = v@.subrange(lo as int, hi as int);
    let ghost at = seq!['@', '@', ' '];
    if !(hi - lo >= 3 && v[lo] == '@' && v[lo + 1] == '@' && v[lo + 2] == ' ') {
        proof {
            if 3 <= s.len() && s.take(3) == at {
                assert(s.take(3)[0] == '@' && s.take(3)[1] == '@' && s.take(3)[2] == ' ');
            }
        }
        return None;
    }
    assert(s.take(3) =~= at);
    let inner_lo = lo + 3;
    let ghost inner = s.skip(3);
    assert(inner =~= v@.subrange(inner_lo as int, hi as int));
    // First space of `inner`.
    let sp1 = find_char_in(v, inner_lo, hi, ' ');
    if sp1 >= hi {
        return None;
    }
    let ghost old_part = inner.take(sp1 - inner_lo);
    let ghost rest = inner.skip(sp1 - inner_lo + 1);
    assert(old_part =~= v@.subrange(inner_lo as int, sp1 as int));
    assert(rest =~= v@.subrange(sp1 + 1, hi as int));
    let sp2 = find_char_in(v, sp1 + 1, hi, ' ');
    if sp2 >= hi {
        return None;
    }
    let ghost new_part = rest.take(sp2 - (sp1 + 1));
    assert(new_part =~= v@.subrange(sp1 + 1, sp2 as int));
    let a = side_start_in(v, inner_lo, sp1, '-');
    let b = side_start_in(v, sp1 + 1, sp2, '+');
    match (a, b) {
        (Some(a), Some(b)) => Some((a, b)),
        _ => None,
    }
}

/// Index of the first `c` in `v[lo..hi]`, as an index into `v`, or `hi`.
fn find_char_in(v: &Vec<char>, lo: usize, hi: usize, c: char) -> (r: usize)
    requires
        lo <= hi <= v.len(),
    ensures
        r == lo + first_index_of(v@.subrange(lo as int, hi as int), c),
        lo <= r <= hi,
{
    let mut i = lo;
    while i < hi && v[i] != c
        invariant
            lo <= i <= hi <= v.len(),
            forall|j: int| lo <= j < i ==> v@[j] != c,
        decreases hi - i,
    {
        i += 1;
    }
    proof {
        crate::text::lemma_first_index_of(v@.subrange(lo as int, hi as int), c, i - lo);
    }
    i
}

/// `side_start` on `v[lo..hi]`.
fn side_start_in(v: &Vec<char>, lo: usize, hi: usize, sign: char) -> (r: Option<u32>)
    requires
        lo <= hi <= v.len(),
    ensures
        r == side_start(v@.subrange(lo as int, hi as int), sign),
{
    let ghost part = v@.subrange(lo as int, hi as int);
    if !(lo < hi && v[lo] == sign) {
        return None;
    }
    let ghost rest = part.drop_first();
    assert(rest =~= v@.subrange(lo + 1, hi as int));
    let comma = find_char_in(v, lo + 1, hi, ',');
    assert(rest.take(first_index_of(rest, ',') as int) =~= v@.subrange(lo + 1, comma as int));
    parse_u32_in(v, lo + 1, comma)
}

/// `str::parse::<u32>` on the characters `v[lo..hi]`.
fn parse_u32_in(v: &Vec<char>, lo: usize, hi: usize) -> (r: Option<u32>)
    requires
        lo <= hi <= v.len(),
    ensures
        r == parse_u32(v@.subrange(lo as int, hi as int)),
{
    let ghost s = v@.subrange(lo as int, hi as int);
    let start = if lo < hi && v[lo] == '+' { lo + 1 } else { lo };
    let ghost digits = v@.subrange(start as int, hi as int);
    assert(digits =~= (if starts_with_char(s, '+') { s.drop_first() } else { s }));
    if start >= hi {
        assert(digits.len() == 0);
        return None;
    }
    let mut acc: u64 = 0;
    let mut i = start;
    while i < hi
        invariant
            start <= i <= hi <= v.len(),
            s == v@.subrange(lo as int, hi as int),
            digits == v@.subrange(start as int, hi as int),
            digits == (if starts_with_char(s, '+') { s.drop_first() } else { s }),
            all_digits(digits.take(i - start)),
            acc == digits_value(digits.take(i - start)),
            acc <= u32::MAX,
        decreases hi - i,
    {
        let c = v[i];
        if !('0' <= c && c <= '9') {
            assert(digits[i - start] == c);
            assert(!is_digit(digits[i - start]));
            assert(!all_digits(digits));
            return None;
        }
        let d = (c as u64) - ('0' as u64);
        proof {
            let t = digits.take(i - start + 1);
            assert(t.drop_last() =~= digits.take(i - start));
            assert(t.last() == c);
            assert forall|j: int| 0 <= j < t.len() implies is_digit(#[trigger] t[j]) by {
                if j < t.len() - 1 {
                    assert(t[j] == digits.take(i - start)[j]);
                }
            }
        }
        acc = acc * 10 + d;
        assert(acc == digits_value(digits.take(i - start + 1)));
        if acc > u32::MAX as u64 {
            proof {
                if all_digits(digits) {
                    lemma_digits_value_mono(digits, i - start + 1);
                }
            }
            return None;
        }
        i += 1;
    }
    assert(digits.take(hi - start) =~= digits);
    Some(acc as u32)
}

/// One hunk of `diff` as a complete patch (file header + hunk).
pub fn hunk_patch(diff: &str, hunk_index: usize) -> (r: Option<String>)
    ensures
        r matches Some(p) ==> spec_hunk_patch(diff@, hunk_index as int) == Some(p@),
        r is None ==> spec_hunk_patch(diff@, hunk_index as int) is None,
{
    let hunks = match Hunks::parse(diff) {
        Some(h) => h,
        None => return None,
    };
    let (start, end) = match hunks.hunk(hunk_index) {
        Some(r) => r,
        None => return None,
    };
    proof {
        lemma_hunk_range(hunks.lines(), hunk_index as int);
    }
    let mut patch: Vec<char> = Vec::new();
    let header_end = hunks.file_header();
    push_lines(&mut patch, &hunks.chars, &hunks.spans, 0, header_end);
    push_lines(&mut patch, &hunks.chars, &hunks.spans, start, end);
    proof {
        let ls = hunks.lines();
        assert(ls.subrange(0, header_end as int) =~= ls.take(header_end as int));
    }
    Some(string_of(&patch))
}

/// What becomes of the body line `v[a..b]` with body index `bi`: its span and
/// whether its first character turns into a space; `None` when dropped.
fn patch_entry(
    v: &Vec<char>,
    a: usize,
    b: usize,
    bi: usize,
    selected: &HashSet<usize>,
    reverse: bool,
) -> (r: Option<(usize, usize, bool)>)
    requires
        a <= b <= v.len(),
        obeys_key_model::<usize>(),
    ensures
        r is None <==> patch_line(v@.subrange(a as int, b as int), bi as int, selected@, reverse) is None,
        r matches Some(e) ==> e.0 == a && e.1 == b && (e.2 ==> a < b) && Some(body_text(v@, e))
            == patch_line(v@.subrange(a as int, b as int), bi as int, selected@, reverse),
{
    let ghost line = v@.subrange(a as int, b as int);
    let (as_context, dropped) = if reverse { ('+', '-') } else { ('-', '+') };
    let change = span_starts_with(v, a, b, '+') || span_starts_with(v, a, b, '-');
    if change && selected.contains(&bi) {
        Some((a, b, false))
    } else if span_starts_with(v, a, b, as_context) {
        assert(seq![' '] + line.drop_first() =~= body_text(v@, (a, b, true)));
        Some((a, b, true))
    } else if !span_starts_with(v, a, b, dropped) {
        Some((a, b, false))
    } else {
        None
    }
}

/// Whether a new body line counts on the side of `side` (`' '` or `side` first).
fn counts_on(v: &Vec<char>, e: (usize, usize, bool), side: char) -> (r: bool)
    requires
        e.0 <= e.1 <= v.len(),
        e.2 ==> e.0 < e.1,
    ensures
        r == (starts_with_char(body_text(v@, e), ' ') || starts_with_char(body_text(v@, e), side)),
{
    if e.2 {
        true
    } else if e.0 < e.1 {
        v[e.0] == ' ' || v[e.0] == side
    } else {
        false
    }
}

/// The spans of a new body line are well formed.
spec fn entries_within(len: nat, es: Seq<(usize, usize, bool)>) -> bool {
    forall|k: int|
        0 <= k < es.len() ==> (#[trigger] es[k]).0 <= es[k].1 <= len && (es[k].2 ==> es[k].0 < es[k].1)
}

/// The texts of new body lines.
spec fn entries_text(chars: Seq<char>, es: Seq<(usize, usize, bool)>) -> Seq<Seq<char>> {
    es.map_values(|e: (usize, usize, bool)| body_text(chars, e))
}

/// The new body of the hunk body made of lines `[lo, hi)`, whether a change
/// line was selected, and the line counts of the old and new side.
fn build_patch_body(
    chars: &Vec<char>,
    spans: &Vec<(usize, usize)>,
    lo: usize,
    hi: usize,
    selected: &HashSet<usize>,
    reverse: bool,
) -> (r: (Vec<(usize, usize, bool)>, bool, usize, usize))
    requires
        lo <= hi <= spans@.len(),
        spans_within(chars@.len(), spans@),
        obeys_key_model::<usize>(),
    ensures
        ({
            let body = spans_text(chars@, spans@).subrange(lo as int, hi as int);
            let nb = patch_body(body, selected@, reverse);
            &&& entries_within(chars@.len(), r.0@)
            &&& entries_text(chars@, r.0@) == nb
            &&& r.1 == has_selected_change(body, selected@)
            &&& r.2 == count_side(nb, '-')
            &&& r.3 == count_side(nb, '+')
        }),
{
    let ghost ls = spans_text(chars@, spans@);
    let ghost body = ls.subrange(lo as int, hi as int);
    let mut new_body: Vec<(usize, usize, bool)> = Vec::new();
    let mut has_selected = false;
    let mut count_old: usize = 0;
    let mut count_new: usize = 0;
    let mut i: usize = lo;
    assert(entries_text(chars@, new_body@) =~= patch_body(body.take(0), selected@, reverse));
    while i < hi
        invariant
            lo <= i <= hi <= spans@.len(),
            spans_within(chars@.len(), spans@),
            ls == spans_text(chars@, spans@),
            body == ls.subrange(lo as int, hi as int),
            obeys_key_model::<usize>(),
            entries_within(chars@.len(), new_body@),
            entries_text(chars@, new_body@) == patch_body(body.take(i - lo), selected@, reverse),
            count_old <= new_body@.len() <= i - lo,
            count_new <= new_body@.len(),
            has_selected == has_selected_change(body.take(i - lo), selected@),
            count_old == count_side(patch_body(body.take(i - lo), selected@, reverse), '-'),
            count_new == count_side(patch_body(body.take(i - lo), selected@, reverse), '+'),
        decreases hi - i,
    {
        let (a, b) = spans[i];
        let bi = i - lo;
        let ghost line = chars@.subrange(a as int, b as int);
        let ghost pre = body.take(bi as int);
        let ghost cur = body.take(bi + 1);
        proof {
            assert(cur.drop_last() =~= pre);
            assert(body[bi as int] == line);
            assert(cur.last() == line);
        }
        let change = span_starts_with(chars, a, b, '+') || span_starts_with(chars, a, b, '-');
        let picked = change && selected.contains(&bi);
        proof {
            assert(picked == (spec_is_change(line) && selected@.contains(bi)));
            if has_selected_change(pre, selected@) {
                let w = choose|w: int|
                    0 <= w < pre.len() && spec_is_change(#[trigger] pre[w]) && selected@.contains(
                        w as usize,
                    );
                assert(cur[w] == pre[w]);
            }
            if has_selected_change(cur, selected@) && !has_selected_change(pre, selected@) {
                let w = choose|w: int|
                    0 <= w < cur.len() && spec_is_change(#[trigger] cur[w]) && selected@.contains(
                        w as usize,
                    );
                if w < pre.len() {
                    assert(pre[w] == cur[w]);
                }
            }
            if picked {
                assert(cur[bi as int] == line);
            }
        }
        has_selected = has_selected || picked;
        let entry = patch_entry(chars, a, b, bi, selected, reverse);
        match entry {
            Some(e) => {
                proof {
                    let nb = patch_body(cur, selected@, reverse);
                    assert(nb == patch_body(pre, selected@, reverse).push(body_text(chars@, e)));
                    assert(nb.drop_last() =~= patch_body(pre, selected@, reverse));
                }
                if counts_on(chars, e, '-') {
                    count_old = count_old + 1;
                }
                if counts_on(chars, e, '+') {
                    count_new = count_new + 1;
                }
                let ghost before = new_body@;
                new_body.push(e);
                proof {
                    assert(entries_text(chars@, new_body@) =~= entries_text(chars@, before).push(
                        body_text(chars@, e),
                    ));
                }
            },
            None => {
                assert(patch_body(cur, selected@, reverse) == patch_body(pre, selected@, reverse));
            },
        }
        i += 1;
    }
    assert(body.take(hi - lo) =~= body);
    (new_body, has_selected, count_old, count_new)
}

/// Appends the new body lines, each followed by a newline.
fn push_entries(out: &mut Vec<char>, chars: &Vec<char>, es: &Vec<(usize, usize, bool)>)
    requires
        entries_within(chars@.len(), es@),
    ensures
        final(out)@ == old(out)@ + join_lines(entries_text(chars@, es@)),
{
    let ghost start = out@;
    let ghost ts = entries_text(chars@, es@);
    let mut k: usize = 0;
    assert(ts.take(0) =~= Seq::<Seq<char>>::empty());
    assert(start + Seq::<char>::empty() =~= start);
    while k < es.len()
        invariant
            0 <= k <= es@.len(),
            entries_within(chars@.len(), es@),
            ts == entries_text(chars@, es@),
            out@ == start + join_lines(ts.take(k as int)),
        decreases es@.len() - k,
    {
        let (a, b, ctx) = es[k];
        let ghost prev = out@;
        let q: usize = if ctx { a + 1 } else { a };
        if ctx {
            out.push(' ');
        }
        let ghost after_first = out@;
        let mut p = q;
        while p < b
            invariant
                q <= p <= b <= chars@.len(),
                out@ == after_first + chars@.subrange(q as int, p as int),
            decreases b - p,
        {
            out.push(chars[p]);
            assert(chars@.subrange(q as int, p + 1) =~= chars@.subrange(q as int, p as int).push(
                chars@[p as int],
            ));
            p += 1;
        }
        out.push('\n');
        proof {
            let t = ts.take(k + 1);
            assert(t.drop_last() =~= ts.take(k as int));
            assert(t.last() == body_text(chars@, (a, b, ctx)));
            assert(out@ =~= start + join_lines(t));
        }
        k += 1;
    }
    assert(ts.take(es@.len() as int) =~= ts);
}

/// Appends `@@ -{old},{old_count} +{new},{new_count} @@` and a newline.
fn push_hunk_header(out: &mut Vec<char>, old_start: u32, old_count: usize, new_start: u32, new_count: usize)
    ensures
        final(out)@ == old(out)@ + hunk_header_text(
            old_start as nat,
            old_count as nat,
            new_start as nat,
            new_count as nat,
        ),
{
    out.push('@');
    out.push('@');
    out.push(' ');
    out.push('-');
    push_decimal(out, old_start as usize);
    out.push(',');
    push_decimal(out, old_count);
    out.push(' ');
    out.push('+');
    push_decimal(out, new_start as usize);
    out.push(',');
    push_decimal(out, new_count);
    out.push(' ');
    out.push('@');
    out.push('@');
    out.push('\n');
    assert(out@ =~= old(out)@ + hunk_header_text(
        old_start as nat,
        old_count as nat,
        new_start as nat,
        new_count as nat,
    ));
}

/// A patch applying only the selected `+`/`-` lines of one hunk.
/// `selected` holds indices into the hunk body (the lines after `@@`).
///
/// The patch applies to the side that still has the unselected changes'
/// "before" state. Staging (`reverse=false`) applies to the index, which holds
/// the `-` lines but not the `+` lines: unselected `-` become context and
/// unselected `+` are dropped. Unstaging or discarding (`reverse=true`) applies
/// in reverse to a side holding the `+` lines, so the roles swap.
///
/// `None` if no selected index is a change line.
pub fn lines_patch(diff: &str, hunk_index: usize, selected: &HashSet<usize>, reverse: bool) -> (r:
    Option<String>)
    ensures
        r matches Some(p) ==> spec_lines_patch(diff@, hunk_index as int, selected@, reverse) == Some(
            p@,
        ),
        r is None ==> spec_lines_patch(diff@, hunk_index as int, selected@, reverse) is None,
{
    let hunks = match Hunks::parse(diff) {
        Some(h) => h,
        None => return None,
    };
    let (start, end) = match hunks.hunk(hunk_index) {
        Some(r) => r,
        None => return None,
    };
    let ghost ls = hunks.lines();
    let n_lines = hunks.spans.len();
    proof {
        assert(ls.len() == hunks.spans@.len());
        assert(hunk_index < hunks.starts@.len());
        lemma_hunk_range(ls, hunk_index as int);
        let (lo, hi) = hunk_range(ls, hunk_index as int);
        assert(0 <= lo < hi <= ls.len());
        assert(lo == start && hi == end);
    }
    let chars = &hunks.chars;
    let spans = &hunks.spans;
    let (hlo, hhi) = spans[start];
    assert(ls[start as int] == chars@.subrange(hlo as int, hhi as int));
    let (old_start, new_start) = match parse_hunk_starts_in(chars, hlo, hhi) {
        Some(s) => s,
        None => return None,
    };
    assert(obeys_key_model::<usize>());
    let (new_body, has_selected, count_old, count_new) = build_patch_body(
        chars,
        spans,
        start + 1,
        end,
        selected,
        reverse,
    );
    if !has_selected {
        return None;
    }
    let mut patch: Vec<char> = Vec::new();
    let header_end = hunks.file_header();
    push_lines(&mut patch, chars, spans, 0, header_end);
    push_hunk_header(&mut patch, old_start, count_old, new_start, count_new);
    push_entries(&mut patch, chars, &new_body);
    proof {
        assert(ls.subrange(0, header_end as int) =~= ls.take(header_end as int));
        let (lo, hi) = hunk_range(ls, hunk_index as int);
        assert(lo == start && hi == end);
        assert(spec_parse_hunk_starts(ls[lo]) == Some((old_start, new_start)));
    }
    Some(string_of(&patch))
}

} // verus!
