//! Character-level helpers shared by the parsers.

use vstd::prelude::*;

verus! {

broadcast use vstd::string::axiom_spec_iter;

/// The characters of `s`, in order.
pub fn chars_of(s: &str) -> (r: Vec<char>)
    ensures
        r@ == s@,
{
    let mut v: Vec<char> = Vec::new();
    for c in it: s.chars()
        invariant
            v@ == it.seq().take(it.index()),
    {
        v.push(c);
    }
    v
}

/// `String::push`: appends `c` to the end of `s`.
#[verifier::external_body]
fn push_char(s: &mut String, c: char)
    ensures
        final(s)@ == old(s)@.push(c),
{
    s.push(c)
}

/// `String::pop`: removes and returns the last character, or returns
/// `None` and leaves `s` alone when it is empty.
#[verifier::external_body]
pub(crate) fn pop_char(s: &mut String) -> (r: Option<char>)
    ensures
        old(s)@.len() == 0 ==> r is None && final(s)@ == old(s)@,
        old(s)@.len() > 0 ==> r == Some(old(s)@.last()) && final(s)@ == old(s)@.drop_last(),
{
    s.pop()
}

/// `String::push`, for other modules.
pub fn push_str_char(s: &mut String, c: char)
    ensures
        final(s)@ == old(s)@.push(c),
{
    push_char(s, c)
}

/// The strings of a sequence, as characters.
pub open spec fn strings_view(v: Seq<String>) -> Seq<Seq<char>> {
    v.map_values(|s: String| s@)
}

/// Whether two strings hold the same characters.
pub(crate) fn str_eq(a: &str, b: &str) -> (r: bool)
    ensures
        r == (a@ == b@),
{
    let x = chars_of(a);
    let y = chars_of(b);
    if x.len() != y.len() {
        return false;
    }
    let mut i: usize = 0;
    while i < x.len()
        invariant
            x@ == a@,
            y@ == b@,
            x@.len() == y@.len(),
            i <= x@.len(),
            forall|j: int| 0 <= j < i ==> x@[j] == y@[j],
        decreases x@.len() - i,
    {
        if x[i] != y[i] {
            return false;
        }
        i += 1;
    }
    assert(x@ =~= y@);
    true
}

/// What `str::to_lowercase` gives for `s`: each character's Unicode lower-case mapping.
pub uninterp spec fn lowercase(s: Seq<char>) -> Seq<char>;

/// `str::to_lowercase`.
#[verifier::external_body]
pub(crate) fn to_lowercase(s: &str) -> (r: String)
    ensures
        r@ == lowercase(s@),
{
    s.to_lowercase()
}

/// Whether `needle` occurs in `hay` as a contiguous run.
pub open spec fn contains_seq(hay: Seq<char>, needle: Seq<char>) -> bool {
    exists|i: int|
        0 <= i && i + needle.len() <= hay.len() && #[trigger] hay.subrange(i, i + needle.len()) == needle
}

/// Whether `hay[i..]` starts with `needle`.
fn matches_at(hay: &Vec<char>, needle: &Vec<char>, i: usize) -> (r: bool)
    requires
        i + needle@.len() <= hay@.len(),
    ensures
        r == (hay@.subrange(i as int, i + needle@.len()) == needle@),
{
    let h = hay.len();
    let mut k: usize = 0;
    while k < needle.len()
        invariant
            h == hay@.len(),
            i + needle@.len() <= hay@.len(),
            k <= needle@.len(),
            forall|j: int| 0 <= j < k ==> hay@[i + j] == needle@[j],
        decreases needle@.len() - k,
    {
        if hay[i + k] != needle[k] {
            assert(hay@.subrange(i as int, i + needle@.len())[k as int] != needle@[k as int]);
            return false;
        }
        k += 1;
    }
    assert(hay@.subrange(i as int, i + needle@.len()) =~= needle@);
    true
}

/// Whether `needle` occurs in `hay` (`str::contains`).
pub fn chars_contain(hay: &Vec<char>, needle: &Vec<char>) -> (r: bool)
    ensures
        r == contains_seq(hay@, needle@),
{
    if needle.len() > hay.len() {
        return false;
    }
    let last = hay.len() - needle.len();
    let mut i: usize = 0;
    loop
        invariant
            i <= last,
            last + needle@.len() == hay@.len(),
            forall|j: int| 0 <= j < i ==> #[trigger] hay@.subrange(j, j + needle@.len()) != needle@,
        decreases last - i,
    {
        if matches_at(hay, needle, i) {
            return true;
        }
        if i == last {
            return false;
        }
        i += 1;
    }
}

/// The string whose characters are `v[lo..hi]`.
pub fn string_of_range(v: &Vec<char>, lo: usize, hi: usize) -> (r: String)
    requires
        lo <= hi <= v.len(),
    ensures
        r@ == v@.subrange(lo as int, hi as int),
{
    let mut s = String::new();
    let mut i = lo;
    while i < hi
        invariant
            lo <= i <= hi <= v.len(),
            s@ == v@.subrange(lo as int, i as int),
        decreases hi - i,
    {
        push_char(&mut s, v[i]);
        assert(v@.subrange(lo as int, i + 1) =~= v@.subrange(lo as int, i as int).push(v@[i as int]));
        i += 1;
    }
    s
}

/// The string whose characters are `v`.
pub fn string_of(v: &Vec<char>) -> (r: String)
    ensures
        r@ == v@,
{
    let r = string_of_range(v, 0, v.len());
    assert(v@.subrange(0, v@.len() as int) =~= v@);
    r
}

/// Whether `s` begins with the character `c`.
pub open spec fn starts_with_char(s: Seq<char>, c: char) -> bool {
    s.len() > 0 && s[0] == c
}

/// Index of the first `c` in `s`, or `s.len()` when there is none.
pub open spec fn first_index_of(s: Seq<char>, c: char) -> nat
    decreases s.len(),
{
    if s.len() == 0 {
        0
    } else if s[0] == c {
        0
    } else {
        1 + first_index_of(s.drop_first(), c)
    }
}

/// `first_index_of` is the position of the first occurrence.
pub proof fn lemma_first_index_of(s: Seq<char>, c: char, k: int)
    requires
        0 <= k <= s.len(),
        forall|j: int| 0 <= j < k ==> s[j] != c,
        k == s.len() || s[k] == c,
    ensures
        first_index_of(s, c) == k,
    decreases s.len(),
{
    if s.len() > 0 && s[0] != c {
        lemma_first_index_of(s.drop_first(), c, k - 1);
    }
}

/// What `first_index_of` says of the characters before it.
pub proof fn lemma_first_index_of_props(s: Seq<char>, c: char)
    ensures
        first_index_of(s, c) <= s.len(),
        forall|j: int| 0 <= j < first_index_of(s, c) ==> s[j] != c,
        first_index_of(s, c) < s.len() ==> s[first_index_of(s, c) as int] == c,
    decreases s.len(),
{
    if s.len() > 0 && s[0] != c {
        lemma_first_index_of_props(s.drop_first(), c);
        assert forall|j: int| 0 <= j < first_index_of(s, c) implies s[j] != c by {
            if j > 0 {
                assert(s[j] == s.drop_first()[j - 1]);
            }
        }
    }
}

/// Index of the first `c` in `v[lo..]`, as an index into `v`.
pub fn find_char_from(v: &Vec<char>, lo: usize, c: char) -> (r: usize)
    requires
        lo <= v.len(),
    ensures
        r == lo + first_index_of(v@.skip(lo as int), c),
        lo <= r <= v.len(),
{
    let mut i = lo;
    while i < v.len() && v[i] != c
        invariant
            lo <= i <= v.len(),
            forall|j: int| lo <= j < i ==> v@[j] != c,
        decreases v.len() - i,
    {
        i += 1;
    }
    proof {
        lemma_first_index_of(v@.skip(lo as int), c, i - lo);
    }
    i
}

/// A line without its trailing carriage return, as `str::lines` yields it
/// when the line ended in `\r\n`.
pub open spec fn strip_cr(l: Seq<char>) -> Seq<char> {
    if l.len() > 0 && l.last() == '\r' {
        l.drop_last()
    } else {
        l
    }
}

/// The lines of `s` as `str::lines` yields them: split at `\n`, a `\r`
/// before the `\n` removed, and no empty line after a final `\n`.
pub open spec fn lines_of(s: Seq<char>) -> Seq<Seq<char>>
    decreases s.len(),
{
    if s.len() == 0 {
        seq![]
    } else {
        let k = first_index_of(s, '\n');
        if k >= s.len() {
            seq![s]
        } else {
            seq![strip_cr(s.take(k as int))] + lines_of(s.skip(k as int + 1))
        }
    }
}

/// A non-empty text has at least one line.
pub proof fn lemma_lines_of_nonempty(s: Seq<char>)
    requires
        s.len() > 0,
    ensures
        lines_of(s).len() > 0,
{
}

/// The text of one span `[sp.0, sp.1)` of `chars`.
pub open spec fn span_text(chars: Seq<char>, sp: (usize, usize)) -> Seq<char> {
    chars.subrange(sp.0 as int, sp.1 as int)
}

/// The texts of a sequence of spans.
pub open spec fn spans_text(chars: Seq<char>, spans: Seq<(usize, usize)>) -> Seq<Seq<char>> {
    spans.map_values(|sp: (usize, usize)| span_text(chars, sp))
}

/// Every span lies inside `chars`.
pub open spec fn spans_within(len: nat, spans: Seq<(usize, usize)>) -> bool {
    forall|i: int| 0 <= i < spans.len() ==> (#[trigger] spans[i]).0 <= spans[i].1 <= len
}

/// The spans of the lines of `chars` (see `lines_of`).
pub fn line_spans(chars: &Vec<char>) -> (r: Vec<(usize, usize)>)
    ensures
        spans_within(chars@.len(), r@),
        spans_text(chars@, r@) == lines_of(chars@),
{
    let mut out: Vec<(usize, usize)> = Vec::new();
    let mut start: usize = 0;
    let len = chars.len();
    assert(chars@.skip(0) =~= chars@);
    while start < len
        invariant
            len == chars.len(),
            start <= len,
            spans_within(chars@.len(), out@),
            lines_of(chars@) == spans_text(chars@, out@) + lines_of(chars@.skip(start as int)),
        decreases len - start,
    {
        let i = find_char_from(chars, start, '\n');
        let ghost rest = chars@.skip(start as int);
        let ghost old_out = out@;
        if i < len {
            let mut end = i;
            if end > start && chars[end - 1] == '\r' {
                end = end - 1;
            }
            out.push((start, end));
            proof {
                assert(rest.take(i - start) =~= chars@.subrange(start as int, i as int));
                assert(strip_cr(rest.take(i - start)) =~= chars@.subrange(start as int, end as int));
                assert(rest.skip(i - start + 1) =~= chars@.skip(i + 1));
                assert(spans_text(chars@, out@) =~= spans_text(chars@, old_out).push(
                    chars@.subrange(start as int, end as int)));
                assert(lines_of(rest) =~= seq![strip_cr(rest.take(i - start))] + lines_of(rest.skip(i - start + 1)));
            }
            start = i + 1;
        } else {
            out.push((start, len));
            proof {
                assert(rest =~= chars@.subrange(start as int, len as int));
                assert(spans_text(chars@, out@) =~= spans_text(chars@, old_out).push(rest));
                assert(chars@.skip(len as int) =~= Seq::<char>::empty());
                assert(lines_of(chars@.skip(len as int)) =~= Seq::<Seq<char>>::empty());
            }
            start = len;
        }
    }
    proof {
        assert(chars@.skip(len as int) =~= Seq::<char>::empty());
    }
    out
}


/// Whether `c` has the Unicode `White_Space` property, as `char::is_whitespace`
/// tests it.
pub open spec fn is_white_space(c: char) -> bool {
    let x = c as u32;
    (0x9 <= x && x <= 0xd) || x == 0x20 || x == 0x85 || x == 0xa0 || x == 0x1680
        || (0x2000 <= x && x <= 0x200a) || x == 0x2028 || x == 0x2029 || x == 0x202f
        || x == 0x205f || x == 0x3000
}

/// `is_white_space`, computed.
pub fn white_space(c: char) -> (r: bool)
    ensures
        r == is_white_space(c),
{
    let x = c as u32;
    (0x9 <= x && x <= 0xd) || x == 0x20 || x == 0x85 || x == 0xa0 || x == 0x1680
        || (0x2000 <= x && x <= 0x200a) || x == 0x2028 || x == 0x2029 || x == 0x202f
        || x == 0x205f || x == 0x3000
}

/// `s` without its leading white space.
pub open spec fn trim_start(s: Seq<char>) -> Seq<char>
    decreases s.len(),
{
    if s.len() > 0 && is_white_space(s[0]) {
        trim_start(s.drop_first())
    } else {
        s
    }
}

/// `s` without its trailing white space.
pub open spec fn trim_end(s: Seq<char>) -> Seq<char>
    decreases s.len(),
{
    if s.len() > 0 && is_white_space(s.last()) {
        trim_end(s.drop_last())
    } else {
        s
    }
}

/// `s` without white space at either end, as `str::trim` gives it.
pub open spec fn trim(s: Seq<char>) -> Seq<char> {
    trim_end(trim_start(s))
}

/// The bounds `[lo, hi)` of `trim(v[start..end])` inside `v`.
pub fn trim_bounds(v: &Vec<char>, start: usize, end: usize) -> (r: (usize, usize))
    requires
        start <= end <= v@.len(),
    ensures
        start <= r.0 <= r.1 <= end,
        v@.subrange(r.0 as int, r.1 as int) == trim(v@.subrange(start as int, end as int)),
        trim_start(v@.subrange(start as int, end as int)) == v@.subrange(r.0 as int, end as int),
{
    let mut lo = start;
    while lo < end && white_space(v[lo])
        invariant
            start <= lo <= end <= v@.len(),
            trim_start(v@.subrange(start as int, end as int)) == trim_start(v@.subrange(lo as int, end as int)),
        decreases end - lo,
    {
        assert(v@.subrange(lo as int, end as int).drop_first() =~= v@.subrange(lo + 1, end as int));
        lo += 1;
    }
    assert(trim_start(v@.subrange(lo as int, end as int)) == v@.subrange(lo as int, end as int));
    let mut hi = end;
    while hi > lo && white_space(v[hi - 1])
        invariant
            start <= lo <= hi <= end <= v@.len(),
            trim_end(v@.subrange(lo as int, end as int)) == trim_end(v@.subrange(lo as int, hi as int)),
        decreases hi - lo,
    {
        assert(v@.subrange(lo as int, hi as int).drop_last() =~= v@.subrange(lo as int, hi - 1));
        hi -= 1;
    }
    assert(trim_end(v@.subrange(lo as int, hi as int)) == v@.subrange(lo as int, hi as int));
    (lo, hi)
}

/// `str::trim`: `s` without white space at either end.
pub fn trim_str(s: &str) -> (r: String)
    ensures
        r@ == trim(s@),
{
    let v = chars_of(s);
    let (lo, hi) = trim_bounds(&v, 0, v.len());
    assert(v@.subrange(0, v@.len() as int) =~= v@);
    string_of_range(&v, lo, hi)
}

/// `str::trim_end`: `s` without trailing white space.
pub fn trim_end_str(s: &str) -> (r: String)
    ensures
        r@ == trim_end(s@),
{
    let v = chars_of(s);
    let mut hi = v.len();
    assert(v@.take(hi as int) =~= v@);
    while hi > 0 && white_space(v[hi - 1])
        invariant
            hi <= v@.len(),
            trim_end(v@) == trim_end(v@.take(hi as int)),
        decreases hi,
    {
        assert(v@.take(hi as int).drop_last() =~= v@.take(hi - 1));
        hi -= 1;
    }
    assert(v@.subrange(0, hi as int) =~= v@.take(hi as int));
    string_of_range(&v, 0, hi)
}

/// Index of the first `c` in `v[lo..hi]`, as an index into `v`; `hi` when
/// there is none.
pub fn find_char_in(v: &Vec<char>, lo: usize, hi: usize, c: char) -> (r: usize)
    requires
        lo <= hi <= v@.len(),
    ensures
        r == lo + first_index_of(v@.subrange(lo as int, hi as int), c),
        lo <= r <= hi,
{
    let mut i = lo;
    while i < hi && v[i] != c
        invariant
            lo <= i <= hi <= v@.len(),
            forall|j: int| lo <= j < i ==> v@[j] != c,
        decreases hi - i,
    {
        i += 1;
    }
    proof {
        lemma_first_index_of(v@.subrange(lo as int, hi as int), c, i - lo);
    }
    i
}

} // verus!
