//! Character-level helpers shared by the parsers and the post-processor.
//!
//! Texts are handled as sequences of Unicode scalar values; every function
//! here is stated over `Seq<char>`.

use vstd::prelude::*;

verus! {

/// Appending one character extends the text by exactly that character
/// (`String::push` of the standard library).
pub assume_specification[ String::push ](s: &mut String, c: char)
    ensures
        final(s)@ == old(s)@.push(c),
;

/// The characters of a string slice, in order.
pub fn chars_of(s: &str) -> (v: Vec<char>)
    ensures
        v@ == s@,
{
    let mut v: Vec<char> = Vec::new();
    for c in it: s.chars()
        invariant
            it.seq() == s@,
            v@ == s@.take(it.index() as int),
    {
        v.push(c);
        assert(s@.take(it.index() + 1) =~= s@.take(it.index() as int).push(c));
    }
    assert(s@.take(s@.len() as int) =~= s@);
    v
}

/// The string made of the given characters, in order.
pub fn string_of(v: &[char]) -> (s: String)
    ensures
        s@ == v@,
{
    let mut s = String::new();
    let mut i: usize = 0;
    while i < v.len()
        invariant
            i <= v.len(),
            s@ == v@.take(i as int),
        decreases v.len() - i,
    {
        s.push(v[i]);
        assert(v@.take(i + 1) =~= v@.take(i as int).push(v@[i as int]));
        i += 1;
    }
    assert(v@.take(v@.len() as int) =~= v@);
    s
}

/// A copy of the characters from `from` up to, not including, `to`.
pub fn slice_of(s: &[char], from: usize, to: usize) -> (v: Vec<char>)
    requires
        from <= to <= s.len(),
    ensures
        v@ == s@.subrange(from as int, to as int),
{
    let mut v: Vec<char> = Vec::new();
    let mut i: usize = from;
    while i < to
        invariant
            from <= i <= to <= s.len(),
            v@ == s@.subrange(from as int, i as int),
        decreases to - i,
    {
        v.push(s[i]);
        assert(s@.subrange(from as int, i + 1) =~= s@.subrange(from as int, i as int).push(
            s@[i as int],
        ));
        i += 1;
    }
    v
}

/// Whether `s` begins with `p`.
pub fn starts_with(s: &[char], p: &[char]) -> (b: bool)
    ensures
        b == p@.is_prefix_of(s@),
{
    if p.len() > s.len() {
        return false;
    }
    let mut i: usize = 0;
    while i < p.len()
        invariant
            i <= p.len() <= s.len(),
            forall|j: int| 0 <= j < i ==> s@[j] == p@[j],
        decreases p.len() - i,
    {
        if s[i] != p[i] {
            assert(s@.subrange(0, p@.len() as int)[i as int] != p@[i as int]);
            return false;
        }
        i += 1;
    }
    assert(p@ =~= s@.subrange(0, p@.len() as int));
    true
}

/// Whether `s` ends with `p`.
pub fn ends_with(s: &[char], p: &[char]) -> (b: bool)
    ensures
        b == p@.is_suffix_of(s@),
{
    if p.len() > s.len() {
        return false;
    }
    let off: usize = s.len() - p.len();
    let mut i: usize = 0;
    while i < p.len()
        invariant
            i <= p.len() <= s.len(),
            off == s.len() - p.len(),
            forall|j: int| 0 <= j < i ==> s@[off + j] == p@[j],
        decreases p.len() - i,
    {
        if s[off + i] != p[i] {
            assert(s@.subrange(off as int, s@.len() as int)[i as int] != p@[i as int]);
            return false;
        }
        i += 1;
    }
    assert(p@ =~= s@.subrange(off as int, s@.len() as int));
    true
}

/// Whether two texts are the same.
pub fn same_text(a: &[char], b: &[char]) -> (r: bool)
    ensures
        r == (a@ == b@),
{
    if a.len() != b.len() {
        return false;
    }
    let r = starts_with(a, b);
    proof {
        if r {
            assert(a@.subrange(0, a@.len() as int) =~= a@);
        } else if a@ == b@ {
            assert(b@ =~= a@.subrange(0, b@.len() as int));
        }
    }
    r
}

/// `p` occurs in `s` starting at index `at`.
pub open spec fn occurs_at(s: Seq<char>, p: Seq<char>, at: int) -> bool {
    0 <= at && at + p.len() <= s.len() && s.subrange(at, at + p.len()) == p
}

/// `p` occurs somewhere in `s` as a contiguous run.
pub open spec fn contains(s: Seq<char>, p: Seq<char>) -> bool {
    exists|at: int| occurs_at(s, p, at)
}

fn matches_at(s: &[char], p: &[char], at: usize) -> (b: bool)
    requires
        at + p.len() <= s.len(),
    ensures
        b == occurs_at(s@, p@, at as int),
{
    let mut i: usize = 0;
    while i < p.len()
        invariant
            i <= p.len(),
            at + p.len() <= s.len(),
            forall|j: int| 0 <= j < i ==> s@[at + j] == p@[j],
        decreases p.len() - i,
    {
        if s[at + i] != p[i] {
            assert(s@.subrange(at as int, at + p@.len())[i as int] != p@[i as int]);
            return false;
        }
        i += 1;
    }
    assert(s@.subrange(at as int, at + p@.len()) =~= p@);
    true
}

/// Whether `p` occurs in `s` as a contiguous run; the empty text occurs in
/// every text.
pub fn find(s: &[char], p: &[char]) -> (b: bool)
    ensures
        b == contains(s@, p@),
{
    if p.len() > s.len() {
        return false;
    }
    let last: usize = s.len() - p.len();
    let mut at: usize = 0;
    while at < last
        invariant
            at <= last,
            last == s.len() - p.len(),
            forall|k: int| 0 <= k < at ==> !occurs_at(s@, p@, k),
        decreases last - at,
    {
        if matches_at(s, p, at) {
            return true;
        }
        at += 1;
    }
    matches_at(s, p, last)
}

/// The index of the first `sep` at or after `from`, or the length of `s`
/// where none follows.
pub open spec fn next_sep(s: Seq<char>, sep: char, from: int) -> int
    decreases s.len() - from,
{
    if 0 <= from < s.len() && s[from] != sep {
        next_sep(s, sep, from + 1)
    } else {
        from
    }
}

/// The fields of `s` from index `from` on, where `sep` parts one field
/// from the next.
pub open spec fn fields_from(s: Seq<char>, sep: char, from: int) -> Seq<Seq<char>>
    decreases s.len() - from,
{
    let end = next_sep(s, sep, from);
    if 0 <= from <= end < s.len() {
        seq![s.subrange(from, end)] + fields_from(s, sep, end + 1)
    } else {
        seq![s.subrange(from, s.len() as int)]
    }
}

/// The fields of `s`: the runs between separators, in order. A text
/// without a separator is one field; the empty text is one empty field.
pub open spec fn fields(s: Seq<char>, sep: char) -> Seq<Seq<char>> {
    fields_from(s, sep, 0)
}

pub open spec fn free_of(s: Seq<char>, sep: char) -> bool {
    forall|i: int| 0 <= i < s.len() ==> s[i] != sep
}

proof fn lemma_next_sep_bounds(s: Seq<char>, sep: char, from: int)
    requires
        0 <= from <= s.len(),
    ensures
        from <= next_sep(s, sep, from) <= s.len(),
        forall|i: int| from <= i < next_sep(s, sep, from) ==> s[i] != sep,
        next_sep(s, sep, from) < s.len() ==> s[next_sep(s, sep, from)] == sep,
    decreases s.len() - from,
{
    if from < s.len() && s[from] != sep {
        lemma_next_sep_bounds(s, sep, from + 1);
    }
}

proof fn lemma_next_sep_is(s: Seq<char>, sep: char, from: int, end: int)
    requires
        0 <= from <= end <= s.len(),
        forall|i: int| from <= i < end ==> s[i] != sep,
        end < s.len() ==> s[end] == sep,
    ensures
        next_sep(s, sep, from) == end,
    decreases end - from,
{
    if from < end {
        lemma_next_sep_is(s, sep, from + 1, end);
    }
}

proof fn lemma_fields_shift(x: Seq<char>, y: Seq<char>, sep: char, k: int)
    requires
        0 <= k <= y.len(),
    ensures
        fields_from(x + y, sep, x.len() + k) == fields_from(y, sep, k),
    decreases y.len() - k,
{
    let s = x + y;
    let end = next_sep(y, sep, k);
    lemma_next_sep_bounds(y, sep, k);
    assert forall|i: int| x.len() + k <= i < x.len() + end implies s[i] != sep by {
        assert(s[i] == y[i - x.len()]);
    }
    if end < y.len() {
        assert(s[x.len() + end] == y[end]);
    }
    lemma_next_sep_is(s, sep, x.len() + k, x.len() + end);
    if end < y.len() {
        lemma_fields_shift(x, y, sep, end + 1);
        assert(s.subrange(x.len() + k, x.len() + end) =~= y.subrange(k, end));
    } else {
        assert(s.subrange(x.len() + k, s.len() as int) =~= y.subrange(k, y.len() as int));
    }
}

/// A text without a separator is its own single field.
pub proof fn lemma_fields_single(a: Seq<char>, sep: char)
    requires
        free_of(a, sep),
    ensures
        fields(a, sep) == seq![a],
{
    lemma_next_sep_is(a, sep, 0, a.len() as int);
    assert(a.subrange(0, a.len() as int) =~= a);
}

/// Joining a separator-free text and any text with a separator puts the
/// first in front of the fields of the second.
pub proof fn lemma_fields_join(a: Seq<char>, b: Seq<char>, sep: char)
    requires
        free_of(a, sep),
    ensures
        fields(a.push(sep) + b, sep) == seq![a] + fields(b, sep),
{
    let x = a.push(sep);
    let s = x + b;
    assert forall|i: int| 0 <= i < a.len() implies s[i] != sep by {
        assert(s[i] == a[i]);
    }
    assert(s[a.len() as int] == sep);
    lemma_next_sep_is(s, sep, 0, a.len() as int);
    lemma_fields_shift(x, b, sep, 0);
    assert(s.subrange(0, a.len() as int) =~= a);
}

/// Parts `s` at every `sep` into its fields.
pub fn split(s: &[char], sep: char) -> (parts: Vec<Vec<char>>)
    ensures
        parts@.len() == fields(s@, sep).len(),
        parts@.len() >= 1,
        forall|i: int| 0 <= i < parts@.len() ==> (#[trigger] parts@[i])@ == fields(s@, sep)[i],
{
    let mut parts: Vec<Vec<char>> = Vec::new();
    let ghost mut done: Seq<Seq<char>> = Seq::empty();
    let mut start: usize = 0;
    loop
        invariant_except_break
            fields(s@, sep) == done + fields_from(s@, sep, start as int),
        invariant
            start <= s.len(),
            parts@.len() == done.len(),
            forall|i: int| 0 <= i < parts@.len() ==> (#[trigger] parts@[i])@ == done[i],
        ensures
            fields(s@, sep) == done,
            parts@.len() == fields(s@, sep).len(),
            parts@.len() >= 1,
            forall|i: int|
                0 <= i < parts@.len() ==> (#[trigger] parts@[i])@ == fields(s@, sep)[i],
        decreases s.len() - start,
    {
        let mut end: usize = start;
        while end < s.len() && s[end] != sep
            invariant
                start <= end <= s.len(),
                next_sep(s@, sep, start as int) == next_sep(s@, sep, end as int),
            decreases s.len() - end,
        {
            end += 1;
        }
        let part = slice_of(s, start, end);
        proof {
            let rest = fields_from(s@, sep, start as int);
            if end < s.len() {
                assert(rest == seq![part@] + fields_from(s@, sep, end + 1));
                assert(done + rest =~= done.push(part@) + fields_from(s@, sep, end + 1));
            } else {
                assert(rest == seq![part@]);
                assert(done + rest =~= done.push(part@));
            }
            done = done.push(part@);
        }
        parts.push(part);
        if end < s.len() {
            start = end + 1;
        } else {
            break;
        }
    }
    parts
}

/// The characters with the Unicode property `White_Space`, which the
/// standard library's `char::is_whitespace` tells apart.
pub open spec fn whitespace(c: char) -> bool {
    let u = c as u32;
    (0x09 <= u <= 0x0d) || u == 0x20 || u == 0x85 || u == 0xa0 || u == 0x1680 || (0x2000 <= u
        <= 0x200a) || u == 0x2028 || u == 0x2029 || u == 0x202f || u == 0x205f || u == 0x3000
}

/// The ASCII punctuation characters, as `char::is_ascii_punctuation` has them.
pub open spec fn punctuation(c: char) -> bool {
    let u = c as u32;
    (0x21 <= u <= 0x2f) || (0x3a <= u <= 0x40) || (0x5b <= u <= 0x60) || (0x7b <= u <= 0x7e)
}

pub fn is_whitespace(c: char) -> (b: bool)
    ensures
        b == whitespace(c),
{
    let u: u32 = c as u32;
    (0x09 <= u && u <= 0x0d) || u == 0x20 || u == 0x85 || u == 0xa0 || u == 0x1680 || (0x2000
        <= u && u <= 0x200a) || u == 0x2028 || u == 0x2029 || u == 0x202f || u == 0x205f || u
        == 0x3000
}

pub fn is_punctuation(c: char) -> (b: bool)
    ensures
        b == punctuation(c),
{
    let u: u32 = c as u32;
    (0x21 <= u && u <= 0x2f) || (0x3a <= u && u <= 0x40) || (0x5b <= u && u <= 0x60) || (0x7b
        <= u && u <= 0x7e)
}

/// The index of the first character at or after `from` that is no
/// whitespace, or the length of `s`.
pub open spec fn skip_whitespace(s: Seq<char>, from: int) -> int
    decreases s.len() - from,
{
    if 0 <= from < s.len() && whitespace(s[from]) {
        skip_whitespace(s, from + 1)
    } else {
        from
    }
}

/// The index just behind the last character before `to` that is no
/// whitespace, or `0`.
pub open spec fn back_whitespace(s: Seq<char>, to: int) -> int
    decreases to,
{
    if 0 < to <= s.len() && whitespace(s[to - 1]) {
        back_whitespace(s, to - 1)
    } else {
        to
    }
}

/// `s` without the whitespace at its two ends.
pub open spec fn trimmed(s: Seq<char>) -> Seq<char> {
    let from = skip_whitespace(s, 0);
    if from >= s.len() {
        Seq::empty()
    } else {
        s.subrange(from, back_whitespace(s, s.len() as int))
    }
}

proof fn lemma_back_whitespace_stops(s: Seq<char>, to: int, keep: int)
    requires
        0 <= keep < to <= s.len(),
        !whitespace(s[keep]),
    ensures
        keep < back_whitespace(s, to) <= to,
    decreases to,
{
    if whitespace(s[to - 1]) {
        lemma_back_whitespace_stops(s, to - 1, keep);
    }
}

/// Where the trimmed text lies in `s`.
pub fn trim_bounds(s: &[char]) -> (r: (usize, usize))
    ensures
        r.0 <= r.1 <= s.len(),
        s@.subrange(r.0 as int, r.1 as int) == trimmed(s@),
{
    let mut from: usize = 0;
    while from < s.len() && is_whitespace(s[from])
        invariant
            from <= s.len(),
            skip_whitespace(s@, 0) == skip_whitespace(s@, from as int),
        decreases s.len() - from,
    {
        from += 1;
    }
    if from >= s.len() {
        assert(s@.subrange(from as int, from as int) =~= Seq::<char>::empty());
        return (from, from);
    }
    let mut to: usize = s.len();
    proof {
        lemma_back_whitespace_stops(s@, s@.len() as int, from as int);
    }
    while to > 0 && is_whitespace(s[to - 1])
        invariant
            to <= s.len(),
            back_whitespace(s@, s@.len() as int) == back_whitespace(s@, to as int),
        decreases to,
    {
        to -= 1;
    }
    (from, to)
}

} // verus!
