//! Decimal integers and float literals as texts: what is accepted, what
//! value an accepted integer has, and how an integer is written.

use vstd::prelude::*;

verus! {

/// Why a text is not an integer of the wanted type.
#[derive(Debug, Clone, Copy, PartialEq, Eq, Structural)]
pub enum IntErrorKind {
    /// The text is empty.
    Empty,
    /// A character is not a decimal digit, or a sign stands alone.
    InvalidDigit,
    /// The value is above the type's largest.
    PosOverflow,
    /// The value is below the type's smallest.
    NegOverflow,
}

/// Why a text is not a float literal.
#[derive(Debug, Clone, Copy, PartialEq, Eq, Structural)]
pub enum FloatErrorKind {
    /// The text is empty.
    Empty,
    /// The text does not follow the grammar of float literals.
    Invalid,
}

pub open spec fn is_digit(c: char) -> bool {
    0x30 <= c as u32 <= 0x39
}

pub open spec fn digit_value(c: char) -> int {
    c as u32 - 0x30
}

pub open spec fn digit_char(d: int) -> char {
    (d + 0x30) as char
}

/// Reads `s` digit by digit, most significant first, starting from the
/// value `acc`. The first character that is no digit, or the first step
/// that leaves `lo ..= hi`, ends the reading with its error.
pub open spec fn scan_digits(s: Seq<char>, acc: int, negative: bool, lo: int, hi: int) -> Result<
    int,
    IntErrorKind,
>
    decreases s.len(),
{
    if s.len() == 0 {
        Ok(acc)
    } else if !is_digit(s[0]) {
        Err(IntErrorKind::InvalidDigit)
    } else {
        let next = if negative {
            acc * 10 - digit_value(s[0])
        } else {
            acc * 10 + digit_value(s[0])
        };
        if negative && next < lo {
            Err(IntErrorKind::NegOverflow)
        } else if !negative && next > hi {
            Err(IntErrorKind::PosOverflow)
        } else {
            scan_digits(s.drop_first(), next, negative, lo, hi)
        }
    }
}

/// The integer that the text `s` denotes among `lo ..= hi`: an optional
/// sign (`-` only where `signed`), then one or more decimal digits, and
/// nothing else.
pub open spec fn int_of_text(s: Seq<char>, signed: bool, lo: int, hi: int) -> Result<
    int,
    IntErrorKind,
> {
    if s.len() == 0 {
        Err(IntErrorKind::Empty)
    } else if s[0] == '+' || s[0] == '-' {
        if s.len() == 1 {
            Err(IntErrorKind::InvalidDigit)
        } else if s[0] == '-' && !signed {
            Err(IntErrorKind::InvalidDigit)
        } else {
            scan_digits(s.drop_first(), 0, s[0] == '-', lo, hi)
        }
    } else {
        scan_digits(s, 0, false, lo, hi)
    }
}

pub open spec fn i32_of_text(s: Seq<char>) -> Result<int, IntErrorKind> {
    int_of_text(s, true, i32::MIN as int, i32::MAX as int)
}

pub open spec fn u16_of_text(s: Seq<char>) -> Result<int, IntErrorKind> {
    int_of_text(s, false, 0, u16::MAX as int)
}

fn digit_of(c: char) -> (d: Option<i64>)
    ensures
        d is Some <==> is_digit(c),
        d is Some ==> d->0 == digit_value(c),
{
    let code: u32 = c as u32;
    if 0x30 <= code && code <= 0x39 {
        Some((code - 0x30) as i64)
    } else {
        None
    }
}

fn parse_bounded(s: &[char], signed: bool, lo: i64, hi: i64) -> (r: Result<i64, IntErrorKind>)
    requires
        -0x1_0000_0000 <= lo <= 0 <= hi <= 0x1_0000_0000,
    ensures
        r matches Ok(v) ==> lo <= v <= hi && int_of_text(s@, signed, lo as int, hi as int) == Ok::<
            int,
            IntErrorKind,
        >(v as int),
        r matches Err(k) ==> int_of_text(s@, signed, lo as int, hi as int) == Err::<
            int,
            IntErrorKind,
        >(k),
{
    if s.len() == 0 {
        return Err(IntErrorKind::Empty);
    }
    let mut negative = false;
    let mut i: usize = 0;
    if s[0] == '+' || s[0] == '-' {
        if s.len() == 1 {
            return Err(IntErrorKind::InvalidDigit);
        }
        if s[0] == '-' && !signed {
            return Err(IntErrorKind::InvalidDigit);
        }
        negative = s[0] == '-';
        i = 1;
    }
    let ghost start = i as int;
    let mut acc: i64 = 0;
    assert(s@.skip(0) =~= s@);
    assert(s@.skip(1) =~= s@.drop_first());
    while i < s.len()
        invariant
            start <= i <= s.len(),
            lo <= acc <= hi,
            negative ==> acc <= 0,
            !negative ==> acc >= 0,
            -0x1_0000_0000 <= lo <= 0 <= hi <= 0x1_0000_0000,
            int_of_text(s@, signed, lo as int, hi as int) == scan_digits(
                s@.skip(i as int),
                acc as int,
                negative,
                lo as int,
                hi as int,
            ),
        decreases s.len() - i,
    {
        let d = match digit_of(s[i]) {
            Some(d) => d,
            None => {
                return Err(IntErrorKind::InvalidDigit);
            },
        };
        let next: i64 = if negative {
            acc * 10 - d
        } else {
            acc * 10 + d
        };
        if negative && next < lo {
            return Err(IntErrorKind::NegOverflow);
        }
        if !negative && next > hi {
            return Err(IntErrorKind::PosOverflow);
        }
        assert(s@.skip(i as int).drop_first() =~= s@.skip(i + 1));
        acc = next;
        i += 1;
    }
    Ok(acc)
}

/// Reads a signed 32-bit integer as the standard library's `str::parse` does.
pub fn parse_i32(s: &[char]) -> (r: Result<i32, IntErrorKind>)
    ensures
        r matches Ok(v) ==> i32_of_text(s@) == Ok::<int, IntErrorKind>(v as int),
        r matches Err(k) ==> i32_of_text(s@) == Err::<int, IntErrorKind>(k),
{
    match parse_bounded(s, true, -0x8000_0000, 0x7fff_ffff) {
        Ok(v) => Ok(v as i32),
        Err(k) => Err(k),
    }
}

/// Reads an unsigned 16-bit integer as the standard library's `str::parse` does.
pub fn parse_u16(s: &[char]) -> (r: Result<u16, IntErrorKind>)
    ensures
        r matches Ok(v) ==> u16_of_text(s@) == Ok::<int, IntErrorKind>(v as int),
        r matches Err(k) ==> u16_of_text(s@) == Err::<int, IntErrorKind>(k),
{
    match parse_bounded(s, false, 0, 0xffff) {
        Ok(v) => Ok(v as u16),
        Err(k) => Err(k),
    }
}

/// The decimal digits of `n`, most significant first, without leading zeros.
pub open spec fn decimal(n: nat) -> Seq<char>
    decreases n,
{
    if n < 10 {
        seq![digit_char(n as int)]
    } else {
        decimal(n / 10).push(digit_char((n % 10) as int))
    }
}

/// How an integer is written: a minus sign where it is negative, then its
/// decimal digits.
pub open spec fn signed_decimal(v: int) -> Seq<char> {
    if v < 0 {
        seq!['-'] + decimal((-v) as nat)
    } else {
        decimal(v as nat)
    }
}

fn push_decimal(out: &mut String, n: u128)
    ensures
        final(out)@ == old(out)@ + decimal(n as nat),
    decreases n,
{
    if n >= 10 {
        push_decimal(out, n / 10);
    }
    let d: u8 = (n % 10) as u8;
    let c: char = (0x30 + d) as char;
    assert(c == digit_char((n % 10) as int));
    out.push(c);
    assert(final(out)@ =~= old(out)@ + decimal(n as nat));
}

/// Writes `n` in decimal.
pub fn decimal_string(n: u128) -> (s: String)
    ensures
        s@ == decimal(n as nat),
{
    let mut s = String::new();
    push_decimal(&mut s, n);
    assert(Seq::<char>::empty() + decimal(n as nat) =~= decimal(n as nat));
    s
}

/// Writes `v` in decimal, with a minus sign where it is negative.
pub fn i32_string(v: i32) -> (s: String)
    ensures
        s@ == signed_decimal(v as int),
{
    let mut s = String::new();
    if v < 0 {
        s.push('-');
        let m: i64 = -(v as i64);
        push_decimal(&mut s, m as u128);
        assert(Seq::<char>::empty().push('-') =~= seq!['-']);
    } else {
        push_decimal(&mut s, v as u128);
        assert(Seq::<char>::empty() + decimal(v as nat) =~= decimal(v as nat));
    }
    s
}

/// Every character of a written number is a digit, and there is at least one.
pub proof fn lemma_decimal_is_digits(n: nat)
    ensures
        decimal(n).len() >= 1,
        forall|i: int| 0 <= i < decimal(n).len() ==> is_digit(#[trigger] decimal(n)[i]),
    decreases n,
{
    lemma_digit_char((n % 10) as int);
    if n >= 10 {
        lemma_decimal_is_digits(n / 10);
    }
}

proof fn lemma_digit_char(d: int)
    requires
        0 <= d <= 9,
    ensures
        is_digit(digit_char(d)),
        digit_value(digit_char(d)) == d,
{
    assert(digit_char(d) as u32 == d + 0x30);
}

proof fn lemma_scan_push(s: Seq<char>, c: char, acc: int, negative: bool, lo: int, hi: int)
    requires
        is_digit(c),
        scan_digits(s, acc, negative, lo, hi) is Ok,
        ({
            let v = scan_digits(s, acc, negative, lo, hi)->Ok_0;
            if negative {
                v * 10 - digit_value(c) >= lo
            } else {
                v * 10 + digit_value(c) <= hi
            }
        }),
    ensures
        scan_digits(s.push(c), acc, negative, lo, hi) == Ok::<int, IntErrorKind>(
            {
                let v = scan_digits(s, acc, negative, lo, hi)->Ok_0;
                if negative {
                    v * 10 - digit_value(c)
                } else {
                    v * 10 + digit_value(c)
                }
            },
        ),
    decreases s.len(),
{
    let t = s.push(c);
    if s.len() == 0 {
        let next = if negative {
            acc * 10 - digit_value(c)
        } else {
            acc * 10 + digit_value(c)
        };
        assert(t[0] == c);
        assert(t.drop_first() =~= Seq::<char>::empty());
        assert(scan_digits(t.drop_first(), next, negative, lo, hi) == Ok::<int, IntErrorKind>(
            next,
        ));
    } else {
        let next = if negative {
            acc * 10 - digit_value(s[0])
        } else {
            acc * 10 + digit_value(s[0])
        };
        assert(t[0] == s[0]);
        assert(t.drop_first() =~= s.drop_first().push(c));
        lemma_scan_push(s.drop_first(), c, next, negative, lo, hi);
    }
}

proof fn lemma_scan_decimal(n: nat, negative: bool, lo: int, hi: int)
    requires
        lo <= 0 <= hi,
        negative ==> -(n as int) >= lo,
        !negative ==> n <= hi,
    ensures
        scan_digits(decimal(n), 0, negative, lo, hi) == Ok::<int, IntErrorKind>(
            if negative {
                -(n as int)
            } else {
                n as int
            },
        ),
    decreases n,
{
    if n < 10 {
        lemma_digit_char(n as int);
        let t = decimal(n);
        let next = if negative {
            -(n as int)
        } else {
            n as int
        };
        assert(t[0] == digit_char(n as int));
        assert(t.drop_first() =~= Seq::<char>::empty());
        assert(scan_digits(t.drop_first(), next, negative, lo, hi) == Ok::<int, IntErrorKind>(
            next,
        ));
    } else {
        lemma_digit_char((n % 10) as int);
        lemma_scan_decimal(n / 10, negative, lo, hi);
        lemma_scan_push(decimal(n / 10), digit_char((n % 10) as int), 0, negative, lo, hi);
    }
}

/// Reading back a written integer gives the integer: for every `v` among
/// `lo ..= hi`, negative only where `signed`.
pub proof fn lemma_int_of_text_of_decimal(v: int, signed: bool, lo: int, hi: int)
    requires
        lo <= 0 <= hi,
        lo <= v <= hi,
        v < 0 ==> signed,
    ensures
        int_of_text(signed_decimal(v), signed, lo, hi) == Ok::<int, IntErrorKind>(v),
{
    if v < 0 {
        let n = (-v) as nat;
        lemma_decimal_is_digits(n);
        lemma_scan_decimal(n, true, lo, hi);
        assert(signed_decimal(v).drop_first() =~= decimal(n));
    } else {
        let n = v as nat;
        lemma_decimal_is_digits(n);
        assert(is_digit(decimal(n)[0]));
        lemma_scan_decimal(n, false, lo, hi);
    }
}

/// The index of the first character at or after `from` that is no digit,
/// or the length of `s` where only digits follow.
pub open spec fn digits_end(s: Seq<char>, from: int) -> int
    decreases s.len() - from,
{
    if 0 <= from < s.len() && is_digit(s[from]) {
        digits_end(s, from + 1)
    } else {
        from
    }
}

pub open spec fn lower(c: char) -> char {
    if 0x41 <= c as u32 <= 0x5a {
        (c as u32 + 0x20) as char
    } else {
        c
    }
}

/// `s` is the lower-case word `w`, whatever the case of its letters.
pub open spec fn is_word(s: Seq<char>, w: Seq<char>) -> bool {
    s.len() == w.len() && forall|i: int| 0 <= i < s.len() ==> lower(#[trigger] s[i]) == w[i]
}

/// At `at` stands an exponent that runs to the end of `s`: `e` or `E`, an
/// optional sign, and one or more digits.
pub open spec fn is_exponent(s: Seq<char>, at: int) -> bool {
    &&& 0 <= at < s.len()
    &&& lower(s[at]) == 'e'
    &&& ({
        let first = if at + 1 < s.len() && (s[at + 1] == '+' || s[at + 1] == '-') {
            at + 2
        } else {
            at + 1
        };
        first < s.len() && digits_end(s, first) == s.len()
    })
}

/// `s` is a decimal number: digits with at most one point among them, at
/// least one digit before the exponent, and an optional exponent.
pub open spec fn is_number(s: Seq<char>) -> bool {
    let a = digits_end(s, 0);
    let point = a < s.len() && s[a] == '.';
    let b = if point {
        digits_end(s, a + 1)
    } else {
        a
    };
    let mantissa_digits = if point {
        b - 1
    } else {
        b
    };
    mantissa_digits > 0 && (b == s.len() || is_exponent(s, b))
}

/// What stands in the way of reading `s` as a float literal, if anything.
/// A float literal is an optional sign followed by `inf`, `infinity` or
/// `nan` in any case, or by a decimal number.
pub open spec fn float_text_error(s: Seq<char>) -> Option<FloatErrorKind> {
    if s.len() == 0 {
        Some(FloatErrorKind::Empty)
    } else {
        let body = if s[0] == '+' || s[0] == '-' {
            s.drop_first()
        } else {
            s
        };
        if is_word(body, seq!['i', 'n', 'f']) || is_word(
            body,
            seq!['i', 'n', 'f', 'i', 'n', 'i', 't', 'y'],
        ) || is_word(body, seq!['n', 'a', 'n']) || is_number(body) {
            None
        } else {
            Some(FloatErrorKind::Invalid)
        }
    }
}

pub open spec fn is_float_text(s: Seq<char>) -> bool {
    float_text_error(s) is None
}

fn lower_of(c: char) -> (l: char)
    ensures
        l == lower(c),
{
    let code: u32 = c as u32;
    if 0x41 <= code && code <= 0x5a {
        ((code + 0x20) as u8) as char
    } else {
        c
    }
}

fn digits_end_of(s: &[char], from: usize) -> (end: usize)
    requires
        from <= s.len(),
    ensures
        end == digits_end(s@, from as int),
        from <= end <= s.len(),
{
    let mut i: usize = from;
    while i < s.len() && digit_of(s[i]).is_some()
        invariant
            from <= i <= s.len(),
            digits_end(s@, from as int) == digits_end(s@, i as int),
        decreases s.len() - i,
    {
        i += 1;
    }
    i
}

fn word_matches(s: &[char], w: &[char]) -> (b: bool)
    ensures
        b == is_word(s@, w@),
{
    if s.len() != w.len() {
        return false;
    }
    let mut i: usize = 0;
    while i < s.len()
        invariant
            i <= s.len() == w.len(),
            forall|j: int| 0 <= j < i ==> lower(#[trigger] s@[j]) == w@[j],
        decreases s.len() - i,
    {
        if lower_of(s[i]) != w[i] {
            return false;
        }
        i += 1;
    }
    true
}

fn exponent_at(s: &[char], at: usize) -> (b: bool)
    requires
        at <= s.len(),
    ensures
        b == is_exponent(s@, at as int),
{
    if at >= s.len() || lower_of(s[at]) != 'e' {
        return false;
    }
    let first: usize = if at + 1 < s.len() && (s[at + 1] == '+' || s[at + 1] == '-') {
        at + 2
    } else {
        at + 1
    };
    first < s.len() && digits_end_of(s, first) == s.len()
}

fn number_matches(s: &[char]) -> (b: bool)
    ensures
        b == is_number(s@),
{
    let a: usize = digits_end_of(s, 0);
    let point = a < s.len() && s[a] == '.';
    let b: usize = if point {
        digits_end_of(s, a + 1)
    } else {
        a
    };
    let mantissa_digits: usize = if point {
        b - 1
    } else {
        b
    };
    mantissa_digits > 0 && (b == s.len() || exponent_at(s, b))
}

/// Tells whether `s` is a float literal, and if not, why: the texts that
/// the standard library's `str::parse` reads as a floating-point number are
/// exactly the float literals.
pub fn float_error(s: &[char]) -> (r: Option<FloatErrorKind>)
    ensures
        r == float_text_error(s@),
{
    if s.len() == 0 {
        return Some(FloatErrorKind::Empty);
    }
    let start: usize = if s[0] == '+' || s[0] == '-' {
        1
    } else {
        0
    };
    let body = crate::text::slice_of(s, start, s.len());
    assert(s@.subrange(0, s@.len() as int) =~= s@);
    assert(s@.subrange(1, s@.len() as int) =~= s@.drop_first());
    let inf = vec!['i', 'n', 'f'];
    let infinity = vec!['i', 'n', 'f', 'i', 'n', 'i', 't', 'y'];
    let nan = vec!['n', 'a', 'n'];
    assert(inf@ =~= seq!['i', 'n', 'f']);
    assert(infinity@ =~= seq!['i', 'n', 'f', 'i', 'n', 'i', 't', 'y']);
    assert(nan@ =~= seq!['n', 'a', 'n']);
    if word_matches(body.as_slice(), inf.as_slice()) || word_matches(
        body.as_slice(),
        infinity.as_slice(),
    ) || word_matches(body.as_slice(), nan.as_slice()) || number_matches(body.as_slice()) {
        None
    } else {
        Some(FloatErrorKind::Invalid)
    }
}

proof fn lemma_digits_run(s: Seq<char>, from: int)
    requires
        0 <= from <= s.len(),
    ensures
        from <= digits_end(s, from) <= s.len(),
        forall|i: int| from <= i < digits_end(s, from) ==> is_digit(#[trigger] s[i]),
    decreases s.len() - from,
{
    if from < s.len() && is_digit(s[from]) {
        lemma_digits_run(s, from + 1);
    }
}

/// The characters that a float literal is made of.
pub open spec fn is_float_char(c: char) -> bool {
    is_digit(c) || c == '.' || c == '+' || c == '-' || (0x41 <= c as u32 <= 0x5a) || (0x61
        <= c as u32 <= 0x7a)
}

proof fn lemma_number_chars(s: Seq<char>)
    requires
        is_number(s),
    ensures
        forall|i: int| 0 <= i < s.len() ==> is_float_char(#[trigger] s[i]),
{
    let a = digits_end(s, 0);
    lemma_digits_run(s, 0);
    let point = a < s.len() && s[a] == '.';
    let b = if point {
        digits_end(s, a + 1)
    } else {
        a
    };
    if point {
        lemma_digits_run(s, a + 1);
    }
    if b < s.len() {
        let first = if b + 1 < s.len() && (s[b + 1] == '+' || s[b + 1] == '-') {
            b + 2
        } else {
            b + 1
        };
        lemma_digits_run(s, first);
        assert(lower(s[b]) == 'e');
        assert(is_float_char(s[b]));
    }
    assert forall|i: int| 0 <= i < s.len() implies is_float_char(#[trigger] s[i]) by {
        if i < a {
        } else if i == a && point {
        } else if i < b {
        } else if i == b {
        } else {
        }
    }
}

proof fn lemma_word_chars(s: Seq<char>, w: Seq<char>)
    requires
        is_word(s, w),
        forall|i: int| 0 <= i < w.len() ==> 0x61 <= (#[trigger] w[i]) as u32 <= 0x7a,
    ensures
        forall|i: int| 0 <= i < s.len() ==> is_float_char(#[trigger] s[i]),
{
    assert forall|i: int| 0 <= i < s.len() implies is_float_char(#[trigger] s[i]) by {
        assert(lower(s[i]) == w[i]);
    }
}

/// A float literal holds digits, letters, signs and points only.
pub proof fn lemma_float_text_chars(s: Seq<char>)
    requires
        is_float_text(s),
    ensures
        forall|i: int| 0 <= i < s.len() ==> is_float_char(#[trigger] s[i]),
{
    let signed = s[0] == '+' || s[0] == '-';
    let body = if signed {
        s.drop_first()
    } else {
        s
    };
    let inf = seq!['i', 'n', 'f'];
    let infinity = seq!['i', 'n', 'f', 'i', 'n', 'i', 't', 'y'];
    let nan = seq!['n', 'a', 'n'];
    if is_word(body, inf) {
        lemma_word_chars(body, inf);
    } else if is_word(body, infinity) {
        lemma_word_chars(body, infinity);
    } else if is_word(body, nan) {
        lemma_word_chars(body, nan);
    } else {
        lemma_number_chars(body);
    }
    assert forall|i: int| 0 <= i < s.len() implies is_float_char(#[trigger] s[i]) by {
        if signed {
            if i > 0 {
                assert(s[i] == body[i - 1]);
            }
        }
    }
}

} // verus!
