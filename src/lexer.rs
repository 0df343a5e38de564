//! The lexical pieces of a PSS/E RAW record: blanks, separators, integers,
//! decimal numbers and quoted text, read from a sequence of characters at
//! a given position.
//!
//! Each reader has a spec function that says what it accepts: the position
//! after the piece, and its value, or `None` where the piece is absent.

use vstd::prelude::*;
use vstd::std_specs::iter::IteratorSpec;

verus! {

pub open spec fn is_blank(c: char) -> bool {
    c == ' ' || c == '\t'
}

pub open spec fn is_digit(c: char) -> bool {
    '0' <= c && c <= '9'
}

pub open spec fn digit_value(c: char) -> int {
    (c as int) - ('0' as int)
}

/// `s` holds character `c` at position `p`.
pub open spec fn char_at(s: Seq<char>, p: int, c: char) -> bool {
    0 <= p < s.len() && s[p] == c
}

/// The first position from `p` on that holds no blank.
pub open spec fn blanks_end(s: Seq<char>, p: int) -> int
    decreases s.len() - p,
{
    if 0 <= p < s.len() && is_blank(s[p]) {
        blanks_end(s, p + 1)
    } else {
        p
    }
}

/// The first position from `p` on that holds no decimal digit.
pub open spec fn digits_end(s: Seq<char>, p: int) -> int
    decreases s.len() - p,
{
    if 0 <= p < s.len() && is_digit(s[p]) {
        digits_end(s, p + 1)
    } else {
        p
    }
}

/// The first position from `p` on that holds a single quote, or the length
/// of `s` where none does.
pub open spec fn quote_end(s: Seq<char>, p: int) -> int
    decreases s.len() - p,
{
    if 0 <= p < s.len() && s[p] != '\'' {
        quote_end(s, p + 1)
    } else {
        p
    }
}

/// The value of the decimal digits `s[a..b]`.
pub open spec fn digits_value(s: Seq<char>, a: int, b: int) -> int
    decreases b - a,
{
    if b <= a {
        0
    } else {
        10 * digits_value(s, a, b - 1) + digit_value(s[b - 1])
    }
}

/// One or more digits at `p` whose value is at most `max`: the value and
/// the position after the digits.
pub open spec fn unsigned_at(s: Seq<char>, p: int, max: int) -> Option<(int, int)> {
    let e = digits_end(s, p);
    if e > p && digits_value(s, p, e) <= max {
        Some((digits_value(s, p, e), e))
    } else {
        None
    }
}

/// An optional minus sign and one or more digits at `p`, read as an `i32`.
pub open spec fn signed_at(s: Seq<char>, p: int) -> Option<(int, int)> {
    let neg = char_at(s, p, '-');
    let q = if neg {
        p + 1
    } else {
        p
    };
    match unsigned_at(s, q, if neg {
        0x8000_0000
    } else {
        0x7fff_ffff
    }) {
        Some((v, e)) => Some(
            (if neg {
                -v
            } else {
                v
            }, e),
        ),
        None => None,
    }
}

/// The end of a decimal number at `p`: an optional minus sign, one or more
/// digits, and optionally a point followed by one or more digits.
pub open spec fn decimal_end(s: Seq<char>, p: int) -> Option<int> {
    let q = if char_at(s, p, '-') {
        p + 1
    } else {
        p
    };
    let e = digits_end(s, q);
    if e == q {
        None
    } else if char_at(s, e, '.') && digits_end(s, e + 1) > e + 1 {
        Some(digits_end(s, e + 1))
    } else {
        Some(e)
    }
}

/// A decimal number at `p`: its text and the position after it.
pub open spec fn decimal_at(s: Seq<char>, p: int) -> Option<(Seq<char>, int)> {
    match decimal_end(s, p) {
        Some(e) => Some((s.subrange(p, e), e)),
        None => None,
    }
}

/// Number of bytes of the UTF-8 encoding of `c`.
pub open spec fn char_width(c: char) -> nat {
    if (c as u32) < 0x80 {
        1
    } else if (c as u32) < 0x800 {
        2
    } else if (c as u32) < 0x1_0000 {
        3
    } else {
        4
    }
}

/// Number of bytes of the UTF-8 encoding of `t`.
pub open spec fn utf8_len(t: Seq<char>) -> nat
    decreases t.len(),
{
    if t.len() == 0 {
        0
    } else {
        utf8_len(t.drop_last()) + char_width(t.last())
    }
}

/// Text in single quotes at `p`, whose UTF-8 encoding takes at most `cap`
/// bytes: the text between the quotes and the position after the closing one.
pub open spec fn quoted_at(s: Seq<char>, p: int, cap: int) -> Option<(Seq<char>, int)> {
    let c = quote_end(s, p + 1);
    if char_at(s, p, '\'') && c < s.len() && utf8_len(s.subrange(p + 1, c)) <= cap {
        Some((s.subrange(p + 1, c), c + 1))
    } else {
        None
    }
}

/// A comma at `p` and the blanks after it: the position after them.
pub open spec fn comma_at(s: Seq<char>, p: int) -> Option<int> {
    if char_at(s, p, ',') {
        Some(blanks_end(s, p + 1))
    } else {
        None
    }
}

/// An optional comma at `p` and the blanks after it.
pub open spec fn opt_comma_end(s: Seq<char>, p: int) -> int {
    if char_at(s, p, ',') {
        blanks_end(s, p + 1)
    } else {
        blanks_end(s, p)
    }
}

/// An optional unsigned value at `p`: the value, if present, and the
/// position after it.
pub open spec fn opt_unsigned_at(s: Seq<char>, p: int, max: int) -> (Option<int>, int) {
    match unsigned_at(s, p, max) {
        Some((v, e)) => (Some(v), e),
        None => (None, p),
    }
}

/// A flag written as an `i32`: true when the value is not zero.
pub open spec fn flag_at(s: Seq<char>, p: int) -> Option<(bool, int)> {
    match signed_at(s, p) {
        Some((v, e)) => Some((v != 0, e)),
        None => None,
    }
}

/// An optional flag at `p`.
pub open spec fn opt_flag_at(s: Seq<char>, p: int) -> (Option<bool>, int) {
    match flag_at(s, p) {
        Some((v, e)) => (Some(v), e),
        None => (None, p),
    }
}

/// An optional decimal number at `p`.
pub open spec fn opt_decimal_at(s: Seq<char>, p: int) -> (Option<Seq<char>>, int) {
    match decimal_at(s, p) {
        Some((v, e)) => (Some(v), e),
        None => (None, p),
    }
}

/// The first position from `p` on that holds a line feed, or the length of
/// `s` where none does.
pub open spec fn line_end(s: Seq<char>, p: int) -> int
    decreases s.len() - p,
{
    if 0 <= p < s.len() && s[p] != '\n' {
        line_end(s, p + 1)
    } else {
        p
    }
}

/// An optional trailing comment at `p`: a slash, blanks, and any text up
/// to (not including) a line feed, which must follow.
pub open spec fn comment_end(s: Seq<char>, p: int) -> int {
    let q = line_end(s, blanks_end(s, p + 1));
    if char_at(s, p, '/') && q < s.len() {
        q
    } else {
        p
    }
}

proof fn lemma_digits_value_nonneg(s: Seq<char>, a: int, b: int)
    requires
        0 <= a,
        b <= s.len(),
        forall|i: int| a <= i < b ==> is_digit(#[trigger] s[i]),
    ensures
        0 <= digits_value(s, a, b),
    decreases b - a,
{
    if b > a {
        lemma_digits_value_nonneg(s, a, b - 1);
    }
}

proof fn lemma_digits_value_grows(s: Seq<char>, a: int, k: int, b: int)
    requires
        0 <= a <= k <= b <= s.len(),
        forall|i: int| a <= i < b ==> is_digit(#[trigger] s[i]),
    ensures
        digits_value(s, a, k) <= digits_value(s, a, b),
    decreases b - k,
{
    if k < b {
        lemma_digits_value_grows(s, a, k, b - 1);
        lemma_digits_value_nonneg(s, a, b - 1);
    }
}

proof fn lemma_digits_end_digits(s: Seq<char>, p: int)
    requires
        0 <= p <= s.len(),
    ensures
        p <= digits_end(s, p) <= s.len(),
        forall|i: int| p <= i < digits_end(s, p) ==> is_digit(#[trigger] s[i]),
    decreases s.len() - p,
{
    if p < s.len() && is_digit(s[p]) {
        lemma_digits_end_digits(s, p + 1);
    }
}

proof fn lemma_blanks_end_bounds(s: Seq<char>, p: int)
    requires
        0 <= p <= s.len(),
    ensures
        p <= blanks_end(s, p) <= s.len(),
    decreases s.len() - p,
{
    if p < s.len() && is_blank(s[p]) {
        lemma_blanks_end_bounds(s, p + 1);
    }
}

proof fn lemma_quote_end_bounds(s: Seq<char>, p: int)
    requires
        0 <= p <= s.len(),
    ensures
        p <= quote_end(s, p) <= s.len(),
    decreases s.len() - p,
{
    if p < s.len() && s[p] != '\'' {
        lemma_quote_end_bounds(s, p + 1);
    }
}

proof fn lemma_utf8_len_grows(t: Seq<char>, k: int)
    requires
        0 <= k <= t.len(),
    ensures
        utf8_len(t.subrange(0, k)) <= utf8_len(t),
    decreases t.len() - k,
{
    if k < t.len() {
        lemma_utf8_len_grows(t.drop_last(), k);
        assert(t.drop_last().subrange(0, k) =~= t.subrange(0, k));
    } else {
        assert(t.subrange(0, k) =~= t);
    }
}

/// Number of bytes of the UTF-8 encoding of `c`.
pub fn char_width_of(c: char) -> (r: usize)
    ensures
        r == char_width(c),
{
    let v = c as u32;
    if v < 0x80 {
        1
    } else if v < 0x800 {
        2
    } else if v < 0x1_0000 {
        3
    } else {
        4
    }
}

/// Relies on `String::push`: appends one character.
#[verifier::external_body]
fn push_char(s: &mut String, c: char)
    ensures
        final(s)@ == old(s)@.push(c),
{
    s.push(c);
}

/// The characters of a string, in order.
pub fn chars_of(text: &str) -> (r: Vec<char>)
    ensures
        r@ == text@,
{
    let n = text.unicode_len();
    let mut r: Vec<char> = Vec::with_capacity(n);
    let mut it = text.chars();
    let mut k: usize = 0;
    while k < n
        invariant
            n == text@.len(),
            k <= n,
            r@ == text@.subrange(0, k as int),
            it.remaining() == text@.subrange(k as int, n as int),
        decreases n - k,
    {
        broadcast use vstd::string::next_postcondition;

        match it.next() {
            Some(c) => {
                r.push(c);
            },
            None => {
                // not reached: `n - k` characters remain
                return r;
            },
        }
        k = k + 1;
        assert(r@ =~= text@.subrange(0, k as int));
        assert(it.remaining() =~= text@.subrange(k as int, n as int));
    }
    assert(r@ =~= text@);
    r
}

/// The text `s[a..b]` as a string.
pub fn text_of(s: &Vec<char>, a: usize, b: usize) -> (r: String)
    requires
        a <= b <= s@.len(),
    ensures
        r@ == s@.subrange(a as int, b as int),
{
    let mut r = String::new();
    let mut k = a;
    while k < b
        invariant
            a <= k <= b <= s@.len(),
            r@ == s@.subrange(a as int, k as int),
        decreases b - k,
    {
        push_char(&mut r, s[k]);
        k = k + 1;
        assert(r@ =~= s@.subrange(a as int, k as int));
    }
    r
}

/// The position after the blanks at `p`.
pub fn skip_blanks(s: &Vec<char>, p: usize) -> (r: usize)
    requires
        p <= s@.len(),
    ensures
        r == blanks_end(s@, p as int),
        p <= r <= s@.len(),
{
    let mut q = p;
    while q < s.len() && (s[q] == ' ' || s[q] == '\t')
        invariant
            p <= q <= s@.len(),
            blanks_end(s@, p as int) == blanks_end(s@, q as int),
        decreases s@.len() - q,
    {
        q = q + 1;
    }
    q
}

/// The position after the digits at `p`.
pub fn skip_digits(s: &Vec<char>, p: usize) -> (r: usize)
    requires
        p <= s@.len(),
    ensures
        r == digits_end(s@, p as int),
        p <= r <= s@.len(),
{
    let mut q = p;
    while q < s.len() && '0' <= s[q] && s[q] <= '9'
        invariant
            p <= q <= s@.len(),
            digits_end(s@, p as int) == digits_end(s@, q as int),
        decreases s@.len() - q,
    {
        q = q + 1;
    }
    q
}

/// Reads one or more digits at `p` as a value no larger than `max`.
pub fn read_unsigned(s: &Vec<char>, p: usize, max: u64) -> (r: Option<(u64, usize)>)
    requires
        p <= s@.len(),
    ensures
        match r {
            Some((v, e)) => unsigned_at(s@, p as int, max as int) == Some((v as int, e as int)),
            None => unsigned_at(s@, p as int, max as int) is None,
        },
        r matches Some((_, e)) ==> e <= s@.len(),
{
    let e = skip_digits(s, p);
    proof {
        lemma_digits_end_digits(s@, p as int);
    }
    if e == p {
        return None;
    }
    let mut v: u128 = 0;
    let mut k = p;
    while k < e
        invariant
            p <= k <= e <= s@.len(),
            e == digits_end(s@, p as int),
            forall|i: int| p <= i < e ==> is_digit(#[trigger] s@[i]),
            v == digits_value(s@, p as int, k as int),
            v <= max,
        decreases e - k,
    {
        let d = (s[k] as u32 - '0' as u32) as u128;
        v = 10 * v + d;
        assert(v == digits_value(s@, p as int, k + 1));
        k = k + 1;
        if v > max as u128 {
            proof {
                lemma_digits_value_grows(s@, p as int, k as int, e as int);
            }
            return None;
        }
    }
    Some((v as u64, e))
}

/// Reads an optional minus sign and one or more digits at `p` as an `i32`.
pub fn read_signed(s: &Vec<char>, p: usize) -> (r: Option<(i32, usize)>)
    requires
        p <= s@.len(),
    ensures
        match r {
            Some((v, e)) => signed_at(s@, p as int) == Some((v as int, e as int)),
            None => signed_at(s@, p as int) is None,
        },
        r matches Some((_, e)) ==> e <= s@.len(),
{
    let neg = p < s.len() && s[p] == '-';
    let q = if neg {
        p + 1
    } else {
        p
    };
    match read_unsigned(s, q, if neg { 0x8000_0000 } else { 0x7fff_ffff }) {
        Some((v, e)) => {
            let x: i64 = if neg {
                -(v as i64)
            } else {
                v as i64
            };
            Some((x as i32, e))
        },
        None => None,
    }
}

/// Reads a decimal number at `p`, keeping its text.
pub fn read_decimal(s: &Vec<char>, p: usize) -> (r: Option<(String, usize)>)
    requires
        p <= s@.len(),
    ensures
        match r {
            Some((t, e)) => decimal_at(s@, p as int) == Some((t@, e as int)),
            None => decimal_at(s@, p as int) is None,
        },
        r matches Some((_, e)) ==> e <= s@.len(),
{
    let q = if p < s.len() && s[p] == '-' {
        p + 1
    } else {
        p
    };
    let e = skip_digits(s, q);
    if e == q {
        return None;
    }
    let mut end = e;
    if e < s.len() && s[e] == '.' {
        let f = skip_digits(s, e + 1);
        if f > e + 1 {
            end = f;
        }
    }
    Some((text_of(s, p, end), end))
}

/// Reads text in single quotes at `p` whose UTF-8 encoding takes at most
/// `cap` bytes.
pub fn read_quoted(s: &Vec<char>, p: usize, cap: usize) -> (r: Option<(String, usize)>)
    requires
        p <= s@.len(),
    ensures
        match r {
            Some((t, e)) => quoted_at(s@, p as int, cap as int) == Some((t@, e as int)),
            None => quoted_at(s@, p as int, cap as int) is None,
        },
        r matches Some((_, e)) ==> e <= s@.len(),
{
    if !(p < s.len() && s[p] == '\'') {
        return None;
    }
    let mut c = p + 1;
    while c < s.len() && s[c] != '\''
        invariant
            p < c <= s@.len(),
            quote_end(s@, p + 1) == quote_end(s@, c as int),
        decreases s@.len() - c,
    {
        c = c + 1;
    }
    if c >= s.len() {
        return None;
    }
    assert(quote_end(s@, c as int) == c);
    // bytes of the quoted text, counted until they exceed `cap`
    let mut bytes: usize = 0;
    let mut k = p + 1;
    while k < c
        invariant
            p < k <= c < s@.len(),
            bytes == utf8_len(s@.subrange(p + 1, k as int)),
            bytes <= cap,
            quote_end(s@, p + 1) == c,
            char_at(s@, p as int, '\''),
        decreases c - k,
    {
        assert(s@.subrange(p + 1, k + 1).drop_last() =~= s@.subrange(p + 1, k as int));
        let w = char_width_of(s[k]);
        if w > cap - bytes {
            proof {
                let t = s@.subrange(p + 1, c as int);
                assert(utf8_len(s@.subrange(p + 1, k + 1)) == bytes + w);
                lemma_utf8_len_grows(t, (k + 1 - p - 1) as int);
                assert(t.subrange(0, (k + 1 - p - 1) as int) =~= s@.subrange(p + 1, k + 1));
            }
            return None;
        }
        bytes = bytes + w;
        k = k + 1;
    }
    Some((text_of(s, p + 1, c), c + 1))
}

/// Reads a comma at `p` and the blanks after it.
pub fn read_comma(s: &Vec<char>, p: usize) -> (r: Option<usize>)
    requires
        p <= s@.len(),
    ensures
        match r {
            Some(e) => comma_at(s@, p as int) == Some(e as int),
            None => comma_at(s@, p as int) is None,
        },
        r matches Some(e) ==> e <= s@.len(),
{
    if p < s.len() && s[p] == ',' {
        Some(skip_blanks(s, p + 1))
    } else {
        None
    }
}

/// Skips an optional comma at `p` and the blanks after it.
pub fn skip_opt_comma(s: &Vec<char>, p: usize) -> (r: usize)
    requires
        p <= s@.len(),
    ensures
        r == opt_comma_end(s@, p as int),
        r <= s@.len(),
{
    if p < s.len() && s[p] == ',' {
        skip_blanks(s, p + 1)
    } else {
        skip_blanks(s, p)
    }
}

/// Reads an optional unsigned value at `p`.
pub fn read_opt_unsigned(s: &Vec<char>, p: usize, max: u64) -> (r: (Option<u64>, usize))
    requires
        p <= s@.len(),
    ensures
        opt_unsigned_at(s@, p as int, max as int) == (
            match r.0 {
                Some(v) => Some(v as int),
                None => None,
            },
            r.1 as int,
        ),
        r.1 <= s@.len(),
{
    match read_unsigned(s, p, max) {
        Some((v, e)) => (Some(v), e),
        None => (None, p),
    }
}

/// Reads a flag written as an `i32`.
pub fn read_flag(s: &Vec<char>, p: usize) -> (r: Option<(bool, usize)>)
    requires
        p <= s@.len(),
    ensures
        match r {
            Some((v, e)) => flag_at(s@, p as int) == Some((v, e as int)),
            None => flag_at(s@, p as int) is None,
        },
        r matches Some((_, e)) ==> e <= s@.len(),
{
    match read_signed(s, p) {
        Some((v, e)) => Some((v != 0, e)),
        None => None,
    }
}

/// Reads an optional flag at `p`.
pub fn read_opt_flag(s: &Vec<char>, p: usize) -> (r: (Option<bool>, usize))
    requires
        p <= s@.len(),
    ensures
        opt_flag_at(s@, p as int) == (r.0, r.1 as int),
        r.1 <= s@.len(),
{
    match read_flag(s, p) {
        Some((v, e)) => (Some(v), e),
        None => (None, p),
    }
}

/// Reads an optional decimal number at `p`.
pub fn read_opt_decimal(s: &Vec<char>, p: usize) -> (r: (Option<String>, usize))
    requires
        p <= s@.len(),
    ensures
        opt_decimal_at(s@, p as int) == (
            match r.0 {
                Some(t) => Some(t@),
                None => None,
            },
            r.1 as int,
        ),
        r.1 <= s@.len(),
{
    match read_decimal(s, p) {
        Some((t, e)) => (Some(t), e),
        None => (None, p),
    }
}

/// Skips an optional trailing comment at `p`.
pub fn skip_comment(s: &Vec<char>, p: usize) -> (r: usize)
    requires
        p <= s@.len(),
    ensures
        r == comment_end(s@, p as int),
        r <= s@.len(),
{
    if !(p < s.len() && s[p] == '/') {
        return p;
    }
    let mut q = skip_blanks(s, p + 1);
    while q < s.len() && s[q] != '\n'
        invariant
            p < q <= s@.len(),
            line_end(s@, blanks_end(s@, p + 1)) == line_end(s@, q as int),
        decreases s@.len() - q,
    {
        q = q + 1;
    }
    if q < s.len() {
        q
    } else {
        p
    }
}

} // verus!
