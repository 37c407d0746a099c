//! Character-level text handling shared by the parsers and renderers:
//! Unicode whitespace, trimming, prefix matching, splitting, unsigned
//! decimal parsing and decimal/hexadecimal rendering.
use vstd::prelude::*;

verus! {

/// The Unicode `White_Space` property.
pub open spec fn is_ws(c: char) -> bool {
    ||| ('\u{9}' <= c && c <= '\u{d}')
    ||| c == ' '
    ||| c == '\u{85}'
    ||| c == '\u{a0}'
    ||| c == '\u{1680}'
    ||| ('\u{2000}' <= c && c <= '\u{200a}')
    ||| c == '\u{2028}'
    ||| c == '\u{2029}'
    ||| c == '\u{202f}'
    ||| c == '\u{205f}'
    ||| c == '\u{3000}'
}

/// Whether `c` is Unicode whitespace.
pub fn is_whitespace(c: char) -> (r: bool)
    ensures
        r == is_ws(c),
{
    ('\u{9}' <= c && c <= '\u{d}') || c == ' ' || c == '\u{85}' || c == '\u{a0}' || c == '\u{1680}'
        || ('\u{2000}' <= c && c <= '\u{200a}') || c == '\u{2028}' || c == '\u{2029}' || c
        == '\u{202f}' || c == '\u{205f}' || c == '\u{3000}'
}

/// `s` without its leading whitespace.
pub open spec fn trim_start(s: Seq<char>) -> Seq<char>
    decreases s.len(),
{
    if s.len() > 0 && is_ws(s[0]) {
        trim_start(s.drop_first())
    } else {
        s
    }
}

/// `s` without its trailing whitespace.
pub open spec fn trim_end(s: Seq<char>) -> Seq<char>
    decreases s.len(),
{
    if s.len() > 0 && is_ws(s.last()) {
        trim_end(s.drop_last())
    } else {
        s
    }
}

/// `s` without leading and trailing whitespace.
pub open spec fn trim(s: Seq<char>) -> Seq<char> {
    trim_end(trim_start(s))
}

/// Whether `p` is a prefix of `s`.
pub open spec fn starts_with(s: Seq<char>, p: Seq<char>) -> bool {
    p.len() <= s.len() && s.subrange(0, p.len() as int) == p
}

/// Whether `p` is a suffix of `s`.
pub open spec fn ends_with(s: Seq<char>, p: Seq<char>) -> bool {
    p.len() <= s.len() && s.subrange(s.len() - p.len(), s.len() as int) == p
}

/// Whether `needle` occurs as a contiguous piece of `s`.
pub open spec fn contains_seq(s: Seq<char>, needle: Seq<char>) -> bool {
    exists|i: int| 0 <= i && i + needle.len() <= s.len() && #[trigger] s.subrange(i, i + needle.len()) == needle
}

/// Whether some character of `s` is whitespace.
pub open spec fn has_ws(s: Seq<char>) -> bool {
    exists|i: int| 0 <= i < s.len() && is_ws(#[trigger] s[i])
}

/// Index of the first whitespace character of `s`, if any.
pub open spec fn first_ws(s: Seq<char>) -> Option<int>
    decreases s.len(),
{
    if s.len() == 0 {
        None
    } else if is_ws(s[0]) {
        Some(0)
    } else {
        match first_ws(s.drop_first()) {
            Some(i) => Some(i + 1),
            None => None,
        }
    }
}

/// `str::split_once` at the first whitespace character: the text before it
/// and the text after it (the separator itself is dropped).
pub open spec fn split_ws_once(s: Seq<char>) -> Option<(Seq<char>, Seq<char>)> {
    match first_ws(s) {
        Some(i) => Some((s.subrange(0, i), s.subrange(i + 1, s.len() as int))),
        None => None,
    }
}

/// The whitespace-separated words of `s`, in order.
pub open spec fn words(s: Seq<char>) -> Seq<Seq<char>>
    decreases s.len(),
{
    let t = trim_start(s);
    if t.len() == 0 {
        seq![]
    } else {
        match first_ws(t) {
            Some(i) => if 0 < i <= t.len() <= s.len() {
                seq![t.subrange(0, i)] + words(t.subrange(i, t.len() as int))
            } else {
                seq![]
            },
            None => seq![t],
        }
    }
}

pub proof fn lemma_trim_start_shape(s: Seq<char>)
    ensures
        trim_start(s).len() <= s.len(),
        trim_start(s) == s.subrange(s.len() - trim_start(s).len(), s.len() as int),
        trim_start(s).len() > 0 ==> !is_ws(trim_start(s)[0]),
    decreases s.len(),
{
    if s.len() > 0 && is_ws(s[0]) {
        lemma_trim_start_shape(s.drop_first());
        assert(s.drop_first().subrange(
            s.drop_first().len() - trim_start(s).len(),
            s.drop_first().len() as int,
        ) =~= s.subrange(s.len() - trim_start(s).len(), s.len() as int));
    } else {
        assert(s.subrange(0, s.len() as int) =~= s);
    }
}

pub proof fn lemma_first_ws_bounds(s: Seq<char>)
    ensures
        match first_ws(s) {
            Some(i) => 0 <= i < s.len() && is_ws(s[i]) && forall|k: int| 0 <= k < i ==> !is_ws(#[trigger] s[k]),
            None => forall|k: int| 0 <= k < s.len() ==> !is_ws(#[trigger] s[k]),
        },
    decreases s.len(),
{
    if s.len() > 0 && !is_ws(s[0]) {
        lemma_first_ws_bounds(s.drop_first());
        match first_ws(s.drop_first()) {
            Some(i) => {
                assert forall|k: int| 0 <= k < i + 1 implies !is_ws(#[trigger] s[k]) by {
                    if k > 0 {
                        assert(s[k] == s.drop_first()[k - 1]);
                    }
                }
            },
            None => {
                assert forall|k: int| 0 <= k < s.len() implies !is_ws(#[trigger] s[k]) by {
                    if k > 0 {
                        assert(s[k] == s.drop_first()[k - 1]);
                    }
                }
            },
        }
    }
}

pub proof fn lemma_first_ws_none_iff(s: Seq<char>)
    ensures
        first_ws(s) is None <==> !has_ws(s),
{
    lemma_first_ws_bounds(s);
}

/// Number of characters of `s`.
pub fn char_len(s: &str) -> (n: usize)
    ensures
        n == s@.len(),
{
    s.unicode_len()
}

/// The characters of `s` from `from` to `to`.
pub fn substr<'a>(s: &'a str, from: usize, to: usize) -> (r: &'a str)
    requires
        from <= to <= s@.len(),
    ensures
        r@ == s@.subrange(from as int, to as int),
{
    s.substring_char(from, to)
}

/// `str::trim_start`.
pub fn trim_start_str(s: &str) -> (r: &str)
    ensures
        r@ == trim_start(s@),
{
    let n = s.unicode_len();
    let mut i: usize = 0;
    assert(s@.subrange(0, n as int) =~= s@);
    while i < n && is_whitespace(s.get_char(i))
        invariant
            i <= n,
            n == s@.len(),
            trim_start(s@) == trim_start(s@.subrange(i as int, n as int)),
        decreases n - i,
    {
        assert(s@.subrange(i as int, n as int).drop_first() =~= s@.subrange(i + 1, n as int));
        i += 1;
    }
    s.substring_char(i, n)
}

/// `str::trim_end`.
pub fn trim_end_str(s: &str) -> (r: &str)
    ensures
        r@ == trim_end(s@),
{
    let n = s.unicode_len();
    let mut j: usize = n;
    assert(s@.subrange(0, n as int) =~= s@);
    while j > 0 && is_whitespace(s.get_char(j - 1))
        invariant
            j <= n,
            n == s@.len(),
            trim_end(s@) == trim_end(s@.subrange(0, j as int)),
        decreases j,
    {
        assert(s@.subrange(0, j as int).drop_last() =~= s@.subrange(0, j - 1));
        j -= 1;
    }
    s.substring_char(0, j)
}

/// `str::trim`.
pub fn trim_str(s: &str) -> (r: &str)
    ensures
        r@ == trim(s@),
{
    let t = trim_start_str(s);
    trim_end_str(t)
}

/// `str::strip_prefix` with a string pattern.
pub fn strip_prefix<'a>(s: &'a str, p: &str) -> (r: Option<&'a str>)
    ensures
        match r {
            Some(rest) => starts_with(s@, p@) && rest@ == s@.subrange(p@.len() as int, s@.len() as int),
            None => !starts_with(s@, p@),
        },
{
    let n = s.unicode_len();
    let m = p.unicode_len();
    if m > n {
        return None;
    }
    let mut i: usize = 0;
    while i < m
        invariant
            i <= m <= n,
            n == s@.len(),
            m == p@.len(),
            forall|k: int| 0 <= k < i ==> s@[k] == p@[k],
        decreases m - i,
    {
        if s.get_char(i) != p.get_char(i) {
            assert(s@.subrange(0, m as int)[i as int] != p@[i as int]);
            return None;
        }
        i += 1;
    }
    assert(s@.subrange(0, m as int) =~= p@);
    Some(s.substring_char(m, n))
}

/// Whether `s` equals the literal `p`.
pub fn str_eq(s: &str, p: &str) -> (r: bool)
    ensures
        r == (s@ == p@),
{
    let n = s.unicode_len();
    let m = p.unicode_len();
    if n != m {
        return false;
    }
    let mut i: usize = 0;
    while i < n
        invariant
            i <= n,
            n == s@.len(),
            m == p@.len(),
            n == m,
            forall|k: int| 0 <= k < i ==> s@[k] == p@[k],
        decreases n - i,
    {
        if s.get_char(i) != p.get_char(i) {
            return false;
        }
        i += 1;
    }
    assert(s@ =~= p@);
    true
}

/// Index of the first whitespace character of `s`.
pub fn find_ws(s: &str) -> (r: Option<usize>)
    ensures
        r matches Some(i) ==> first_ws(s@) == Some(i as int),
        r is None ==> first_ws(s@) is None,
{
    proof {
        lemma_first_ws_bounds(s@);
    }
    let n = s.unicode_len();
    let mut i: usize = 0;
    while i < n
        invariant
            i <= n,
            n == s@.len(),
            forall|k: int| 0 <= k < i ==> !is_ws(#[trigger] s@[k]),
            match first_ws(s@) {
                Some(w) => 0 <= w < s@.len() && is_ws(s@[w]) && forall|k: int|
                    0 <= k < w ==> !is_ws(#[trigger] s@[k]),
                None => forall|k: int| 0 <= k < s@.len() ==> !is_ws(#[trigger] s@[k]),
            },
        decreases n - i,
    {
        if is_whitespace(s.get_char(i)) {
            return Some(i);
        }
        i += 1;
    }
    None
}

/// `str::split_once` at the first whitespace character.
pub fn split_once_ws<'a>(s: &'a str) -> (r: Option<(&'a str, &'a str)>)
    ensures
        match r {
            Some((a, b)) => split_ws_once(s@) == Some((a@, b@)),
            None => split_ws_once(s@) is None,
        },
{
    proof {
        lemma_first_ws_bounds(s@);
    }
    match find_ws(s) {
        Some(i) => {
            let n = s.unicode_len();
            Some((s.substring_char(0, i), s.substring_char(i + 1, n)))
        },
        None => None,
    }
}

/// Whether `s` contains a whitespace character.
pub fn contains_ws(s: &str) -> (r: bool)
    ensures
        r == has_ws(s@),
{
    proof {
        lemma_first_ws_none_iff(s@);
    }
    find_ws(s).is_some()
}

/// `str::split_whitespace`, collected.
pub fn split_whitespace<'a>(s: &'a str) -> (r: Vec<&'a str>)
    ensures
        r@.len() == words(s@).len(),
        forall|k: int| 0 <= k < r@.len() ==> (#[trigger] r@[k])@ == words(s@)[k],
{
    let mut out: Vec<&'a str> = Vec::new();
    let mut rest: &'a str = s;
    let ghost done: Seq<Seq<char>> = seq![];
    loop
        invariant
            done.len() == out@.len(),
            forall|k: int| 0 <= k < out@.len() ==> (#[trigger] out@[k])@ == done[k],
            words(s@) == done + words(rest@),
        decreases rest@.len(),
    {
        let t = trim_start_str(rest);
        proof {
            lemma_trim_start_shape(rest@);
        }
        let n = char_len(t);
        if n == 0 {
            assert(words(rest@) =~= seq![]);
            assert(done + words(rest@) =~= done);
            return out;
        }
        proof {
            lemma_first_ws_bounds(t@);
        }
        match find_ws(t) {
            Some(i) => {
                let w = substr(t, 0, i);
                let next = substr(t, i, n);
                proof {
                    assert(words(rest@) == seq![w@] + words(next@));
                    assert(done + words(rest@) =~= done.push(w@) + words(next@));
                    done = done.push(w@);
                }
                out.push(w);
                rest = next;
            },
            None => {
                proof {
                    assert(words(rest@) == seq![t@]);
                    done = done.push(t@);
                    assert(done =~= words(s@));
                }
                out.push(t);
                return out;
            },
        }
    }
}

/// The digit `d` as a character.
pub open spec fn digit_char(d: nat) -> char {
    if d == 0 {
        '0'
    } else if d == 1 {
        '1'
    } else if d == 2 {
        '2'
    } else if d == 3 {
        '3'
    } else if d == 4 {
        '4'
    } else if d == 5 {
        '5'
    } else if d == 6 {
        '6'
    } else if d == 7 {
        '7'
    } else if d == 8 {
        '8'
    } else if d == 9 {
        '9'
    } else if d == 10 {
        'a'
    } else if d == 11 {
        'b'
    } else if d == 12 {
        'c'
    } else if d == 13 {
        'd'
    } else if d == 14 {
        'e'
    } else {
        'f'
    }
}

/// The value of an ASCII decimal digit.
pub open spec fn digit_value(c: char) -> nat {
    (c as int - '0' as int) as nat
}

pub open spec fn is_digit(c: char) -> bool {
    '0' <= c && c <= '9'
}

/// Decimal rendering of `n`, as `Display` writes it.
pub open spec fn decimal(n: nat) -> Seq<char>
    decreases n,
{
    if n < 10 {
        seq![digit_char(n)]
    } else {
        decimal(n / 10).push(digit_char(n % 10))
    }
}

/// Lower-case hexadecimal rendering of `n` in exactly `width` digits.
pub open spec fn hex_fixed(n: nat, width: nat) -> Seq<char>
    decreases width,
{
    if width == 0 {
        seq![]
    } else {
        hex_fixed(n / 16, (width - 1) as nat).push(digit_char(n % 16))
    }
}

/// Lower-case hexadecimal rendering of `n` with no padding.
pub open spec fn hex(n: nat) -> Seq<char>
    decreases n,
{
    if n < 16 {
        seq![digit_char(n)]
    } else {
        hex(n / 16).push(digit_char(n % 16))
    }
}

/// Why an unsigned integer could not be parsed (`IntErrorKind`).
#[derive(Clone, Copy, Debug, PartialEq, Eq, Structural)]
pub enum IntParseError {
    Empty,
    InvalidDigit,
    PosOverflow,
}

/// Accumulates the decimal digits of `d` onto `acc`, failing as
/// `u64::from_str` fails: a non-digit before an overflow.
pub open spec fn fold_digits(d: Seq<char>, acc: nat, max: nat) -> Result<nat, IntParseError>
    decreases d.len(),
{
    if d.len() == 0 {
        Ok(acc)
    } else if !is_digit(d[0]) {
        Err(IntParseError::InvalidDigit)
    } else if acc * 10 > max {
        Err(IntParseError::PosOverflow)
    } else if acc * 10 + digit_value(d[0]) > max {
        Err(IntParseError::PosOverflow)
    } else {
        fold_digits(d.drop_first(), acc * 10 + digit_value(d[0]), max)
    }
}

/// `FromStr` for an unsigned integer type whose largest value is `max`.
pub open spec fn parse_uint(s: Seq<char>, max: nat) -> Result<nat, IntParseError> {
    if s.len() == 0 {
        Err(IntParseError::Empty)
    } else if s.len() == 1 && (s[0] == '+' || s[0] == '-') {
        Err(IntParseError::InvalidDigit)
    } else if s[0] == '+' {
        fold_digits(s.drop_first(), 0, max)
    } else {
        fold_digits(s, 0, max)
    }
}

pub fn parse_digits(s: &str, start: usize, max: u64) -> (r: Result<u64, IntParseError>)
    requires
        start <= s@.len(),
    ensures
        match r {
            Ok(v) => fold_digits(s@.subrange(start as int, s@.len() as int), 0, max as nat)
                == Ok::<nat, IntParseError>(v as nat),
            Err(e) => fold_digits(s@.subrange(start as int, s@.len() as int), 0, max as nat)
                == Err::<nat, IntParseError>(e),
        },
        r matches Ok(v) ==> v <= max,
{
    let n = s.unicode_len();
    let mut i = start;
    let mut acc: u64 = 0;
    while i < n
        invariant
            start <= i <= n,
            n == s@.len(),
            acc <= max,
            fold_digits(s@.subrange(start as int, n as int), 0, max as nat) == fold_digits(
                s@.subrange(i as int, n as int),
                acc as nat,
                max as nat,
            ),
        decreases n - i,
    {
        let c = s.get_char(i);
        let ghost rest = s@.subrange(i as int, n as int);
        assert(rest[0] == c);
        if !('0' <= c && c <= '9') {
            return Err(IntParseError::InvalidDigit);
        }
        let d: u64 = (c as u32 - '0' as u32) as u64;
        if acc > max / 10 {
            assert(acc * 10 > max) by (nonlinear_arith)
                requires
                    acc > max / 10,
            ;
            return Err(IntParseError::PosOverflow);
        }
        assert(acc * 10 <= max) by (nonlinear_arith)
            requires
                acc <= max / 10,
        ;
        if d > max || acc * 10 > max - d {
            return Err(IntParseError::PosOverflow);
        }
        acc = acc * 10 + d;
        assert(rest.drop_first() =~= s@.subrange(i + 1, n as int));
        i += 1;
    }
    assert(s@.subrange(i as int, n as int) =~= Seq::<char>::empty());
    Ok(acc)
}

/// Parses an unsigned decimal no larger than `max`, as `FromStr` does.
pub fn parse_uint_str(s: &str, max: u64) -> (r: Result<u64, IntParseError>)
    ensures
        match r {
            Ok(v) => parse_uint(s@, max as nat) == Ok::<nat, IntParseError>(v as nat),
            Err(e) => parse_uint(s@, max as nat) == Err::<nat, IntParseError>(e),
        },
        r matches Ok(v) ==> v <= max,
{
    let n = s.unicode_len();
    if n == 0 {
        return Err(IntParseError::Empty);
    }
    let c0 = s.get_char(0);
    if n == 1 && (c0 == '+' || c0 == '-') {
        return Err(IntParseError::InvalidDigit);
    }
    if c0 == '+' {
        assert(s@.drop_first() =~= s@.subrange(1, n as int));
        parse_digits(s, 1, max)
    } else {
        assert(s@ =~= s@.subrange(0, n as int));
        parse_digits(s, 0, max)
    }
}

/// Appends one character (`String::push`).
#[verifier::external_body]
pub(crate) fn push_char(s: &mut String, c: char)
    ensures
        final(s)@ == old(s)@.push(c),
{
    s.push(c);
}

/// The UTF-8 bytes of `s`.
pub fn string_bytes(s: &String) -> (r: Vec<u8>)
    ensures
        r@ == vstd::utf8::encode_utf8(s@),
{
    vstd::slice::slice_to_vec(s.as_str().as_bytes())
}

/// Appends a string slice (`String::push_str`).
pub fn push_str(s: &mut String, t: &str)
    ensures
        final(s)@ == old(s)@ + t@,
{
    s.append(t);
}

/// An owned copy of `t`.
pub fn owned(t: &str) -> (r: String)
    ensures
        r@ == t@,
{
    t.to_owned()
}

/// The character for a digit below sixteen.
pub fn digit_to_char(d: u64) -> (c: char)
    requires
        d < 16,
    ensures
        c == digit_char(d as nat),
{
    if d == 0 {
        '0'
    } else if d == 1 {
        '1'
    } else if d == 2 {
        '2'
    } else if d == 3 {
        '3'
    } else if d == 4 {
        '4'
    } else if d == 5 {
        '5'
    } else if d == 6 {
        '6'
    } else if d == 7 {
        '7'
    } else if d == 8 {
        '8'
    } else if d == 9 {
        '9'
    } else if d == 10 {
        'a'
    } else if d == 11 {
        'b'
    } else if d == 12 {
        'c'
    } else if d == 13 {
        'd'
    } else if d == 14 {
        'e'
    } else {
        'f'
    }
}

/// Appends the decimal rendering of `n`.
pub fn push_decimal(s: &mut String, n: u64)
    ensures
        final(s)@ == old(s)@ + decimal(n as nat),
    decreases n,
{
    if n >= 10 {
        push_decimal(s, n / 10);
    }
    push_char(s, digit_to_char(n % 10));
    proof {
        if n >= 10 {
            assert(decimal(n as nat) == decimal((n / 10) as nat).push(digit_char((n % 10) as nat)));
        }
        assert(final(s)@ =~= old(s)@ + decimal(n as nat));
    }
}

/// Appends the decimal rendering of a 128-bit `n`.
pub fn push_decimal_wide(s: &mut String, n: u128)
    ensures
        final(s)@ == old(s)@ + decimal(n as nat),
    decreases n,
{
    if n >= 10 {
        push_decimal_wide(s, n / 10);
    }
    push_char(s, digit_to_char((n % 10) as u64));
    proof {
        if n >= 10 {
            assert(decimal(n as nat) == decimal((n / 10) as nat).push(digit_char((n % 10) as nat)));
        }
        assert(final(s)@ =~= old(s)@ + decimal(n as nat));
    }
}

/// Appends `n` in exactly `width` lower-case hexadecimal digits.
pub fn push_hex_fixed(s: &mut String, n: u64, width: u64)
    ensures
        final(s)@ == old(s)@ + hex_fixed(n as nat, width as nat),
    decreases width,
{
    if width > 0 {
        push_hex_fixed(s, n / 16, width - 1);
        push_char(s, digit_to_char(n % 16));
        assert(final(s)@ =~= old(s)@ + hex_fixed(n as nat, width as nat));
    } else {
        assert(final(s)@ =~= old(s)@ + hex_fixed(n as nat, width as nat));
    }
}

/// Appends `n` in lower-case hexadecimal with no padding.
pub fn push_hex(s: &mut String, n: u64)
    ensures
        final(s)@ == old(s)@ + hex(n as nat),
    decreases n,
{
    if n >= 16 {
        push_hex(s, n / 16);
    }
    push_char(s, digit_to_char(n % 16));
    assert(final(s)@ =~= old(s)@ + hex(n as nat));
}

/// The first position at or after `i` where `p` occurs in `s`.
pub open spec fn find_from(s: Seq<char>, p: Seq<char>, i: int) -> Option<int>
    decreases s.len() + 1 - i,
{
    if i < 0 || i + p.len() > s.len() {
        None
    } else if s.subrange(i, i + p.len()) == p {
        Some(i)
    } else {
        find_from(s, p, i + 1)
    }
}

/// `str::split_once` with a string pattern: the text before the first
/// occurrence of `p` and the text after it.
pub open spec fn split_once_at(s: Seq<char>, p: Seq<char>) -> Option<(Seq<char>, Seq<char>)> {
    match find_from(s, p, 0) {
        Some(i) => Some((s.subrange(0, i), s.subrange(i + p.len(), s.len() as int))),
        None => None,
    }
}

proof fn lemma_find_from_bounds(s: Seq<char>, p: Seq<char>, i: int)
    requires
        0 <= i,
    ensures
        find_from(s, p, i) matches Some(k) ==> i <= k && k + p.len() <= s.len(),
    decreases s.len() + 1 - i,
{
    if i + p.len() <= s.len() && s.subrange(i, i + p.len()) != p {
        lemma_find_from_bounds(s, p, i + 1);
    }
}

/// `str::split_once` with a string pattern.
pub fn split_once_str<'a>(s: &'a str, p: &str) -> (r: Option<(&'a str, &'a str)>)
    ensures
        match split_once_at(s@, p@) {
            Some((a, b)) => r matches Some((x, y)) && x@ == a && y@ == b,
            None => r is None,
        },
{
    proof {
        lemma_find_from_bounds(s@, p@, 0);
    }
    let n = s.unicode_len();
    let m = p.unicode_len();
    if m > n {
        return None;
    }
    let mut i: usize = 0;
    while i <= n - m
        invariant
            m <= n,
            n == s@.len(),
            m == p@.len(),
            i <= n - m + 1,
            find_from(s@, p@, 0) == find_from(s@, p@, i as int),
        decreases n + 1 - i,
    {
        let mut k: usize = 0;
        let mut same = true;
        while k < m
            invariant
                k <= m,
                i + m <= n,
                n == s@.len(),
                m == p@.len(),
                same <==> forall|j: int| 0 <= j < k ==> s@[i + j] == p@[j],
            decreases m - k,
        {
            if s.get_char(i + k) != p.get_char(k) {
                same = false;
            }
            k += 1;
        }
        if same {
            assert(s@.subrange(i as int, i + m) =~= p@);
            return Some((s.substring_char(0, i), s.substring_char(i + m, n)));
        }
        assert(s@.subrange(i as int, i + m) != p@) by {
            let j = choose|j: int| 0 <= j < m && s@[i + j] != p@[j];
            assert(s@.subrange(i as int, i + m)[j] != p@[j]);
        }
        i += 1;
    }
    None
}


/// The views of a vector of strings.
pub open spec fn views(v: Seq<String>) -> Seq<Seq<char>> {
    v.map_values(|x: String| x@)
}

/// `parts` joined with `sep` between each two neighbours (`[..].join(sep)`).
pub open spec fn join(parts: Seq<Seq<char>>, sep: Seq<char>) -> Seq<char>
    decreases parts.len(),
{
    if parts.len() == 0 {
        Seq::empty()
    } else if parts.len() == 1 {
        parts[0]
    } else {
        join(parts.drop_last(), sep) + sep + parts.last()
    }
}

/// Appends the strings of `parts` joined with `sep`.
pub fn push_joined(s: &mut String, parts: &Vec<String>, sep: &str)
    ensures
        final(s)@ == old(s)@ + join(views(parts@), sep@),
{
    let ghost start = s@;
    let n = parts.len();
    let mut i: usize = 0;
    while i < n
        invariant
            n == parts.len(),
            i <= n,
            s@ == start + join(views(parts@.take(i as int)), sep@),
        decreases n - i,
    {
        proof {
            let t = views(parts@.take(i as int + 1));
            assert(t.drop_last() =~= views(parts@.take(i as int)));
            assert(t.last() == parts@[i as int]@);
        }
        if i > 0 {
            push_str(s, sep);
        }
        push_str(s, parts[i].as_str());
        i = i + 1;
        proof {
            let t = views(parts@.take(i as int));
            if i == 1 {
                assert(join(t, sep@) == t[0]);
            }
            assert(s@ =~= start + join(t, sep@));
        }
    }
    assert(parts@.take(n as int) =~= parts@);
}

/// `parts` joined with `sep` as a new string.
pub fn joined(parts: &Vec<String>, sep: &str) -> (r: String)
    ensures
        r@ == join(views(parts@), sep@),
{
    let mut s = String::new();
    push_joined(&mut s, parts, sep);
    assert(s@ =~= join(views(parts@), sep@));
    s
}


/// Decimal rendering of a signed `n`: a minus sign before the magnitude of
/// a negative number.
pub open spec fn signed_decimal(n: int) -> Seq<char> {
    if n < 0 {
        "-"@ + decimal((-n) as nat)
    } else {
        decimal(n as nat)
    }
}

/// Appends the signed decimal rendering of `n`.
pub fn push_signed_decimal(s: &mut String, n: i64)
    ensures
        final(s)@ == old(s)@ + signed_decimal(n as int),
{
    if n < 0 {
        push_str(s, "-");
        let magnitude: u128 = (0i128 - n as i128) as u128;
        push_decimal_wide(s, magnitude);
        proof {
            assert(final(s)@ =~= old(s)@ + signed_decimal(n as int));
        }
    } else {
        push_decimal(s, n as u64);
    }
}


/// Whether `bytes` are well-formed UTF-8: no stray or missing continuation
/// byte, no overlong form, no surrogate.
pub open spec fn utf8_valid(bytes: Seq<u8>) -> bool {
    vstd::utf8::valid_utf8(bytes)
}

/// Calls `std::str::from_utf8`, which accepts exactly the well-formed UTF-8
/// byte strings, and tells whether it accepted `bytes`.
#[verifier::external_body]
pub(crate) fn is_utf8(bytes: &[u8]) -> (r: bool)
    ensures
        r == utf8_valid(bytes@),
{
    std::str::from_utf8(bytes).is_ok()
}


proof fn lemma_find_from_found(s: Seq<char>, p: Seq<char>, i: int)
    requires
        0 <= i,
    ensures
        find_from(s, p, i) matches Some(k) ==> k + p.len() <= s.len() && s.subrange(k, k + p.len()) == p,
        find_from(s, p, i) is None ==> forall|j: int| i <= j && j + p.len() <= s.len() ==> #[trigger] s.subrange(j, j + p.len()) != p,
    decreases s.len() + 1 - i,
{
    if i + p.len() <= s.len() && s.subrange(i, i + p.len()) != p {
        lemma_find_from_found(s, p, i + 1);
        assert forall|j: int| i <= j && j + p.len() <= s.len() && find_from(s, p, i) is None implies #[trigger] s.subrange(j, j + p.len()) != p by {
            if j > i {
                assert(i + 1 <= j);
            }
        }
    }
}

/// Whether `needle` occurs in `s` (`str::contains`).
pub fn str_contains(s: &str, needle: &str) -> (r: bool)
    ensures
        r == contains_seq(s@, needle@),
{
    proof {
        lemma_find_from_found(s@, needle@, 0);
        lemma_find_from_bounds(s@, needle@, 0);
    }
    let r = split_once_str(s, needle).is_some();
    proof {
        match find_from(s@, needle@, 0) {
            Some(k) => {
                assert(0 <= k && k + needle@.len() <= s@.len());
                assert(s@.subrange(k, k + needle@.len()) == needle@);
                assert(contains_seq(s@, needle@));
            },
            None => {
                assert(!contains_seq(s@, needle@));
            },
        }
    }
    r
}


/// Whether `s` ends with `p` (`str::ends_with`).
pub fn str_ends_with(s: &str, p: &str) -> (r: bool)
    ensures
        r == ends_with(s@, p@),
{
    let n = s.unicode_len();
    let m = p.unicode_len();
    if m > n {
        return false;
    }
    let mut i: usize = 0;
    while i < m
        invariant
            m <= n,
            n == s@.len(),
            m == p@.len(),
            i <= m,
            forall|k: int| 0 <= k < i ==> s@[n - m + k] == p@[k],
        decreases m - i,
    {
        if s.get_char(n - m + i) != p.get_char(i) {
            assert(s@.subrange(n - m, n as int)[i as int] != p@[i as int]);
            return false;
        }
        i = i + 1;
    }
    assert(s@.subrange(n - m, n as int) =~= p@);
    true
}

} // verus!
