//! Reading numbers out of the text of a specification cell.
//!
//! A cell such as `12 HP`, `12U spare` or `25&nbsp;mm` carries its number at
//! the start of its first token. The functions here find that token and read
//! the number it starts with: an optional `+`, then the decimal digits that
//! follow, whose value must be at most 255. What stands behind the digits is
//! not looked at.

use vstd::prelude::*;
use vstd::std_specs::iter::IteratorSpec;
use vstd::string::StringExecFns;

verus! {

/// Whether `c` separates tokens: the code points with the Unicode
/// `White_Space` property.
pub open spec fn is_space(c: char) -> bool {
    let n = c as u32;
    ||| 0x09 <= n <= 0x0D
    ||| n == 0x20
    ||| n == 0x85
    ||| n == 0xA0
    ||| n == 0x1680
    ||| 0x2000 <= n <= 0x200A
    ||| n == 0x2028
    ||| n == 0x2029
    ||| n == 0x202F
    ||| n == 0x205F
    ||| n == 0x3000
}

/// Where the run of separators that starts at `from` ends.
pub open spec fn spaces_end(s: Seq<char>, from: int) -> int
    decreases s.len() - from,
{
    if 0 <= from < s.len() && is_space(s[from]) {
        spaces_end(s, from + 1)
    } else {
        from
    }
}

/// Where the run of non-separators that starts at `from` ends.
pub open spec fn word_end(s: Seq<char>, from: int) -> int
    decreases s.len() - from,
{
    if 0 <= from < s.len() && !is_space(s[from]) {
        word_end(s, from + 1)
    } else {
        from
    }
}

/// The first whitespace-delimited token of `s`; empty where `s` has none.
pub open spec fn first_token(s: Seq<char>) -> Seq<char> {
    let start = spaces_end(s, 0);
    s.subrange(start, word_end(s, start))
}

/// Whether `c` is one of `0` to `9`.
pub open spec fn is_digit(c: char) -> bool {
    0x30 <= c as u32 <= 0x39
}

/// The number that the digit `c` stands for; 0 for any other character.
pub open spec fn digit_value(c: char) -> nat {
    if is_digit(c) {
        (c as u32 - 0x30) as nat
    } else {
        0
    }
}

/// The number that the digit string `s` denotes in base ten.
pub open spec fn decimal_value(s: Seq<char>) -> nat
    decreases s.len(),
{
    if s.len() == 0 {
        0
    } else {
        decimal_value(s.drop_last()) * 10 + digit_value(s.last())
    }
}

/// Where the run of decimal digits that starts at `from` ends.
pub open spec fn digits_end(s: Seq<char>, from: int) -> int
    decreases s.len() - from,
{
    if 0 <= from < s.len() && is_digit(s[from]) {
        digits_end(s, from + 1)
    } else {
        from
    }
}

/// A token without its sign: without the `+` that it may start with.
pub open spec fn unsigned_part(token: Seq<char>) -> Seq<char> {
    if token.len() > 0 && token[0] == '+' {
        token.drop_first()
    } else {
        token
    }
}

/// The decimal digits that `s` starts with.
pub open spec fn leading_digits(s: Seq<char>) -> Seq<char> {
    s.take(digits_end(s, 0))
}

/// The `u8` that `token` starts with, if it starts with one: after an
/// optional `+` comes at least one decimal digit, and the value of the digits
/// up to the first character that is none is at most 255.
pub open spec fn u8_of(token: Seq<char>) -> Option<u8> {
    let digits = leading_digits(unsigned_part(token));
    if digits.len() > 0 && decimal_value(digits) <= 255 {
        Some(decimal_value(digits) as u8)
    } else {
        None
    }
}

/// The number a cell's text starts with: the `u8` that its first token
/// starts with.
pub open spec fn leading_u8(text: Seq<char>) -> Option<u8> {
    u8_of(first_token(text))
}

/// Executable form of [`is_space`].
pub fn char_is_space(c: char) -> (b: bool)
    ensures
        b == is_space(c),
{
    let n: u32 = c as u32;
    (0x09 <= n && n <= 0x0D) || n == 0x20 || n == 0x85 || n == 0xA0 || n == 0x1680 || (0x2000 <= n
        && n <= 0x200A) || n == 0x2028 || n == 0x2029 || n == 0x202F || n == 0x205F || n == 0x3000
}

/// The characters of `s`, in order.
pub fn chars_of(s: &str) -> (v: Vec<char>)
    ensures
        v@ == s@,
{
    let mut v: Vec<char> = Vec::new();
    let mut it = s.chars();
    loop
        invariant
            v@ + it.remaining() == s@,
            it.decrease() is Some,
        ensures
            v@ == s@,
        decreases it.decrease()->0,
    {
        match it.next() {
            Some(c) => {
                v.push(c);
            },
            None => {
                break ;
            },
        }
    }
    v
}

/// Whether `a` and `b` hold the same characters.
pub fn same_text(a: &str, b: &str) -> (r: bool)
    ensures
        r == (a@ == b@),
{
    let mut left = a.chars();
    let mut right = b.chars();
    let ghost mut seen: Seq<char> = Seq::empty();
    loop
        invariant
            seen + left.remaining() == a@,
            seen + right.remaining() == b@,
            left.decrease() is Some,
        decreases left.decrease()->0,
    {
        match (left.next(), right.next()) {
            (Some(x), Some(y)) => {
                if x != y {
                    assert(a@[seen.len() as int] == x);
                    assert(b@[seen.len() as int] == y);
                    return false;
                }
                proof {
                    assert(seen.push(x) + left.remaining() =~= a@);
                    assert(seen.push(x) + right.remaining() =~= b@);
                    seen = seen.push(x);
                }
            },
            (None, None) => {
                assert(a@ =~= seen);
                assert(b@ =~= seen);
                return true;
            },
            (Some(_), None) => {
                assert(a@.len() > b@.len());
                return false;
            },
            (None, Some(_)) => {
                assert(a@.len() < b@.len());
                return false;
            },
        }
    }
}

/// The bounds of the first token of `chars`.
pub fn first_token_bounds(chars: &Vec<char>) -> (r: (usize, usize))
    ensures
        r.0 == spaces_end(chars@, 0),
        r.1 == word_end(chars@, r.0 as int),
        r.0 <= r.1 <= chars.len(),
{
    let n = chars.len();
    let mut start: usize = 0;
    while start < n && char_is_space(chars[start])
        invariant
            start <= n == chars.len(),
            spaces_end(chars@, 0) == spaces_end(chars@, start as int),
        decreases n - start,
    {
        start += 1;
    }
    let mut end: usize = start;
    while end < n && !char_is_space(chars[end])
        invariant
            start <= end <= n == chars.len(),
            word_end(chars@, start as int) == word_end(chars@, end as int),
        decreases n - end,
    {
        end += 1;
    }
    (start, end)
}

/// Reads the `u8` that `chars[from..to]` starts with.
pub fn parse_u8(chars: &Vec<char>, from: usize, to: usize) -> (r: Option<u8>)
    requires
        from <= to <= chars.len(),
    ensures
        r == u8_of(chars@.subrange(from as int, to as int)),
{
    let ghost token = chars@.subrange(from as int, to as int);
    let mut start: usize = from;
    if from < to && chars[from] == '+' {
        start = from + 1;
    }
    let ghost rest = chars@.subrange(start as int, to as int);
    assert(rest =~= unsigned_part(token));
    let mut value: u16 = 0;
    let mut too_large = false;
    let mut i: usize = start;
    assert(rest.take(0) =~= Seq::<char>::empty());
    while i < to && 0x30 <= chars[i] as u32 && chars[i] as u32 <= 0x39
        invariant
            start <= i <= to <= chars.len(),
            rest == chars@.subrange(start as int, to as int),
            digits_end(rest, 0) == digits_end(rest, i - start),
            !too_large ==> value == decimal_value(rest.take(i - start)),
            too_large ==> decimal_value(rest.take(i - start)) > 255,
            value <= 255,
        decreases to - i,
    {
        let digit: u16 = (chars[i] as u32 - 0x30) as u16;
        proof {
            let longer = rest.take(i + 1 - start);
            assert(rest[i - start] == chars@[i as int]);
            assert(longer.drop_last() =~= rest.take(i - start));
            assert(longer.last() == rest[i - start]);
        }
        if !too_large {
            let next: u16 = value * 10 + digit;
            if next > 255 {
                too_large = true;
            } else {
                value = next;
            }
        }
        i += 1;
    }
    assert(i < to ==> rest[i - start] == chars@[i as int]);
    assert(digits_end(rest, 0) == i - start);
    if i == start || too_large {
        None
    } else {
        Some(value as u8)
    }
}

/// The number that `text` starts with: the `u8` that its first
/// whitespace-delimited token starts with. `None` where there is no token,
/// or it starts with no digit, or the digits give more than 255.
pub fn read_leading_u8(text: &str) -> (r: Option<u8>)
    ensures
        r == leading_u8(text@),
{
    let chars = chars_of(text);
    let (start, end) = first_token_bounds(&chars);
    parse_u8(&chars, start, end)
}

/// The character that writes the digit `d`.
pub open spec fn digit_char(d: nat) -> char {
    if d == 0 {
        '0'
    } else if d == 1 {
        '1'
    } else if d == 2 {
        '2'
    } else if d == 3 {
        '3'
    } else if d == 4 {
        '4'
    } else if d == 5 {
        '5'
    } else if d == 6 {
        '6'
    } else if d == 7 {
        '7'
    } else if d == 8 {
        '8'
    } else {
        '9'
    }
}

/// `n` written in base ten, without leading zeros.
pub open spec fn decimal(n: nat) -> Seq<char>
    decreases n,
{
    if n < 10 {
        seq![digit_char(n)]
    } else {
        decimal(n / 10).push(digit_char(n % 10))
    }
}

/// The text of one digit.
fn digit_text(d: usize) -> (s: &'static str)
    requires
        d < 10,
    ensures
        s@ == seq![digit_char(d as nat)],
{
    proof {
        reveal_strlit("0");
        reveal_strlit("1");
        reveal_strlit("2");
        reveal_strlit("3");
        reveal_strlit("4");
        reveal_strlit("5");
        reveal_strlit("6");
        reveal_strlit("7");
        reveal_strlit("8");
        reveal_strlit("9");
    }
    let s = if d == 0 {
        "0"
    } else if d == 1 {
        "1"
    } else if d == 2 {
        "2"
    } else if d == 3 {
        "3"
    } else if d == 4 {
        "4"
    } else if d == 5 {
        "5"
    } else if d == 6 {
        "6"
    } else if d == 7 {
        "7"
    } else if d == 8 {
        "8"
    } else {
        "9"
    };
    assert(s@ =~= seq![digit_char(d as nat)]);
    s
}

/// Writes `n` in base ten at the end of `out`.
pub fn append_decimal(out: &mut String, n: usize)
    ensures
        final(out)@ == old(out)@ + decimal(n as nat),
    decreases n,
{
    if n >= 10 {
        append_decimal(out, n / 10);
    }
    out.append(digit_text(n % 10));
    assert(out@ =~= old(out)@ + decimal(n as nat));
}

} // verus!
