//! Text building blocks: decimal numerals and character-wise string assembly.

use vstd::prelude::*;

verus! {

/// The character that writes the decimal digit `d`.
pub open spec fn digit_char(d: nat) -> char {
    if d == 0 {
        '0'
    } else if d == 1 {
        '1'
    } else if d == 2 {
        '2'
    } else if d == 3 {
        '3'
    } else if d == 4 {
        '4'
    } else if d == 5 {
        '5'
    } else if d == 6 {
        '6'
    } else if d == 7 {
        '7'
    } else if d == 8 {
        '8'
    } else {
        '9'
    }
}

/// The decimal numeral of `n`, most significant digit first, without
/// leading zeros (`0` is written `"0"`).
pub open spec fn decimal(n: nat) -> Seq<char>
    decreases n,
{
    if n < 10 {
        seq![digit_char(n)]
    } else {
        decimal(n / 10).push(digit_char(n % 10))
    }
}

/// The decimal numeral of a number is not empty and holds digits only.
pub proof fn lemma_decimal_is_digits(n: nat)
    ensures
        decimal(n).len() > 0,
        forall|i: int| 0 <= i < decimal(n).len() ==> digit_value(#[trigger] decimal(n)[i]) is Some,
    decreases n,
{
    if n >= 10 {
        lemma_decimal_is_digits(n / 10);
    }
}

/// Appends one character to a string.
///
/// Trusted: `String::push` of the standard library, which appends the given
/// character to the end of the string and changes nothing else.
#[verifier::external_body]
pub(crate) fn push_char(s: &mut String, c: char)
    ensures
        final(s)@ == old(s)@.push(c),
{
    s.push(c)
}

/// The character of a decimal digit.
fn digit_of(d: u64) -> (c: char)
    requires
        d < 10,
    ensures
        c == digit_char(d as nat),
{
    if d == 0 {
        '0'
    } else if d == 1 {
        '1'
    } else if d == 2 {
        '2'
    } else if d == 3 {
        '3'
    } else if d == 4 {
        '4'
    } else if d == 5 {
        '5'
    } else if d == 6 {
        '6'
    } else if d == 7 {
        '7'
    } else if d == 8 {
        '8'
    } else {
        '9'
    }
}

/// Writes `n` in decimal.
pub fn decimal_string(n: u64) -> (s: String)
    ensures
        s@ == decimal(n as nat),
{
    let mut digits: Vec<char> = Vec::new();
    let mut rest: u64 = n;
    while rest >= 10
        invariant
            decimal(n as nat) == decimal(rest as nat) + digits@.reverse(),
        decreases rest,
    {
        digits.push(digit_of(rest % 10));
        rest = rest / 10;
    }
    let mut s = String::new();
    push_char(&mut s, digit_of(rest));
    let mut i: usize = digits.len();
    while i > 0
        invariant
            i <= digits.len(),
            rest < 10,
            s@ == decimal(rest as nat) + digits@.reverse().subrange(0, digits.len() - i),
        decreases i,
    {
        i = i - 1;
        push_char(&mut s, digits[i]);
    }
    s
}

/// Whether a string holds exactly the given text.
pub fn same_text(s: &String, text: &str) -> (same: bool)
    ensures
        same == (s@ == text@),
{
    let owned = text.to_owned();
    *s == owned
}

/// The value of a decimal digit; `None` for any other character.
pub open spec fn digit_value(c: char) -> Option<nat> {
    if c == '0' {
        Some(0)
    } else if c == '1' {
        Some(1)
    } else if c == '2' {
        Some(2)
    } else if c == '3' {
        Some(3)
    } else if c == '4' {
        Some(4)
    } else if c == '5' {
        Some(5)
    } else if c == '6' {
        Some(6)
    } else if c == '7' {
        Some(7)
    } else if c == '8' {
        Some(8)
    } else if c == '9' {
        Some(9)
    } else {
        None
    }
}

/// The number that a non-empty run of decimal digits writes; `None` when
/// the run is empty or holds anything but digits.
pub open spec fn digits_value(digits: Seq<char>) -> Option<nat>
    decreases digits.len(),
{
    if digits.len() == 0 {
        None
    } else {
        match digit_value(digits.last()) {
            None => None,
            Some(d) => if digits.len() == 1 {
                Some(d)
            } else {
                match digits_value(digits.drop_last()) {
                    None => None,
                    Some(v) => Some(v * 10 + d),
                }
            },
        }
    }
}

/// The number that `text` writes as an unsigned decimal: an optional `+`
/// followed by at least one digit and nothing else.
pub open spec fn unsigned_value(text: Seq<char>) -> Option<nat> {
    if text.len() > 0 && text[0] == '+' {
        digits_value(text.drop_first())
    } else {
        digits_value(text)
    }
}

/// The `u64` that `text` writes, if it writes one that fits.
pub open spec fn parsed_u64(text: Seq<char>) -> Option<u64> {
    match unsigned_value(text) {
        Some(v) => if v <= u64::MAX {
            Some(v as u64)
        } else {
            None
        },
        None => None,
    }
}

/// The value of a character that is a decimal digit.
fn value_of_digit(c: char) -> (d: Option<u64>)
    ensures
        match d {
            Some(d) => d < 10 && digit_value(c) == Some(d as nat),
            None => digit_value(c) is None,
        },
{
    if c == '0' {
        Some(0)
    } else if c == '1' {
        Some(1)
    } else if c == '2' {
        Some(2)
    } else if c == '3' {
        Some(3)
    } else if c == '4' {
        Some(4)
    } else if c == '5' {
        Some(5)
    } else if c == '6' {
        Some(6)
    } else if c == '7' {
        Some(7)
    } else if c == '8' {
        Some(8)
    } else if c == '9' {
        Some(9)
    } else {
        None
    }
}

/// A run of digits is worth at least as much as any of its non-empty
/// beginnings, and a run with a beginning that is no number is no number.
proof fn lemma_digits_value_grows(digits: Seq<char>, k: int)
    requires
        0 < k <= digits.len(),
    ensures
        digits_value(digits.take(k)) is None ==> digits_value(digits) is None,
        digits_value(digits) is Some ==> digits_value(digits.take(k))->0 <= digits_value(digits)->0,
    decreases digits.len(),
{
    if k == digits.len() {
        assert(digits.take(k) =~= digits);
    } else {
        assert(digits.drop_last().take(k) =~= digits.take(k));
        lemma_digits_value_grows(digits.drop_last(), k);
    }
}

/// Reads an unsigned decimal number: an optional `+`, then digits only.
/// Empty text, any other character, and a number beyond `u64` give `None`.
pub fn parse_u64(text: &str) -> (value: Option<u64>)
    ensures
        value == parsed_u64(text@),
{
    let len = text.unicode_len();
    if len == 0 {
        return None;
    }
    let start: usize = if text.get_char(0) == '+' {
        1
    } else {
        0
    };
    if start == len {
        return None;
    }
    let ghost digits = if start == 1 {
        text@.drop_first()
    } else {
        text@
    };
    let mut value: u64 = 0;
    let mut i: usize = start;
    while i < len
        invariant
            start <= i <= len,
            start < len,
            len == text@.len(),
            digits == text@.subrange(start as int, len as int),
            unsigned_value(text@) == digits_value(digits),
            i > start ==> digits_value(digits.take(i - start)) == Some(value as nat),
            i == start ==> value == 0,
        decreases len - i,
    {
        let ghost seen = digits.take(i - start);
        let ghost next = digits.take(i + 1 - start);
        proof {
            assert(next.drop_last() =~= seen);
            lemma_digits_value_grows(digits, i + 1 - start);
        }
        match value_of_digit(text.get_char(i)) {
            None => {
                return None;
            },
            Some(d) => {
                if value > (u64::MAX - d) / 10 {
                    return None;
                }
                value = value * 10 + d;
            },
        }
        i = i + 1;
    }
    assert(digits.take(len - start) =~= digits);
    Some(value)
}

/// Copies a list of strings.
pub fn copy_strings(list: &Vec<String>) -> (copy: Vec<String>)
    ensures
        copy.deep_view() == list.deep_view(),
{
    let mut copy: Vec<String> = Vec::new();
    let mut i: usize = 0;
    while i < list.len()
        invariant
            i <= list.len(),
            copy.len() == i,
            forall|j: int| 0 <= j < i ==> copy[j]@ == list[j]@,
        decreases list.len() - i,
    {
        copy.push(list[i].clone());
        i = i + 1;
    }
    copy
}

} // verus!
