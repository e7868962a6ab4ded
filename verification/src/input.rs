//! Reading a cell number from a line of text.
//!
//! A line names a cell if, once the white space around it is taken away, it
//! is a decimal number, with or without a `+` in front, that fits a `usize`.
//! Every other line stands for cell number 0, which no board has.

use vstd::prelude::*;

verus! {

/// Whether `c` is white space.
pub open spec fn is_space(c: char) -> bool {
    ||| '\u{9}' <= c <= '\u{d}'
    ||| c == ' '
    ||| c == '\u{85}'
    ||| c == '\u{a0}'
    ||| c == '\u{1680}'
    ||| '\u{2000}' <= c <= '\u{200a}'
    ||| c == '\u{2028}'
    ||| c == '\u{2029}'
    ||| c == '\u{202f}'
    ||| c == '\u{205f}'
    ||| c == '\u{3000}'
}

/// Whether `c` is one of the digits `0` to `9`.
pub open spec fn is_digit(c: char) -> bool {
    '0' <= c <= '9'
}

/// The number that the digit `c` stands for.
pub open spec fn digit_value(c: char) -> nat
    recommends
        is_digit(c),
{
    (c as int - '0' as int) as nat
}

/// `text` without the white space at its start and at its end.
pub open spec fn trimmed(text: Seq<char>) -> Seq<char>
    decreases text.len(),
{
    if text.len() > 0 && is_space(text.first()) {
        trimmed(text.drop_first())
    } else if text.len() > 0 && is_space(text.last()) {
        trimmed(text.drop_last())
    } else {
        text
    }
}

/// `text` without the `+` in front of it, if there is one.
pub open spec fn unsigned(text: Seq<char>) -> Seq<char> {
    if text.len() > 0 && text.first() == '+' {
        text.drop_first()
    } else {
        text
    }
}

/// Whether `digits` is a decimal number: one digit at least, and digits only.
pub open spec fn is_decimal(digits: Seq<char>) -> bool {
    digits.len() > 0 && forall|i: int| 0 <= i < digits.len() ==> is_digit(#[trigger] digits[i])
}

/// The number that `digits` stands for, read as a decimal.
pub open spec fn decimal_value(digits: Seq<char>) -> nat
    decreases digits.len(),
{
    if digits.len() == 0 {
        0
    } else {
        decimal_value(digits.drop_last()) * 10 + digit_value(digits.last())
    }
}

/// The cell number that the line `text` stands for.
pub open spec fn cell_number_of(text: Seq<char>) -> nat {
    let digits = unsigned(trimmed(text));
    if is_decimal(digits) && decimal_value(digits) <= usize::MAX {
        decimal_value(digits)
    } else {
        0
    }
}

/// A decimal number is worth no less than any of its beginnings.
pub proof fn lemma_decimal_value_grows(digits: Seq<char>, length: int)
    requires
        0 <= length <= digits.len(),
    ensures
        decimal_value(digits.take(length)) <= decimal_value(digits),
    decreases digits.len() - length,
{
    if length == digits.len() {
        assert(digits.take(length) =~= digits);
    } else {
        lemma_decimal_value_grows(digits.drop_last(), length);
        assert(digits.drop_last().take(length) =~= digits.take(length));
    }
}

/// Whether `c` is white space.
pub fn is_whitespace(c: char) -> (space: bool)
    ensures
        space == is_space(c),
{
    ('\u{9}' <= c && c <= '\u{d}') || c == ' ' || c == '\u{85}' || c == '\u{a0}' || c
        == '\u{1680}' || ('\u{2000}' <= c && c <= '\u{200a}') || c == '\u{2028}' || c
        == '\u{2029}' || c == '\u{202f}' || c == '\u{205f}' || c == '\u{3000}'
}

/// The characters of `text`, in order.
fn characters(text: &str) -> (chars: Vec<char>)
    ensures
        chars@ == text@,
{
    let mut chars: Vec<char> = Vec::new();
    for c in rest: text.chars()
        invariant
            rest.seq() == text@,
            chars@ == rest.seq().take(rest.index() as int),
    {
        chars.push(c);
    }
    chars
}

/// Reads the cell number that the line `input` names. A line that names
/// none gives 0.
pub fn parse_cell_number(input: &str) -> (cell_number: usize)
    ensures
        cell_number == cell_number_of(input@),
{
    let chars = characters(input);
    let mut start: usize = 0;
    proof {
        assert(chars@.subrange(0, chars@.len() as int) =~= chars@);
    }
    while start < chars.len() && is_whitespace(chars[start])
        invariant
            start <= chars@.len(),
            trimmed(chars@) == trimmed(chars@.subrange(start as int, chars@.len() as int)),
        decreases chars@.len() - start,
    {
        proof {
            assert(chars@.subrange(start as int, chars@.len() as int).drop_first()
                =~= chars@.subrange(start + 1, chars@.len() as int));
        }
        start = start + 1;
    }
    let mut end: usize = chars.len();
    while end > start && is_whitespace(chars[end - 1])
        invariant
            start <= end <= chars@.len(),
            start == chars@.len() || !is_space(chars@[start as int]),
            trimmed(chars@) == trimmed(chars@.subrange(start as int, end as int)),
        decreases end,
    {
        proof {
            assert(chars@.subrange(start as int, end as int).drop_last() =~= chars@.subrange(
                start as int,
                end - 1,
            ));
        }
        end = end - 1;
    }
    if start < end && chars[start] == '+' {
        proof {
            assert(chars@.subrange(start as int, end as int).drop_first() =~= chars@.subrange(
                start + 1,
                end as int,
            ));
        }
        start = start + 1;
    }
    let ghost digits = chars@.subrange(start as int, end as int);
    if start == end {
        return 0;
    }
    let mut cell_number: usize = 0;
    let mut next: usize = start;
    while next < end
        invariant
            start <= next <= end <= chars@.len(),
            digits == chars@.subrange(start as int, end as int),
            digits == unsigned(trimmed(input@)),
            forall|i: int| 0 <= i < next - start ==> is_digit(#[trigger] digits[i]),
            cell_number == decimal_value(digits.take(next - start)),
        decreases end - next,
    {
        let c = chars[next];
        proof {
            assert(digits.take(next - start + 1).drop_last() =~= digits.take(next - start));
            lemma_decimal_value_grows(digits, next - start + 1);
        }
        if c < '0' || c > '9' {
            return 0;
        }
        let digit = (c as u32 - '0' as u32) as usize;
        let tens = match cell_number.checked_mul(10) {
            Some(tens) => tens,
            None => {
                return 0;
            },
        };
        cell_number = match tens.checked_add(digit) {
            Some(sum) => sum,
            None => {
                return 0;
            },
        };
        next = next + 1;
    }
    proof {
        assert(digits.take(next - start) =~= digits);
    }
    cell_number
}

} // verus!
