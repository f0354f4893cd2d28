//! The terminal's size, as the environment reports it: a positive decimal
//! number, or else a default.

use crate::render::{DEFAULT_COLS, DEFAULT_ROWS};
use vstd::prelude::*;

verus! {

pub const PLUS: char = '+';

pub open spec fn is_digit(c: char) -> bool {
    '0' <= c && c <= '9'
}

/// The value of a decimal digit.
pub open spec fn digit_of(c: char) -> nat {
    (c as nat - '0' as nat) as nat
}

pub open spec fn all_digits(s: Seq<char>) -> bool {
    forall|i: int| 0 <= i < s.len() ==> is_digit(#[trigger] s[i])
}

/// The number that a run of decimal digits writes, most significant first.
pub open spec fn digits_value(s: Seq<char>) -> nat
    decreases s.len(),
{
    if s.len() == 0 {
        0
    } else {
        digits_value(s.drop_last()) * 10 + digit_of(s.last())
    }
}

/// `s` without the one plus sign that may lead it.
pub open spec fn after_sign(s: Seq<char>) -> Seq<char> {
    if s.len() > 0 && s[0] == PLUS {
        s.drop_first()
    } else {
        s
    }
}

/// The number that `s` writes: an optional plus sign, then one or more
/// decimal digits and nothing else, with a value that fits the machine
/// word. Anything else writes no number.
pub open spec fn parsed_number(s: Seq<char>) -> Option<usize> {
    let digits = after_sign(s);
    if digits.len() > 0 && all_digits(digits) && digits_value(digits) <= usize::MAX {
        Some(digits_value(digits) as usize)
    } else {
        None
    }
}

/// The dimension that a reported value stands for: the number it writes
/// where that is positive, else the default.
pub open spec fn dimension(reported: Option<Seq<char>>, default: usize) -> usize {
    match reported {
        Some(text) => match parsed_number(text) {
            Some(n) => if n > 0 {
                n
            } else {
                default
            },
            None => default,
        },
        None => default,
    }
}

/// A longer run of digits writes no smaller a number than any of its
/// prefixes.
pub proof fn lemma_digits_value_grows(s: Seq<char>, k: int)
    requires
        0 <= k <= s.len(),
    ensures
        digits_value(s.take(k)) <= digits_value(s),
    decreases s.len(),
{
    if k == s.len() {
        assert(s.take(k) =~= s);
    } else {
        assert(s.drop_last().take(k) =~= s.take(k));
        lemma_digits_value_grows(s.drop_last(), k);
    }
}

/// Reading one more character after a prefix: a plus sign in the first
/// place is skipped, any other character joins the digits.
pub proof fn lemma_after_sign_step(s: Seq<char>, i: int)
    requires
        0 <= i < s.len(),
    ensures
        i == 0 && s[0] == PLUS ==> after_sign(s.take(i + 1)) == Seq::<char>::empty(),
        !(i == 0 && s[0] == PLUS) ==> after_sign(s.take(i + 1)) == after_sign(s.take(i)).push(
            s[i],
        ),
        after_sign(s.take(i + 1)) == after_sign(s).take(after_sign(s.take(i + 1)).len() as int),
{
    let longer = s.take(i + 1);
    let shorter = s.take(i);
    if i == 0 {
        if s[0] == PLUS {
            assert(after_sign(longer) =~= Seq::<char>::empty());
        } else {
            assert(after_sign(longer) =~= after_sign(shorter).push(s[i]));
        }
    } else {
        assert(longer[0] == s[0] && shorter[0] == s[0]);
        assert(after_sign(longer) =~= after_sign(shorter).push(s[i]));
    }
    assert(after_sign(longer) =~= after_sign(s).take(after_sign(longer).len() as int));
}

/// Reads a number as `parsed_number` defines it.
pub fn parse_number(text: &str) -> (n: Option<usize>)
    ensures
        n == parsed_number(text@),
{
    let len = text.unicode_len();
    let mut value: usize = 0;
    let mut seen = false;
    let mut i: usize = 0;
    for c in it: text.chars()
        invariant
            it.seq() == text@,
            len == text@.len(),
            i == it.index(),
            i <= len,
            all_digits(after_sign(text@.take(i as int))),
            value == digits_value(after_sign(text@.take(i as int))),
            seen == (after_sign(text@.take(i as int)).len() > 0),
    {
        proof {
            lemma_after_sign_step(text@, i as int);
        }
        let ghost read = after_sign(text@.take(i + 1));
        if i == 0 && c == PLUS {
        } else if '0' <= c && c <= '9' {
            let digit = (c as u32 - '0' as u32) as usize;
            proof {
                assert(read.drop_last() =~= after_sign(text@.take(i as int)));
                assert(digits_value(read) == value * 10 + digit);
                lemma_digits_value_grows(after_sign(text@), read.len() as int);
            }
            let scaled = value.checked_mul(10);
            if scaled.is_none() {
                return None;
            }
            let next = scaled.unwrap().checked_add(digit);
            if next.is_none() {
                return None;
            }
            value = next.unwrap();
            seen = true;
        } else {
            proof {
                assert(after_sign(text@)[read.len() - 1] == c);
            }
            return None;
        }
        i += 1;
    }
    proof {
        assert(text@.take(len as int) =~= text@);
    }
    if seen {
        Some(value)
    } else {
        None
    }
}

/// The dimension that a reported value stands for.
pub fn dimension_or(reported: Option<&str>, default: usize) -> (n: usize)
    ensures
        n == dimension(
            match reported {
                Some(text) => Some(text@),
                None => None,
            },
            default,
        ),
{
    match reported {
        Some(text) => match parse_number(text) {
            Some(n) => if n > 0 {
                n
            } else {
                default
            },
            None => default,
        },
        None => default,
    }
}

/// The terminal's height from what `LINES` holds: 24 where it is unset or
/// holds no positive number.
pub fn terminal_rows(lines: Option<&str>) -> (rows: usize)
    ensures
        rows == dimension(
            match lines {
                Some(text) => Some(text@),
                None => None,
            },
            DEFAULT_ROWS,
        ),
        rows > 0,
{
    dimension_or(lines, DEFAULT_ROWS)
}

/// The terminal's width from what `COLUMNS` holds: 120 where it is unset or
/// holds no positive number.
pub fn terminal_cols(columns: Option<&str>) -> (cols: usize)
    ensures
        cols == dimension(
            match columns {
                Some(text) => Some(text@),
                None => None,
            },
            DEFAULT_COLS,
        ),
        cols > 0,
{
    dimension_or(columns, DEFAULT_COLS)
}

} // verus!
