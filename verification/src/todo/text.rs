//! Numbers as decimal text, both ways.

use vstd::prelude::*;
use vstd::string::{StrSliceExecFns, StringExecFns};

verus! {

/// The character of one decimal digit.
pub open spec fn digit(d: int) -> char {
    if d == 0 {
        '0'
    } else if d == 1 {
        '1'
    } else if d == 2 {
        '2'
    } else if d == 3 {
        '3'
    } else if d == 4 {
        '4'
    } else if d == 5 {
        '5'
    } else if d == 6 {
        '6'
    } else if d == 7 {
        '7'
    } else if d == 8 {
        '8'
    } else {
        '9'
    }
}

/// A number written in decimal, without leading zeros.
pub open spec fn decimal(n: nat) -> Seq<char>
    decreases n,
{
    if n < 10 {
        seq![digit(n as int)]
    } else {
        decimal(n / 10).push(digit((n % 10) as int))
    }
}

/// The text of one decimal digit.
fn digit_text(d: u64) -> (text: &'static str)
    requires
        d < 10,
    ensures
        text@ == seq![digit(d as int)],
{
    proof {
        reveal_strlit("0");
        reveal_strlit("1");
        reveal_strlit("2");
        reveal_strlit("3");
        reveal_strlit("4");
        reveal_strlit("5");
        reveal_strlit("6");
        reveal_strlit("7");
        reveal_strlit("8");
        reveal_strlit("9");
    }
    if d == 0 {
        "0"
    } else if d == 1 {
        "1"
    } else if d == 2 {
        "2"
    } else if d == 3 {
        "3"
    } else if d == 4 {
        "4"
    } else if d == 5 {
        "5"
    } else if d == 6 {
        "6"
    } else if d == 7 {
        "7"
    } else if d == 8 {
        "8"
    } else {
        "9"
    }
}

/// Writes a number in decimal.
pub fn decimal_text(n: u64) -> (text: String)
    ensures
        text@ == decimal(n as nat),
    decreases n,
{
    if n < 10 {
        digit_text(n).to_owned()
    } else {
        let mut text = decimal_text(n / 10);
        text.append(digit_text(n % 10));
        text
    }
}

/// Whether a character is a decimal digit.
pub open spec fn is_digit(c: char) -> bool {
    exists|d: int| 0 <= d < 10 && c == #[trigger] digit(d)
}

/// The number that a decimal digit stands for.
pub open spec fn digit_value(c: char) -> int {
    choose|d: int| 0 <= d < 10 && c == #[trigger] digit(d)
}

/// The number that a run of decimal digits stands for.
pub open spec fn number(digits: Seq<char>) -> nat
    decreases digits.len(),
{
    if digits.len() == 0 {
        0
    } else {
        (number(digits.drop_last()) * 10 + digit_value(digits.last())) as nat
    }
}

/// Whether every character of a text is a decimal digit.
pub open spec fn all_digits(text: Seq<char>) -> bool {
    forall|i: int| 0 <= i < text.len() ==> is_digit(#[trigger] text[i])
}

/// The id that a text stands for: an optional plus sign, then one digit or
/// more and nothing else, with a value that fits 64 bits.
pub open spec fn parsed(text: Seq<char>) -> Option<u64> {
    let digits = if text.len() > 0 && text[0] == '+' {
        text.skip(1)
    } else {
        text
    };
    if digits.len() > 0 && all_digits(digits) && number(digits) <= u64::MAX {
        Some(number(digits) as u64)
    } else {
        None
    }
}

/// Every digit stands for itself.
pub proof fn lemma_digit_value(d: int)
    requires
        0 <= d < 10,
    ensures
        is_digit(digit(d)),
        digit_value(digit(d)) == d,
{
    // the digit's number is some number whose digit it is, and no two numbers share a digit
    let v = digit_value(digit(d));
    assert(0 <= v < 10 && digit(d) == digit(v));
}

/// More digits never stand for a smaller number.
pub proof fn lemma_number_grows(digits: Seq<char>, shown: int)
    requires
        all_digits(digits),
        0 <= shown <= digits.len(),
    ensures
        number(digits.take(shown)) <= number(digits),
    decreases digits.len() - shown,
{
    if shown < digits.len() {
        let next = digits.take(shown + 1);
        assert(next.drop_last() =~= digits.take(shown));
        lemma_number_grows(digits, shown + 1);
    } else {
        assert(digits.take(shown) =~= digits);
    }
}

/// What is written in decimal reads back as the same number.
pub proof fn lemma_decimal_reads_back(n: nat)
    ensures
        decimal(n).len() > 0,
        all_digits(decimal(n)),
        decimal(n)[0] != '+',
        number(decimal(n)) == n,
    decreases n,
{
    if n < 10 {
        lemma_digit_value(n as int);
        assert(number(decimal(n).drop_last()) == 0);
    } else {
        lemma_decimal_reads_back(n / 10);
        lemma_digit_value((n % 10) as int);
        assert(decimal(n).drop_last() =~= decimal(n / 10));
    }
}

/// An id that was written in decimal parses to itself.
pub proof fn lemma_written_id_parses(id: u64)
    ensures
        parsed(decimal(id as nat)) == Some(id),
{
    lemma_decimal_reads_back(id as nat);
}

/// The number of a decimal digit, or `None` for any other character.
fn digit_of(c: char) -> (d: Option<u64>)
    ensures
        match d {
            Some(d) => is_digit(c) && digit_value(c) == d,
            None => !is_digit(c),
        },
{
    let d: Option<u64> = if c == '0' {
        Some(0)
    } else if c == '1' {
        Some(1)
    } else if c == '2' {
        Some(2)
    } else if c == '3' {
        Some(3)
    } else if c == '4' {
        Some(4)
    } else if c == '5' {
        Some(5)
    } else if c == '6' {
        Some(6)
    } else if c == '7' {
        Some(7)
    } else if c == '8' {
        Some(8)
    } else if c == '9' {
        Some(9)
    } else {
        None
    };
    proof {
        match d {
            Some(d) => {
                lemma_digit_value(d as int);
            },
            None => {
                assert forall|v: int| 0 <= v < 10 implies c != #[trigger] digit(v) by {}
            },
        }
    }
    d
}

/// Reads an id: an optional plus sign, then one digit or more and nothing
/// else. `None` for any other text, and for a number beyond 64 bits.
pub fn parse_id(text: &str) -> (id: Option<u64>)
    ensures
        id == parsed(text@),
{
    let len = text.unicode_len();
    let start: usize = if len > 0 && text.get_char(0) == '+' {
        1
    } else {
        0
    };
    let ghost digits = text@.skip(start as int);
    proof {
        assert(text@.skip(0) =~= text@);
    }
    if start == len {
        return None;
    }
    let mut value: u64 = 0;
    let mut i: usize = start;
    while i < len
        invariant
            len == text@.len(),
            start <= i <= len,
            digits == text@.skip(start as int),
            digits.len() > 0,
            parsed(text@) == if all_digits(digits) && number(digits) <= u64::MAX {
                Some(number(digits) as u64)
            } else {
                None
            },
            all_digits(digits.take(i - start)),
            value == number(digits.take(i - start)),
        decreases len - i,
    {
        let ghost shown = digits.take(i - start);
        let ghost next = digits.take(i - start + 1);
        proof {
            assert(next.drop_last() =~= shown);
        }
        let d = match digit_of(text.get_char(i)) {
            Some(d) => d,
            None => {
                assert(!is_digit(digits[i - start]));
                return None;
            },
        };
        if value > (u64::MAX - d) / 10 {
            proof {
                if all_digits(digits) {
                    lemma_number_grows(digits, i - start + 1);
                }
            }
            return None;
        }
        value = value * 10 + d;
        assert forall|k: int| 0 <= k < next.len() implies is_digit(#[trigger] next[k]) by {
            assert(k < shown.len() ==> next[k] == shown[k]);
        }
        i = i + 1;
    }
    proof {
        assert(digits.take(len - start) =~= digits);
    }
    Some(value)
}

} // verus!
