//! The program's text: the repeat count as it is typed, and the lines that
//! are printed.

use crate::tally::Counters;
use vstd::prelude::*;
use vstd::string::*;

verus! {

/// The character of a decimal digit.
pub open spec fn digit_char(digit: nat) -> char {
    if digit == 0 {
        '0'
    } else if digit == 1 {
        '1'
    } else if digit == 2 {
        '2'
    } else if digit == 3 {
        '3'
    } else if digit == 4 {
        '4'
    } else if digit == 5 {
        '5'
    } else if digit == 6 {
        '6'
    } else if digit == 7 {
        '7'
    } else if digit == 8 {
        '8'
    } else {
        '9'
    }
}

/// A number in decimal, without sign or leading zeros.
pub open spec fn decimal(number: nat) -> Seq<char>
    decreases number,
{
    if number < 10 {
        seq![digit_char(number)]
    } else {
        decimal(number / 10).push(digit_char(number % 10))
    }
}

/// The line a producer prints when it has sent everything.
pub open spec fn done_text(tag: nat) -> Seq<char> {
    "thread "@ + decimal(tag) + " done"@
}

/// The line that gives one tag's count.
pub open spec fn count_text(tag: nat, count: nat) -> Seq<char> {
    "thread "@ + decimal(tag) + " => "@ + decimal(count)
}

/// The elapsed time: seconds, a dot, and the nanoseconds beyond them, both
/// as plain decimals.
pub open spec fn elapsed_text(seconds: nat, nanoseconds: nat) -> Seq<char> {
    decimal(seconds) + "."@ + decimal(nanoseconds)
}

/// The line that says how the program is called.
pub open spec fn usage_text(program: Seq<char>) -> Seq<char> {
    program + " num"@
}

/// The plus sign in ASCII.
const PLUS: u8 = 43;

/// The digit zero in ASCII.
const ZERO: u8 = 48;

/// The digit nine in ASCII.
const NINE: u8 = 57;

/// A decimal digit.
pub open spec fn is_digit(c: char) -> bool {
    '0' <= c && c <= '9'
}

/// Every character is a decimal digit.
pub open spec fn all_digits(text: Seq<char>) -> bool {
    forall|i: int| 0 <= i < text.len() ==> is_digit(#[trigger] text[i])
}

/// What a decimal digit stands for.
pub open spec fn digit_value(c: char) -> nat {
    (c as nat - '0' as nat) as nat
}

/// The number that a run of decimal digits stands for.
pub open spec fn digits_value(digits: Seq<char>) -> nat
    decreases digits.len(),
{
    if digits.len() == 0 {
        0
    } else {
        10 * digits_value(digits.drop_last()) + digit_value(digits.last())
    }
}

/// The text without the plus sign that may stand before the digits.
pub open spec fn unsigned_part(text: Seq<char>) -> Seq<char> {
    if text.len() > 0 && text[0] == '+' {
        text.drop_first()
    } else {
        text
    }
}

/// The repeat count that a text stands for: one or more decimal digits,
/// with or without a plus sign before them, and a value that an unsigned
/// 64-bit integer can hold. Anything else stands for no count.
pub open spec fn count_of(text: Seq<char>) -> Option<u64> {
    let digits = unsigned_part(text);
    if digits.len() > 0 && all_digits(digits) && digits_value(digits) <= u64::MAX {
        Some(digits_value(digits) as u64)
    } else {
        None
    }
}

/// One decimal digit as text.
fn digit_text(digit: u64) -> (text: &'static str)
    requires
        digit < 10,
    ensures
        text@ == seq![digit_char(digit as nat)],
{
    proof {
        reveal_strlit("0");
        reveal_strlit("1");
        reveal_strlit("2");
        reveal_strlit("3");
        reveal_strlit("4");
        reveal_strlit("5");
        reveal_strlit("6");
        reveal_strlit("7");
        reveal_strlit("8");
        reveal_strlit("9");
    }
    let text = if digit == 0 {
        "0"
    } else if digit == 1 {
        "1"
    } else if digit == 2 {
        "2"
    } else if digit == 3 {
        "3"
    } else if digit == 4 {
        "4"
    } else if digit == 5 {
        "5"
    } else if digit == 6 {
        "6"
    } else if digit == 7 {
        "7"
    } else if digit == 8 {
        "8"
    } else {
        "9"
    };
    assert(text@ =~= seq![digit_char(digit as nat)]);
    text
}

/// Writes a number in decimal.
pub fn decimal_string(number: u64) -> (text: String)
    ensures
        text@ == decimal(number as nat),
    decreases number,
{
    if number < 10 {
        String::from_str(digit_text(number))
    } else {
        let mut text = decimal_string(number / 10);
        text.append(digit_text(number % 10));
        assert(text@ =~= decimal(number as nat));
        text
    }
}

/// The line a producer prints when it has sent everything.
pub fn done_line(tag: u64) -> (line: String)
    ensures
        line@ == done_text(tag as nat),
{
    let mut line = String::from_str("thread ");
    line.append(decimal_string(tag).as_str());
    line.append(" done");
    line
}

/// The line that gives one tag's count.
pub fn count_line(tag: u64, count: u64) -> (line: String)
    ensures
        line@ == count_text(tag as nat, count as nat),
{
    let mut line = String::from_str("thread ");
    line.append(decimal_string(tag).as_str());
    line.append(" => ");
    line.append(decimal_string(count).as_str());
    line
}

/// What the consumer prints at its end: the three counts in tag order, then
/// the line that says it is done.
pub fn summary(counters: &Counters) -> (lines: Vec<String>)
    ensures
        lines.len() == 4,
        forall|tag: int| 0 <= tag < 3 ==> (#[trigger] lines[tag])@ == count_text(
            tag as nat,
            counters@[tag],
        ),
        lines[3]@ == "receiver done."@,
{
    let counts = counters.counts();
    let mut lines: Vec<String> = Vec::new();
    lines.push(count_line(0, counts[0]));
    lines.push(count_line(1, counts[1]));
    lines.push(count_line(2, counts[2]));
    lines.push(String::from_str("receiver done."));
    lines
}

/// The last line: how long the run took.
pub fn elapsed_line(seconds: u64, nanoseconds: u32) -> (line: String)
    ensures
        line@ == elapsed_text(seconds as nat, nanoseconds as nat),
{
    let mut line = decimal_string(seconds);
    line.append(".");
    line.append(decimal_string(nanoseconds as u64).as_str());
    line
}

/// The line printed when the repeat count is missing.
pub fn usage_line(program: &str) -> (line: String)
    ensures
        line@ == usage_text(program@),
{
    let mut line = String::from_str(program);
    line.append(" num");
    line
}

/// The first digits of a run stand for no more than the whole run.
proof fn lemma_digits_value_grows(digits: Seq<char>, shorter: int)
    requires
        0 <= shorter <= digits.len(),
    ensures
        digits_value(digits.take(shorter)) <= digits_value(digits),
    decreases digits.len(),
{
    if shorter == digits.len() {
        assert(digits.take(shorter) =~= digits);
    } else {
        lemma_digits_value_grows(digits.drop_last(), shorter);
        assert(digits.drop_last().take(shorter) =~= digits.take(shorter));
    }
}

/// Reads the repeat count.
pub fn parse_count(text: &str) -> (count: Option<u64>)
    ensures
        count == count_of(text@),
{
    if !text.is_ascii() {
        proof {
            let at = choose|at: int|
                0 <= at < text@.len() && !('\0' <= #[trigger] text@[at] <= '\u{7f}');
            let digits = unsigned_part(text@);
            if digits.len() == text@.len() {
                assert(!is_digit(digits[at]));
            } else {
                assert(at > 0);
                assert(!is_digit(digits[at - 1]));
            }
        }
        return None;
    }
    let bytes = text.as_bytes();
    let len = bytes.len();
    proof {
        is_ascii_spec_bytes(text);
    }
    let signed = len > 0 && bytes[0] == PLUS;
    let start: usize = if signed {
        1
    } else {
        0
    };
    let ghost digits = unsigned_part(text@);
    assert(digits =~= text@.skip(start as int));
    if start == len {
        return None;
    }
    let mut value: u64 = 0;
    let mut at: usize = start;
    while at < len
        invariant
            start <= at <= len,
            len == text@.len(),
            is_ascii(text),
            bytes@ == Seq::new(text@.len(), |i: int| text@[i] as u8),
            digits == text@.skip(start as int),
            digits == unsigned_part(text@),
            all_digits(digits.take(at - start)),
            value == digits_value(digits.take(at - start)),
        decreases len - at,
    {
        let byte = bytes[at];
        if byte < ZERO || byte > NINE {
            assert(!is_digit(digits[at - start]));
            return None;
        }
        let ghost longer = digits.take(at - start + 1);
        proof {
            assert(longer.drop_last() =~= digits.take(at - start));
            lemma_digits_value_grows(digits, at - start + 1);
        }
        let digit: u64 = (byte - ZERO) as u64;
        let tenfold = match value.checked_mul(10) {
            Some(tenfold) => tenfold,
            None => {
                return None;
            },
        };
        value = match tenfold.checked_add(digit) {
            Some(sum) => sum,
            None => {
                return None;
            },
        };
        at = at + 1;
    }
    assert(digits.take(at - start) =~= digits);
    Some(value)
}

/// A number written in decimal is a run of digits that stands for that
/// number.
pub proof fn lemma_decimal_digits(number: nat)
    ensures
        decimal(number).len() > 0,
        all_digits(decimal(number)),
        digits_value(decimal(number)) == number,
    decreases number,
{
    let text = decimal(number);
    if number < 10 {
        assert(text.drop_last() =~= Seq::<char>::empty());
        assert(digits_value(text.drop_last()) == 0);
        assert(digit_value(digit_char(number)) == number);
    } else {
        lemma_decimal_digits(number / 10);
        assert(text.drop_last() =~= decimal(number / 10));
        assert(digit_value(digit_char(number % 10)) == number % 10);
        assert(is_digit(digit_char(number % 10)));
    }
}

/// What `decimal_string` writes, `parse_count` reads back.
pub proof fn lemma_count_reads_back(count: u64)
    ensures
        count_of(decimal(count as nat)) == Some(count),
{
    lemma_decimal_digits(count as nat);
    assert(is_digit(decimal(count as nat)[0]));
}

} // verus!
