//! Whole numbers written out in decimal digits.

use vstd::prelude::*;
use vstd::string::{StrSliceExecFns, StringExecFns};

verus! {

/// The character of one decimal digit.
pub open spec fn digit_char(d: nat) -> char {
    if d == 0 {
        '0'
    } else if d == 1 {
        '1'
    } else if d == 2 {
        '2'
    } else if d == 3 {
        '3'
    } else if d == 4 {
        '4'
    } else if d == 5 {
        '5'
    } else if d == 6 {
        '6'
    } else if d == 7 {
        '7'
    } else if d == 8 {
        '8'
    } else {
        '9'
    }
}

/// The decimal digits of `n`, the most significant first, with no leading
/// zero but for zero itself.
pub open spec fn decimal(n: nat) -> Seq<char>
    decreases n,
{
    if n < 10 {
        seq![digit_char(n)]
    } else {
        decimal(n / 10).push(digit_char(n % 10))
    }
}

/// The decimal digits of `v`, behind a minus sign where `v` is negative.
pub open spec fn signed_decimal(v: int) -> Seq<char> {
    if v < 0 {
        seq!['-'] + decimal((-v) as nat)
    } else {
        decimal(v as nat)
    }
}

/// The text of one digit.
fn digit_text(d: u8) -> (text: &'static str)
    requires
        d < 10,
    ensures
        text@ == seq![digit_char(d as nat)],
{
    proof {
        reveal_strlit("0");
        reveal_strlit("1");
        reveal_strlit("2");
        reveal_strlit("3");
        reveal_strlit("4");
        reveal_strlit("5");
        reveal_strlit("6");
        reveal_strlit("7");
        reveal_strlit("8");
        reveal_strlit("9");
    }
    let text = if d == 0 {
        "0"
    } else if d == 1 {
        "1"
    } else if d == 2 {
        "2"
    } else if d == 3 {
        "3"
    } else if d == 4 {
        "4"
    } else if d == 5 {
        "5"
    } else if d == 6 {
        "6"
    } else if d == 7 {
        "7"
    } else if d == 8 {
        "8"
    } else {
        "9"
    };
    assert(text@ =~= seq![digit_char(d as nat)]);
    text
}

/// Appends the decimal digits of `n` to `text`.
pub fn push_decimal(n: u128, text: &mut String)
    ensures
        final(text)@ == old(text)@ + decimal(n as nat),
    decreases n,
{
    if n >= 10 {
        push_decimal(n / 10, text);
    }
    text.append(digit_text((n % 10) as u8));
    assert(text@ =~= old(text)@ + decimal(n as nat));
}

/// The decimal digits of `n` as a string.
pub fn decimal_string(n: u128) -> (text: String)
    ensures
        text@ == decimal(n as nat),
{
    let mut text = String::new();
    push_decimal(n, &mut text);
    assert(text@ =~= decimal(n as nat));
    text
}

/// The decimal digits of `v` as a string, behind a minus sign where `v` is
/// negative.
pub fn signed_decimal_string(v: i128) -> (text: String)
    ensures
        text@ == signed_decimal(v as int),
{
    if v >= 0 {
        return decimal_string(v as u128);
    }
    let magnitude: u128 = if v == i128::MIN {
        (i128::MAX as u128) + 1
    } else {
        (-v) as u128
    };
    let mut text = String::new();
    proof {
        reveal_strlit("-");
    }
    text.append("-");
    push_decimal(magnitude, &mut text);
    assert(text@ =~= signed_decimal(v as int));
    text
}

/// Why a text is not the decimal digits of a number that the machine can
/// count.
#[derive(Clone, Copy, Debug, PartialEq, Eq, Structural)]
pub enum ParseError {
    /// The text is empty.
    Empty,
    /// The text holds something other than a digit, or a sign and nothing
    /// else.
    InvalidDigit,
    /// The digits stand for more than the machine can count.
    PosOverflow,
}

/// The digit that a character stands for, where it is one.
pub open spec fn digit_value(c: char) -> Option<nat> {
    if c == '0' {
        Some(0)
    } else if c == '1' {
        Some(1)
    } else if c == '2' {
        Some(2)
    } else if c == '3' {
        Some(3)
    } else if c == '4' {
        Some(4)
    } else if c == '5' {
        Some(5)
    } else if c == '6' {
        Some(6)
    } else if c == '7' {
        Some(7)
    } else if c == '8' {
        Some(8)
    } else if c == '9' {
        Some(9)
    } else {
        None
    }
}

/// The number that the first `n` characters stand for as decimal digits, read
/// from the left, or what stops the reading first: a character that is no
/// digit, or a digit that takes the number beyond `usize::MAX`.
pub open spec fn read_digits(digits: Seq<char>, n: int) -> Result<nat, ParseError>
    decreases n,
{
    if n <= 0 {
        Ok(0)
    } else {
        match read_digits(digits, n - 1) {
            Err(error) => Err(error),
            Ok(value) => match digit_value(digits[n - 1]) {
                None => Err(ParseError::InvalidDigit),
                Some(d) => if value * 10 + d > usize::MAX {
                    Err(ParseError::PosOverflow)
                } else {
                    Ok(value * 10 + d)
                },
            },
        }
    }
}

/// The number that a text stands for: decimal digits, behind a plus sign or
/// behind none. There is no number for an empty text, for a text that is
/// only a sign, or for one with a minus sign.
pub open spec fn parsed(text: Seq<char>) -> Result<nat, ParseError> {
    if text.len() == 0 {
        Err(ParseError::Empty)
    } else if text.len() == 1 && (text[0] == '+' || text[0] == '-') {
        Err(ParseError::InvalidDigit)
    } else if text[0] == '+' {
        read_digits(text.skip(1), text.len() - 1)
    } else {
        read_digits(text, text.len() as int)
    }
}

proof fn lemma_digit_round_trip(d: nat)
    requires
        d < 10,
    ensures
        digit_value(digit_char(d)) == Some(d),
        digit_char(d) != '+',
        digit_char(d) != '-',
{
}

proof fn lemma_read_digits_of_a_prefix(digits: Seq<char>, more: Seq<char>, n: int)
    requires
        0 <= n <= digits.len(),
    ensures
        read_digits(digits + more, n) == read_digits(digits, n),
    decreases n,
{
    if n > 0 {
        lemma_read_digits_of_a_prefix(digits, more, n - 1);
        assert((digits + more)[n - 1] == digits[n - 1]);
    }
}

proof fn lemma_decimal_starts_with_a_digit(n: nat)
    ensures
        decimal(n).len() >= 1,
        decimal(n)[0] != '+',
        decimal(n)[0] != '-',
    decreases n,
{
    if n < 10 {
        lemma_digit_round_trip(n);
    } else {
        lemma_decimal_starts_with_a_digit(n / 10);
        assert(decimal(n)[0] == decimal(n / 10)[0]);
    }
}

proof fn lemma_read_decimal(n: nat)
    requires
        n <= usize::MAX,
    ensures
        read_digits(decimal(n), decimal(n).len() as int) == Ok::<nat, ParseError>(n),
    decreases n,
{
    lemma_digit_round_trip(n % 10);
    if n < 10 {
        assert(read_digits(decimal(n), 0) == Ok::<nat, ParseError>(0));
    } else {
        let front = decimal(n / 10);
        lemma_read_decimal(n / 10);
        assert(decimal(n) =~= front + seq![digit_char(n % 10)]);
        lemma_read_digits_of_a_prefix(front, seq![digit_char(n % 10)], front.len() as int);
        assert(decimal(n)[decimal(n).len() - 1] == digit_char(n % 10));
        assert((n / 10) * 10 + n % 10 == n);
    }
}

/// Reading gives back what writing was given: the decimal digits of a number
/// that the machine can count stand for that number.
pub proof fn lemma_parsed_decimal(n: nat)
    requires
        n <= usize::MAX,
    ensures
        parsed(decimal(n)) == Ok::<nat, ParseError>(n),
{
    lemma_decimal_starts_with_a_digit(n);
    lemma_read_decimal(n);
}

/// The digit that a character stands for, where it is one.
fn digit_of(c: char) -> (digit: Option<usize>)
    ensures
        match digit_value(c) {
            Some(d) => digit == Some(d as usize),
            None => digit.is_none(),
        },
{
    if c == '0' {
        Some(0)
    } else if c == '1' {
        Some(1)
    } else if c == '2' {
        Some(2)
    } else if c == '3' {
        Some(3)
    } else if c == '4' {
        Some(4)
    } else if c == '5' {
        Some(5)
    } else if c == '6' {
        Some(6)
    } else if c == '7' {
        Some(7)
    } else if c == '8' {
        Some(8)
    } else if c == '9' {
        Some(9)
    } else {
        None
    }
}

impl ParseError {
    /// The error in words.
    pub open spec fn message_text(self) -> Seq<char> {
        match self {
            ParseError::Empty => "cannot parse integer from empty string"@,
            ParseError::InvalidDigit => "invalid digit found in string"@,
            ParseError::PosOverflow => "number too large to fit in target type"@,
        }
    }

    /// The error in words.
    pub fn message(&self) -> (text: &'static str)
        ensures
            text@ == self.message_text(),
    {
        match self {
            ParseError::Empty => "cannot parse integer from empty string",
            ParseError::InvalidDigit => "invalid digit found in string",
            ParseError::PosOverflow => "number too large to fit in target type",
        }
    }
}

/// Reads a number from its decimal digits.
pub fn parse_usize(text: &str) -> (result: Result<usize, ParseError>)
    ensures
        match parsed(text@) {
            Ok(number) => result == Ok::<usize, ParseError>(number as usize) && number
                <= usize::MAX,
            Err(error) => result == Err::<usize, ParseError>(error),
        },
{
    let len: usize = text.unicode_len();
    if len == 0 {
        return Err(ParseError::Empty);
    }
    let first = text.get_char(0);
    if len == 1 && (first == '+' || first == '-') {
        return Err(ParseError::InvalidDigit);
    }
    let start: usize = if first == '+' {
        1
    } else {
        0
    };
    let ghost digits = if first == '+' {
        text@.skip(1)
    } else {
        text@
    };
    assert(parsed(text@) == read_digits(digits, digits.len() as int));
    let mut value: usize = 0;
    let mut i: usize = start;
    while i < len
        invariant
            start <= i <= len,
            len == text@.len(),
            digits.len() == len - start,
            forall|k: int| 0 <= k < digits.len() ==> digits[k] == text@[k + start],
            parsed(text@) == read_digits(digits, digits.len() as int),
            read_digits(digits, i - start) == Ok::<nat, ParseError>(value as nat),
        decreases len - i,
    {
        let c = text.get_char(i);
        let ghost read = i - start + 1;
        assert(digits[read - 1] == c);
        let d: usize = match digit_of(c) {
            Some(d) => d,
            None => {
                proof {
                    assert(read_digits(digits, read) == Err::<nat, ParseError>(
                        ParseError::InvalidDigit,
                    ));
                    lemma_reading_stops(digits, read, digits.len() as int);
                }
                return Err(ParseError::InvalidDigit);
            },
        };
        if value > (usize::MAX - d) / 10 {
            proof {
                assert(value * 10 + d > usize::MAX);
                assert(read_digits(digits, read) == Err::<nat, ParseError>(
                    ParseError::PosOverflow,
                ));
                lemma_reading_stops(digits, read, digits.len() as int);
            }
            return Err(ParseError::PosOverflow);
        }
        value = value * 10 + d;
        i = i + 1;
    }
    Ok(value)
}

/// Once the reading has stopped it stays stopped.
proof fn lemma_reading_stops(digits: Seq<char>, n: int, m: int)
    requires
        0 <= n <= m,
        read_digits(digits, n) is Err,
    ensures
        read_digits(digits, m) == read_digits(digits, n),
    decreases m - n,
{
    if n < m {
        lemma_reading_stops(digits, n, m - 1);
    }
}

} // verus!
