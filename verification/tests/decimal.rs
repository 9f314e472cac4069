use progress_tracker::decimal::{
    decimal_string, parse_usize, push_decimal, signed_decimal_string, ParseError,
};

#[test]
fn decimal_of_small_numbers() {
    assert_eq!(decimal_string(0), "0");
    assert_eq!(decimal_string(7), "7");
    assert_eq!(decimal_string(10), "10");
    assert_eq!(decimal_string(1234567890), "1234567890");
}

#[test]
fn decimal_of_the_largest_number() {
    assert_eq!(decimal_string(u128::MAX), "340282366920938463463374607431768211455");
    assert_eq!(decimal_string(u128::MAX), u128::MAX.to_string());
}

#[test]
fn signed_decimal_of_both_ends() {
    assert_eq!(signed_decimal_string(0), "0");
    assert_eq!(signed_decimal_string(-1), "-1");
    assert_eq!(signed_decimal_string(-910_050_019), "-910050019");
    assert_eq!(signed_decimal_string(i128::MIN), "-170141183460469231731687303715884105728");
    assert_eq!(signed_decimal_string(i128::MAX), "170141183460469231731687303715884105727");
}

#[test]
fn decimal_agrees_with_the_standard_library() {
    let mut n: u128 = 1;
    for _ in 0..38 {
        assert_eq!(decimal_string(n), n.to_string());
        assert_eq!(decimal_string(n - 1), (n - 1).to_string());
        assert_eq!(signed_decimal_string(-(n as i128)), (-(n as i128)).to_string());
        n *= 10;
    }
}

#[test]
fn push_decimal_appends() {
    let mut text = String::from("n = ");
    push_decimal(42, &mut text);
    push_decimal(0, &mut text);
    assert_eq!(text, "n = 420");
}

#[test]
fn parse_reads_digits() {
    assert_eq!(parse_usize("0"), Ok(0));
    assert_eq!(parse_usize("7"), Ok(7));
    assert_eq!(parse_usize("255"), Ok(255));
    assert_eq!(parse_usize("0042"), Ok(42));
    assert_eq!(parse_usize("+42"), Ok(42));
    assert_eq!(parse_usize("12345678901234567890"), Ok(12345678901234567890));
    assert_eq!(parse_usize(&usize::MAX.to_string()), Ok(usize::MAX));
}

#[test]
fn parse_refuses_what_is_no_number() {
    assert_eq!(parse_usize(""), Err(ParseError::Empty));
    assert_eq!(parse_usize("+"), Err(ParseError::InvalidDigit));
    assert_eq!(parse_usize("-"), Err(ParseError::InvalidDigit));
    assert_eq!(parse_usize("-5"), Err(ParseError::InvalidDigit));
    assert_eq!(parse_usize("++5"), Err(ParseError::InvalidDigit));
    assert_eq!(parse_usize("12x"), Err(ParseError::InvalidDigit));
    assert_eq!(parse_usize(" 12"), Err(ParseError::InvalidDigit));
    assert_eq!(parse_usize("1_000"), Err(ParseError::InvalidDigit));
    assert_eq!(parse_usize("٣"), Err(ParseError::InvalidDigit));
}

#[test]
fn parse_refuses_what_is_too_large() {
    assert_eq!(parse_usize("18446744073709551616"), Err(ParseError::PosOverflow));
    assert_eq!(
        parse_usize("340282350000000000000000000000000000000"),
        Err(ParseError::PosOverflow)
    );
    assert_eq!(parse_usize("99999999999999999999999x"), Err(ParseError::PosOverflow));
    assert_eq!(parse_usize("9x9999999999999999999999"), Err(ParseError::InvalidDigit));
}

#[test]
fn parse_agrees_with_the_standard_library() {
    let texts = [
        "", "+", "-", "0", "+0", "-0", "00", "1", "+1", "-1", "10", "999", "12a", "a12", "1 2",
        "18446744073709551615", "18446744073709551616", "018446744073709551615",
        "99999999999999999999999", "99999999999999999999999x", "x99999999999999999999999",
        "+18446744073709551615", "4294967295", "4294967296", "١٢٣", "1e3", "0x10",
    ];
    for text in texts {
        let expected = text.parse::<usize>().map_err(|error| error.to_string());
        let found = parse_usize(text).map_err(|error| error.message().to_string());
        assert_eq!(found, expected, "for {:?}", text);
    }
}

#[test]
fn parse_reads_back_what_was_written() {
    let mut n: usize = 1;
    for _ in 0..19 {
        assert_eq!(parse_usize(&decimal_string(n as u128)), Ok(n));
        assert_eq!(parse_usize(&decimal_string((n - 1) as u128)), Ok(n - 1));
        n *= 10;
    }
    assert_eq!(parse_usize(&decimal_string(usize::MAX as u128)), Ok(usize::MAX));
}

#[test]
fn parse_error_in_words() {
    assert_eq!(ParseError::Empty.message(), "cannot parse integer from empty string");
    assert_eq!(ParseError::InvalidDigit.message(), "invalid digit found in string");
    assert_eq!(ParseError::PosOverflow.message(), "number too large to fit in target type");
}
