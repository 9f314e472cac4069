use progress_tracker::hidden_value::{mask, HiddenValue, HiddenValueError};

#[test]
fn test_basic_hidden_value() {
    let secret = "my_secret_value".to_string();
    let hidden = HiddenValue::builder().value(secret.clone()).build().unwrap();

    assert_eq!(hidden.expose_value(), &secret);
    assert_eq!(format!("{:?}", hidden), "HiddenValue { REDACTED }");
}

#[test]
fn test_partial_reveal() {
    const TEST_SECRET: &str = "1234567890";
    const TEST_OBF_STRING: &str = "7890";
    let secret = TEST_SECRET.to_string();
    let hidden = HiddenValue::builder()
        .value(secret)
        .obf_string(TEST_OBF_STRING)
        .build()
        .unwrap();
    assert_eq!(
        format!("{:?}", hidden),
        format!("HiddenValue {{ REDACTED..\"{}\" }}", TEST_OBF_STRING)
    );
}

#[test]
fn test_env_value() {
    const TEST_VALUE: &str = "abcdefghi";
    let test_value_last_4 = &TEST_VALUE.chars().skip(TEST_VALUE.len() - 4).collect::<String>();
    let hidden = HiddenValue::new_revealing(TEST_VALUE.to_string(), Some(4)).unwrap();
    assert_eq!(hidden.expose_value(), TEST_VALUE);
    assert_eq!(
        format!("{:?}", hidden),
        format!("HiddenValue {{ REDACTED..\"{}\" }}", test_value_last_4)
    );
    assert_eq!(format!("{:?}", hidden), "HiddenValue { REDACTED..\"fghi\" }");
}

#[test]
fn test_reveal_length_too_long() {
    const TEST_VALUE_2: &str = "ABCDEFGHI";
    let result = HiddenValue::new_revealing(TEST_VALUE_2.to_string(), Some(20));

    assert!(matches!(result, Err(HiddenValueError::RevealLengthTooLong { .. })));
    assert_eq!(
        result.err(),
        Some(HiddenValueError::RevealLengthTooLong { requested: 20, actual: 9 })
    );
}

#[test]
fn insta_test_string_hidden_value_debug() {
    const TEST_VALUE_STR: &str = "alphabetagaga";
    let hidden_str = HiddenValue::builder().value(TEST_VALUE_STR).build().unwrap();
    assert_eq!(format!("{:?}", hidden_str), "HiddenValue { REDACTED }");

    const TEST_VALUE_STR_GREEK: &str = "αβγαγα";
    let hidden_str_greek = HiddenValue::builder().value(TEST_VALUE_STR_GREEK).build().unwrap();
    assert_eq!(format!("{:?}", hidden_str_greek), "HiddenValue { REDACTED }");

    const TEST_VALUE_NUM: i32 = -910_050_019;
    let hidden_num = HiddenValue::builder().value(TEST_VALUE_NUM).build().unwrap();
    assert_eq!(format!("{:?}", hidden_num), "HiddenValue { REDACTED }");
}

#[test]
fn insta_test_string_hidden_value_with_obfuscation_debug() {
    const TEST_VALUE_STR: &str = "alphabetagaga";
    const TEST_OBF_STR: &str = "gaga";
    let hidden_str = HiddenValue::builder()
        .value(TEST_VALUE_STR)
        .obf_string(TEST_OBF_STR)
        .build()
        .unwrap();
    assert_eq!(format!("{:?}", hidden_str), r#"HiddenValue { REDACTED.."gaga" }"#);

    const TEST_VALUE_STR_GREEK: &str = "αβγαγα";
    const TEST_OBF_STR_GREEK: &str = "γα";
    let hidden_str_greek = HiddenValue::builder()
        .value(TEST_VALUE_STR_GREEK)
        .obf_string(TEST_OBF_STR_GREEK)
        .build()
        .unwrap();
    assert_eq!(format!("{:?}", hidden_str_greek), r#"HiddenValue { REDACTED.."γα" }"#);

    const TEST_VALUE_NUM: i32 = -910_050_019;
    const TEST_OBF_NUM: &str = "0_019";
    let hidden_num = HiddenValue::builder()
        .value(TEST_VALUE_NUM)
        .obf_string(TEST_OBF_NUM)
        .build()
        .unwrap();
    assert_eq!(format!("{:?}", hidden_num), r#"HiddenValue { REDACTED.."0_019" }"#);
}

#[test]
fn insta_test_hidden_value_result() {
    let hidden_result = HiddenValue::builder().value(12345).build();
    assert_eq!(format!("{:#?}", hidden_result), "Ok(\n    HiddenValue { REDACTED },\n)");
}

#[test]
fn hidden_value_preserves_content() {
    for value in ["", "x", "a longer secret", "αβγ", "tab\tand\nnewline"] {
        let hidden = HiddenValue::builder().value(value.to_string()).build().unwrap();
        assert_eq!(hidden.expose_value(), value);
        let hidden = HiddenValue::new(value.to_string(), None).unwrap();
        assert_eq!(hidden.expose_value(), value);
        assert_eq!(hidden.debug_string(), "HiddenValue { REDACTED }");
    }
}

#[test]
fn reveal_length_must_stay_below_the_length() {
    for value_len in [0usize, 1, 2, 5, 17] {
        let value = "x".repeat(value_len);
        assert!(HiddenValue::new_revealing(value.clone(), None).is_ok());
        for reveal_len in [1usize, 2, 4, 5, 16, 17, 18, 1000] {
            let hidden = HiddenValue::new_revealing(value.clone(), Some(reveal_len));
            if reveal_len >= value_len {
                assert_eq!(
                    hidden.err(),
                    Some(HiddenValueError::RevealLengthTooLong {
                        requested: reveal_len,
                        actual: value_len
                    })
                );
            } else {
                let expected =
                    format!("HiddenValue {{ REDACTED..\"{}\" }}", "x".repeat(reveal_len));
                assert_eq!(hidden.unwrap().debug_string(), expected);
            }
        }
    }
}

#[test]
fn mask_reveals_the_end() {
    assert_eq!(mask("1234567890", Some(4)), Ok(Some("7890".to_string())));
    assert_eq!(mask("1234567890", Some(9)), Ok(Some("234567890".to_string())));
    assert_eq!(mask("1234567890", None), Ok(None));
    assert_eq!(
        mask("1234567890", Some(10)),
        Err(HiddenValueError::RevealLengthTooLong { requested: 10, actual: 10 })
    );
    assert_eq!(
        mask("", Some(1)),
        Err(HiddenValueError::RevealLengthTooLong { requested: 1, actual: 0 })
    );
}

#[test]
fn mask_of_nothing_to_reveal() {
    assert_eq!(mask("abc", Some(0)), Ok(Some(String::new())));
    assert_eq!(
        mask("", Some(0)),
        Err(HiddenValueError::RevealLengthTooLong { requested: 0, actual: 0 })
    );
}

#[test]
fn mask_counts_the_request_in_bytes() {
    // six characters of two bytes each: twelve bytes
    let greek = "αβγαγα";
    assert_eq!(greek.len(), 12);
    assert_eq!(mask(greek, Some(8)), Ok(Some("γα".to_string())));
    assert_eq!(mask(greek, Some(6)), Ok(Some(String::new())));
    assert_eq!(mask(greek, Some(2)), Ok(Some(String::new())));
    assert_eq!(mask(greek, Some(11)), Ok(Some("βγαγα".to_string())));
    assert_eq!(
        mask(greek, Some(12)),
        Err(HiddenValueError::RevealLengthTooLong { requested: 12, actual: 12 })
    );
    let expected: String = greek.chars().skip(greek.len() - 8).collect();
    assert_eq!(mask(greek, Some(8)), Ok(Some(expected)));
}

#[test]
fn builder_takes_an_optional_text() {
    let hidden = HiddenValue::builder()
        .value(7u8)
        .maybe_obf_string(Some("seven".to_string()))
        .build()
        .unwrap();
    assert_eq!(hidden.debug_string(), "HiddenValue { REDACTED..\"seven\" }");
    let hidden = HiddenValue::builder().value(7u8).maybe_obf_string(None).build().unwrap();
    assert_eq!(hidden.debug_string(), "HiddenValue { REDACTED }");
    assert_eq!(*hidden.expose_value(), 7);
}

#[test]
fn clone_keeps_value_and_text() {
    let hidden = HiddenValue::new("key".to_string(), Some("y".to_string())).unwrap();
    let copy = hidden.clone();
    assert_eq!(copy.expose_value(), "key");
    assert_eq!(format!("{:?}", copy), format!("{:?}", hidden));
}

#[test]
fn error_message_names_both_lengths() {
    let error = HiddenValueError::RevealLengthTooLong { requested: 20, actual: 9 };
    assert_eq!(
        error.message(),
        "Reveal length (20) exceeds value's UTF-8 char length (9)"
    );
    let error = HiddenValueError::RevealLengthTooLong { requested: 0, actual: 0 };
    assert_eq!(
        error.message(),
        "Reveal length (0) exceeds value's UTF-8 char length (0)"
    );
}
