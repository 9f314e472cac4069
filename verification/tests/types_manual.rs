use owo_colors::OwoColorize;
use progress_tracker::decimal::ParseError;
use progress_tracker::types_manual::{
    get_type_details, PrimesOfType, ToDecimal, TypeDetails, TypeInfo, TypesManual, F32_MAX_TEXT,
    F32_MIN_TEXT, F64_MAX_TEXT, F64_MIN_TEXT,
};

fn details(handle: TypesManual) -> (String, String, String) {
    let details = handle.get_details_as_strings();
    (details.name.to_string(), details.min, details.max)
}

fn expected(name: &str, min: &str, max: &str) -> (String, String, String) {
    (name.to_string(), min.to_string(), max.to_string())
}

#[test]
fn details_of_the_unsigned_integers() {
    assert_eq!(details(TypesManual::U8), expected("u8", "0", "255"));
    assert_eq!(details(TypesManual::U16), expected("u16", "0", "65535"));
    assert_eq!(details(TypesManual::U32), expected("u32", "0", "4294967295"));
    assert_eq!(details(TypesManual::U64), expected("u64", "0", "18446744073709551615"));
    assert_eq!(
        details(TypesManual::U128),
        expected("u128", "0", "340282366920938463463374607431768211455")
    );
    assert_eq!(details(TypesManual::USize), expected("usize", "0", &usize::MAX.to_string()));
}

#[test]
fn details_of_the_signed_integers() {
    assert_eq!(details(TypesManual::I8), expected("i8", "-128", "127"));
    assert_eq!(details(TypesManual::I16), expected("i16", "-32768", "32767"));
    assert_eq!(details(TypesManual::I32), expected("i32", "-2147483648", "2147483647"));
    assert_eq!(
        details(TypesManual::I64),
        expected("i64", "-9223372036854775808", "9223372036854775807")
    );
    assert_eq!(
        details(TypesManual::I128),
        expected(
            "i128",
            "-170141183460469231731687303715884105728",
            "170141183460469231731687303715884105727"
        )
    );
    assert_eq!(
        details(TypesManual::ISize),
        expected("isize", &isize::MIN.to_string(), &isize::MAX.to_string())
    );
}

#[test]
fn details_of_the_floats() {
    assert_eq!(
        details(TypesManual::F32),
        expected("f32", &f32::MIN.to_string(), &f32::MAX.to_string())
    );
    assert_eq!(
        details(TypesManual::F64),
        expected("f64", &f64::MIN.to_string(), &f64::MAX.to_string())
    );
    assert_eq!(F32_MIN_TEXT, "-340282350000000000000000000000000000000");
    assert_eq!(F32_MAX_TEXT, "340282350000000000000000000000000000000");
    assert_eq!(F64_MAX_TEXT.len(), 309);
    assert!(F64_MAX_TEXT.starts_with("17976931348623157"));
    assert_eq!(F64_MIN_TEXT, format!("-{}", F64_MAX_TEXT));
}

#[test]
fn details_of_the_integers_without_zero() {
    assert_eq!(
        details(TypesManual::NonZeroU8),
        expected("core::num::nonzero::NonZero<u8>", "1", "255")
    );
    assert_eq!(
        details(TypesManual::NonZeroU16),
        expected("core::num::nonzero::NonZero<u16>", "1", "65535")
    );
    assert_eq!(
        details(TypesManual::NonZeroU32),
        expected("core::num::nonzero::NonZero<u32>", "1", "4294967295")
    );
    assert_eq!(
        details(TypesManual::NonZeroU64),
        expected("core::num::nonzero::NonZero<u64>", "1", "18446744073709551615")
    );
    assert_eq!(
        details(TypesManual::NonZeroU128),
        expected(
            "core::num::nonzero::NonZero<u128>",
            "1",
            "340282366920938463463374607431768211455"
        )
    );
    assert_eq!(
        details(TypesManual::NonZeroUsize),
        expected("core::num::nonzero::NonZero<usize>", "1", &usize::MAX.to_string())
    );
    assert_eq!(
        details(TypesManual::NonZeroI8),
        expected("core::num::nonzero::NonZero<i8>", "-128", "127")
    );
    assert_eq!(
        details(TypesManual::NonZeroI16),
        expected("core::num::nonzero::NonZero<i16>", "-32768", "32767")
    );
    assert_eq!(
        details(TypesManual::NonZeroI32),
        expected("core::num::nonzero::NonZero<i32>", "-2147483648", "2147483647")
    );
    assert_eq!(
        details(TypesManual::NonZeroI64),
        expected(
            "core::num::nonzero::NonZero<i64>",
            "-9223372036854775808",
            "9223372036854775807"
        )
    );
    assert_eq!(
        details(TypesManual::NonZeroI128),
        expected(
            "core::num::nonzero::NonZero<i128>",
            "-170141183460469231731687303715884105728",
            "170141183460469231731687303715884105727"
        )
    );
    assert_eq!(
        details(TypesManual::NonZeroIsize),
        expected(
            "core::num::nonzero::NonZero<isize>",
            &isize::MIN.to_string(),
            &isize::MAX.to_string()
        )
    );
}

#[test]
fn details_agree_with_the_standard_bounds() {
    assert_eq!(
        details(TypesManual::NonZeroU8).1,
        std::num::NonZero::<u8>::MIN.to_string()
    );
    assert_eq!(
        details(TypesManual::NonZeroI8).1,
        std::num::NonZero::<i8>::MIN.to_string()
    );
    assert_eq!(
        details(TypesManual::NonZeroI64).2,
        std::num::NonZero::<i64>::MAX.to_string()
    );
}

#[test]
fn type_details_of_a_type() {
    let of_u16 = get_type_details::<u16>();
    assert_eq!(of_u16.name, "u16");
    assert_eq!(of_u16.min, 0);
    assert_eq!(of_u16.max, 65535);
    let of_i32 = get_type_details::<i32>();
    assert_eq!(of_i32.name, "i32");
    assert_eq!(of_i32.min, i32::MIN);
    assert_eq!(of_i32.max, i32::MAX);
    let as_strings = of_i32.as_strings();
    assert_eq!(as_strings.name, "i32");
    assert_eq!(as_strings.min, "-2147483648");
    assert_eq!(as_strings.max, "2147483647");
}

#[test]
fn type_info_of_the_integers() {
    assert_eq!(<u8 as TypeInfo>::min_value(), 0);
    assert_eq!(<u8 as TypeInfo>::max_value(), 255);
    assert_eq!(<u8 as TypeInfo>::name_of_type(), "u8");
    assert_eq!(<i64 as TypeInfo>::min_value(), i64::MIN);
    assert_eq!(<i64 as TypeInfo>::max_value(), i64::MAX);
    assert_eq!(<i64 as TypeInfo>::name_of_type(), "i64");
    assert_eq!(<usize as TypeInfo>::max_value(), usize::MAX);
    assert_eq!(<isize as TypeInfo>::name_of_type(), "isize");
    assert_eq!(200u8.to_decimal(), "200");
    assert_eq!((-5i16).to_decimal(), "-5");
    assert_eq!(u128::MAX.to_decimal(), u128::MAX.to_string());
    assert_eq!(i128::MIN.to_decimal(), i128::MIN.to_string());
}

#[test]
fn handles_compare_and_copy() {
    let handle = TypesManual::I16;
    let copy = handle;
    assert_eq!(handle, copy);
    assert_ne!(handle, TypesManual::U16);
    assert_eq!(format!("{:?}", TypesManual::NonZeroUsize), "NonZeroUsize");
}

#[test]
fn display_string_is_coloured() {
    let details = TypesManual::U8.get_details_as_strings();
    assert_eq!(
        details.display_string(),
        "\x1b[3m\x1b[33mtype\x1b[39m\x1b[0m: \x1b[36m\x1b[1mu8\x1b[0m\x1b[39m\n \
         \x1b[3m\x1b[33mmin\x1b[39m\x1b[0m: \x1b[32m0\x1b[39m,\n \
         \x1b[3m\x1b[33mmax\x1b[39m\x1b[0m: \x1b[32m255\x1b[39m"
    );
}

#[test]
fn display_string_agrees_with_the_styles_applied_at_once() {
    let details = TypeDetails {
        name: "i8",
        min: String::from("-128"),
        max: String::from("127"),
    };
    let expected = format!(
        "{}: {}\n {}: {},\n {}: {}",
        "type".yellow().italic(),
        details.name.bold().cyan(),
        "min".yellow().italic(),
        details.min.to_string().green(),
        "max".yellow().italic(),
        details.max.to_string().green()
    );
    assert_eq!(details.display_string(), expected);
}

#[test]
fn primes_up_to_the_max_of_the_small_types() {
    match TypesManual::I8.get_details_as_strings().primes_up_to_max() {
        Ok(PrimesOfType::Found { upper_bound, found }) => {
            assert_eq!(upper_bound, 127);
            assert_eq!(found.len(), 31);
            assert_eq!(found.last(), Some(&127));
        }
        other => panic!("unexpected outcome: {:?}", other),
    }
    match TypesManual::NonZeroU16.get_details_as_strings().primes_up_to_max() {
        Ok(PrimesOfType::Found { upper_bound, found }) => {
            assert_eq!(upper_bound, 65_535);
            assert_eq!(found.len(), 6542);
        }
        other => panic!("unexpected outcome: {:?}", other),
    }
}

#[test]
fn primes_up_to_the_max_of_the_large_types() {
    assert_eq!(
        TypesManual::U32.get_details_as_strings().primes_up_to_max(),
        Ok(PrimesOfType::TooFar { upper_bound: 4_294_967_295 })
    );
    assert_eq!(
        TypesManual::ISize.get_details_as_strings().primes_up_to_max(),
        Ok(PrimesOfType::TooFar { upper_bound: isize::MAX as usize })
    );
    assert_eq!(
        TypesManual::U128.get_details_as_strings().primes_up_to_max(),
        Err(ParseError::PosOverflow)
    );
    assert_eq!(
        TypesManual::F32.get_details_as_strings().primes_up_to_max(),
        Err(ParseError::PosOverflow)
    );
    assert_eq!(
        TypesManual::F64.get_details_as_strings().primes_up_to_max(),
        Err(ParseError::PosOverflow)
    );
}

#[test]
fn primes_up_to_a_max_that_is_no_number() {
    let details = TypeDetails { name: "odd", min: String::from("-1"), max: String::from("1O") };
    assert_eq!(details.primes_up_to_max(), Err(ParseError::InvalidDigit));
    let details = TypeDetails { name: "none", min: String::new(), max: String::new() };
    assert_eq!(details.primes_up_to_max(), Err(ParseError::Empty));
}
