//! A handle on the numeric types of the language, and what is worth knowing
//! of each: its name and the least and greatest of its values.

use crate::decimal::{
    decimal_string, parse_usize, parsed, signed_decimal, signed_decimal_string, ParseError,
};
use crate::primes::{primes_between, primes_within_limit, MAX_PRIME_TILL};
use owo_colors::OwoColorize;
use vstd::prelude::*;
use vstd::string::StringExecFns;

verus! {

/// The numeric types, one variant each.
///
/// A variant is a handle to ask about a type with. It is no way to get at the
/// type itself: what comes back for it is text.
#[derive(Clone, Copy, Debug, PartialEq, Eq, Structural)]
pub enum TypesManual {
    // unsigned integers
    U8,
    U16,
    U32,
    U64,
    U128,
    USize,
    // signed integers
    I8,
    I16,
    I32,
    I64,
    I128,
    ISize,
    // floating point
    F32,
    F64,
    // unsigned integers without zero
    NonZeroU8,
    NonZeroU16,
    NonZeroU32,
    NonZeroU64,
    NonZeroU128,
    NonZeroUsize,
    // signed integers without zero
    NonZeroI8,
    NonZeroI16,
    NonZeroI32,
    NonZeroI64,
    NonZeroI128,
    NonZeroIsize,
}

/// The least value of single precision, written out.
pub const F32_MIN_TEXT: &'static str = "-340282350000000000000000000000000000000";

/// The greatest value of single precision, written out.
pub const F32_MAX_TEXT: &'static str = "340282350000000000000000000000000000000";

/// The least value of double precision, written out.
pub const F64_MIN_TEXT: &'static str = "-179769313486231570000000000000000000000000000000000000000000000000000000000000000000000000000000000000000000000000000000000000000000000000000000000000000000000000000000000000000000000000000000000000000000000000000000000000000000000000000000000000000000000000000000000000000000000000000000000000000000000000000";

/// The greatest value of double precision, written out.
pub const F64_MAX_TEXT: &'static str = "179769313486231570000000000000000000000000000000000000000000000000000000000000000000000000000000000000000000000000000000000000000000000000000000000000000000000000000000000000000000000000000000000000000000000000000000000000000000000000000000000000000000000000000000000000000000000000000000000000000000000000000";

/// What there is to know of a numeric type.
pub trait TypeInfo: Sized {
    /// The least value of the type.
    spec fn least() -> Self;

    /// The greatest value of the type.
    spec fn greatest() -> Self;

    /// The name of the type.
    spec fn name() -> Seq<char>;

    fn min_value() -> (value: Self)
        ensures
            value == Self::least(),
    ;

    fn max_value() -> (value: Self)
        ensures
            value == Self::greatest(),
    ;

    fn name_of_type() -> (name: &'static str)
        ensures
            name@ == Self::name(),
    ;
}

/// A whole number that can be written out in decimal digits.
pub trait ToDecimal {
    /// The number that the value stands for.
    spec fn number(&self) -> int;

    fn to_decimal(&self) -> (text: String)
        ensures
            text@ == signed_decimal(self.number()),
    ;
}

impl TypeInfo for u8 {
    open spec fn least() -> u8 {
        u8::MIN
    }

    open spec fn greatest() -> u8 {
        u8::MAX
    }

    open spec fn name() -> Seq<char> {
        "u8"@
    }

    fn min_value() -> u8 {
        u8::MIN
    }

    fn max_value() -> u8 {
        u8::MAX
    }

    fn name_of_type() -> &'static str {
        "u8"
    }
}

impl ToDecimal for u8 {
    open spec fn number(&self) -> int {
        *self as int
    }

    fn to_decimal(&self) -> String {
        decimal_string(*self as u128)
    }
}

impl TypeInfo for u16 {
    open spec fn least() -> u16 {
        u16::MIN
    }

    open spec fn greatest() -> u16 {
        u16::MAX
    }

    open spec fn name() -> Seq<char> {
        "u16"@
    }

    fn min_value() -> u16 {
        u16::MIN
    }

    fn max_value() -> u16 {
        u16::MAX
    }

    fn name_of_type() -> &'static str {
        "u16"
    }
}

impl ToDecimal for u16 {
    open spec fn number(&self) -> int {
        *self as int
    }

    fn to_decimal(&self) -> String {
        decimal_string(*self as u128)
    }
}

impl TypeInfo for u32 {
    open spec fn least() -> u32 {
        u32::MIN
    }

    open spec fn greatest() -> u32 {
        u32::MAX
    }

    open spec fn name() -> Seq<char> {
        "u32"@
    }

    fn min_value() -> u32 {
        u32::MIN
    }

    fn max_value() -> u32 {
        u32::MAX
    }

    fn name_of_type() -> &'static str {
        "u32"
    }
}

impl ToDecimal for u32 {
    open spec fn number(&self) -> int {
        *self as int
    }

    fn to_decimal(&self) -> String {
        decimal_string(*self as u128)
    }
}

impl TypeInfo for u64 {
    open spec fn least() -> u64 {
        u64::MIN
    }

    open spec fn greatest() -> u64 {
        u64::MAX
    }

    open spec fn name() -> Seq<char> {
        "u64"@
    }

    fn min_value() -> u64 {
        u64::MIN
    }

    fn max_value() -> u64 {
        u64::MAX
    }

    fn name_of_type() -> &'static str {
        "u64"
    }
}

impl ToDecimal for u64 {
    open spec fn number(&self) -> int {
        *self as int
    }

    fn to_decimal(&self) -> String {
        decimal_string(*self as u128)
    }
}

impl TypeInfo for u128 {
    open spec fn least() -> u128 {
        u128::MIN
    }

    open spec fn greatest() -> u128 {
        u128::MAX
    }

    open spec fn name() -> Seq<char> {
        "u128"@
    }

    fn min_value() -> u128 {
        u128::MIN
    }

    fn max_value() -> u128 {
        u128::MAX
    }

    fn name_of_type() -> &'static str {
        "u128"
    }
}

impl ToDecimal for u128 {
    open spec fn number(&self) -> int {
        *self as int
    }

    fn to_decimal(&self) -> String {
        decimal_string(*self as u128)
    }
}

impl TypeInfo for usize {
    open spec fn least() -> usize {
        usize::MIN
    }

    open spec fn greatest() -> usize {
        usize::MAX
    }

    open spec fn name() -> Seq<char> {
        "usize"@
    }

    fn min_value() -> usize {
        usize::MIN
    }

    fn max_value() -> usize {
        usize::MAX
    }

    fn name_of_type() -> &'static str {
        "usize"
    }
}

impl ToDecimal for usize {
    open spec fn number(&self) -> int {
        *self as int
    }

    fn to_decimal(&self) -> String {
        decimal_string(*self as u128)
    }
}

impl TypeInfo for i8 {
    open spec fn least() -> i8 {
        i8::MIN
    }

    open spec fn greatest() -> i8 {
        i8::MAX
    }

    open spec fn name() -> Seq<char> {
        "i8"@
    }

    fn min_value() -> i8 {
        i8::MIN
    }

    fn max_value() -> i8 {
        i8::MAX
    }

    fn name_of_type() -> &'static str {
        "i8"
    }
}

impl ToDecimal for i8 {
    open spec fn number(&self) -> int {
        *self as int
    }

    fn to_decimal(&self) -> String {
        signed_decimal_string(*self as i128)
    }
}

impl TypeInfo for i16 {
    open spec fn least() -> i16 {
        i16::MIN
    }

    open spec fn greatest() -> i16 {
        i16::MAX
    }

    open spec fn name() -> Seq<char> {
        "i16"@
    }

    fn min_value() -> i16 {
        i16::MIN
    }

    fn max_value() -> i16 {
        i16::MAX
    }

    fn name_of_type() -> &'static str {
        "i16"
    }
}

impl ToDecimal for i16 {
    open spec fn number(&self) -> int {
        *self as int
    }

    fn to_decimal(&self) -> String {
        signed_decimal_string(*self as i128)
    }
}

impl TypeInfo for i32 {
    open spec fn least() -> i32 {
        i32::MIN
    }

    open spec fn greatest() -> i32 {
        i32::MAX
    }

    open spec fn name() -> Seq<char> {
        "i32"@
    }

    fn min_value() -> i32 {
        i32::MIN
    }

    fn max_value() -> i32 {
        i32::MAX
    }

    fn name_of_type() -> &'static str {
        "i32"
    }
}

impl ToDecimal for i32 {
    open spec fn number(&self) -> int {
        *self as int
    }

    fn to_decimal(&self) -> String {
        signed_decimal_string(*self as i128)
    }
}

impl TypeInfo for i64 {
    open spec fn least() -> i64 {
        i64::MIN
    }

    open spec fn greatest() -> i64 {
        i64::MAX
    }

    open spec fn name() -> Seq<char> {
        "i64"@
    }

    fn min_value() -> i64 {
        i64::MIN
    }

    fn max_value() -> i64 {
        i64::MAX
    }

    fn name_of_type() -> &'static str {
        "i64"
    }
}

impl ToDecimal for i64 {
    open spec fn number(&self) -> int {
        *self as int
    }

    fn to_decimal(&self) -> String {
        signed_decimal_string(*self as i128)
    }
}

impl TypeInfo for i128 {
    open spec fn least() -> i128 {
        i128::MIN
    }

    open spec fn greatest() -> i128 {
        i128::MAX
    }

    open spec fn name() -> Seq<char> {
        "i128"@
    }

    fn min_value() -> i128 {
        i128::MIN
    }

    fn max_value() -> i128 {
        i128::MAX
    }

    fn name_of_type() -> &'static str {
        "i128"
    }
}

impl ToDecimal for i128 {
    open spec fn number(&self) -> int {
        *self as int
    }

    fn to_decimal(&self) -> String {
        signed_decimal_string(*self as i128)
    }
}

impl TypeInfo for isize {
    open spec fn least() -> isize {
        isize::MIN
    }

    open spec fn greatest() -> isize {
        isize::MAX
    }

    open spec fn name() -> Seq<char> {
        "isize"@
    }

    fn min_value() -> isize {
        isize::MIN
    }

    fn max_value() -> isize {
        isize::MAX
    }

    fn name_of_type() -> &'static str {
        "isize"
    }
}

impl ToDecimal for isize {
    open spec fn number(&self) -> int {
        *self as int
    }

    fn to_decimal(&self) -> String {
        signed_decimal_string(*self as i128)
    }
}

impl TypesManual {
    /// Whether the type is one of floating point.
    pub open spec fn is_float(self) -> bool {
        self == TypesManual::F32 || self == TypesManual::F64
    }

    /// The least value of a type of whole numbers.
    pub open spec fn least(self) -> int {
        match self {
            TypesManual::U8 => u8::MIN as int,
            TypesManual::U16 => u16::MIN as int,
            TypesManual::U32 => u32::MIN as int,
            TypesManual::U64 => u64::MIN as int,
            TypesManual::U128 => u128::MIN as int,
            TypesManual::USize => usize::MIN as int,
            TypesManual::I8 => i8::MIN as int,
            TypesManual::I16 => i16::MIN as int,
            TypesManual::I32 => i32::MIN as int,
            TypesManual::I64 => i64::MIN as int,
            TypesManual::I128 => i128::MIN as int,
            TypesManual::ISize => isize::MIN as int,
            TypesManual::F32 | TypesManual::F64 => 0,
            TypesManual::NonZeroU8 => 1,
            TypesManual::NonZeroU16 => 1,
            TypesManual::NonZeroU32 => 1,
            TypesManual::NonZeroU64 => 1,
            TypesManual::NonZeroU128 => 1,
            TypesManual::NonZeroUsize => 1,
            TypesManual::NonZeroI8 => i8::MIN as int,
            TypesManual::NonZeroI16 => i16::MIN as int,
            TypesManual::NonZeroI32 => i32::MIN as int,
            TypesManual::NonZeroI64 => i64::MIN as int,
            TypesManual::NonZeroI128 => i128::MIN as int,
            TypesManual::NonZeroIsize => isize::MIN as int,
        }
    }

    /// The greatest value of a type of whole numbers.
    pub open spec fn greatest(self) -> int {
        match self {
            TypesManual::U8 => u8::MAX as int,
            TypesManual::U16 => u16::MAX as int,
            TypesManual::U32 => u32::MAX as int,
            TypesManual::U64 => u64::MAX as int,
            TypesManual::U128 => u128::MAX as int,
            TypesManual::USize => usize::MAX as int,
            TypesManual::I8 => i8::MAX as int,
            TypesManual::I16 => i16::MAX as int,
            TypesManual::I32 => i32::MAX as int,
            TypesManual::I64 => i64::MAX as int,
            TypesManual::I128 => i128::MAX as int,
            TypesManual::ISize => isize::MAX as int,
            TypesManual::F32 | TypesManual::F64 => 0,
            TypesManual::NonZeroU8 => u8::MAX as int,
            TypesManual::NonZeroU16 => u16::MAX as int,
            TypesManual::NonZeroU32 => u32::MAX as int,
            TypesManual::NonZeroU64 => u64::MAX as int,
            TypesManual::NonZeroU128 => u128::MAX as int,
            TypesManual::NonZeroUsize => usize::MAX as int,
            TypesManual::NonZeroI8 => i8::MAX as int,
            TypesManual::NonZeroI16 => i16::MAX as int,
            TypesManual::NonZeroI32 => i32::MAX as int,
            TypesManual::NonZeroI64 => i64::MAX as int,
            TypesManual::NonZeroI128 => i128::MAX as int,
            TypesManual::NonZeroIsize => isize::MAX as int,
        }
    }

    /// The name of the type.
    pub open spec fn name_text(self) -> Seq<char> {
        match self {
            TypesManual::U8 => "u8"@,
            TypesManual::U16 => "u16"@,
            TypesManual::U32 => "u32"@,
            TypesManual::U64 => "u64"@,
            TypesManual::U128 => "u128"@,
            TypesManual::USize => "usize"@,
            TypesManual::I8 => "i8"@,
            TypesManual::I16 => "i16"@,
            TypesManual::I32 => "i32"@,
            TypesManual::I64 => "i64"@,
            TypesManual::I128 => "i128"@,
            TypesManual::ISize => "isize"@,
            TypesManual::F32 => "f32"@,
            TypesManual::F64 => "f64"@,
            TypesManual::NonZeroU8 => "core::num::nonzero::NonZero<u8>"@,
            TypesManual::NonZeroU16 => "core::num::nonzero::NonZero<u16>"@,
            TypesManual::NonZeroU32 => "core::num::nonzero::NonZero<u32>"@,
            TypesManual::NonZeroU64 => "core::num::nonzero::NonZero<u64>"@,
            TypesManual::NonZeroU128 => "core::num::nonzero::NonZero<u128>"@,
            TypesManual::NonZeroUsize => "core::num::nonzero::NonZero<usize>"@,
            TypesManual::NonZeroI8 => "core::num::nonzero::NonZero<i8>"@,
            TypesManual::NonZeroI16 => "core::num::nonzero::NonZero<i16>"@,
            TypesManual::NonZeroI32 => "core::num::nonzero::NonZero<i32>"@,
            TypesManual::NonZeroI64 => "core::num::nonzero::NonZero<i64>"@,
            TypesManual::NonZeroI128 => "core::num::nonzero::NonZero<i128>"@,
            TypesManual::NonZeroIsize => "core::num::nonzero::NonZero<isize>"@,
        }
    }

    /// The least value of the type, written out: in decimal digits for whole
    /// numbers.
    pub open spec fn min_text(self) -> Seq<char> {
        match self {
            TypesManual::F32 => F32_MIN_TEXT@,
            TypesManual::F64 => F64_MIN_TEXT@,
            _ => signed_decimal(self.least()),
        }
    }

    /// The greatest value of the type, written out: in decimal digits for
    /// whole numbers.
    pub open spec fn max_text(self) -> Seq<char> {
        match self {
            TypesManual::F32 => F32_MAX_TEXT@,
            TypesManual::F64 => F64_MAX_TEXT@,
            _ => signed_decimal(self.greatest()),
        }
    }

    /// The name and the bounds of the type that the handle stands for.
    pub fn get_details_as_strings(&self) -> (details: TypeDetails<String>)
        ensures
            details.name@ == self.name_text(),
            details.min@ == self.min_text(),
            details.max@ == self.max_text(),
    {
        match self {
            TypesManual::U8 => get_type_details::<u8>().as_strings(),
            TypesManual::U16 => get_type_details::<u16>().as_strings(),
            TypesManual::U32 => get_type_details::<u32>().as_strings(),
            TypesManual::U64 => get_type_details::<u64>().as_strings(),
            TypesManual::U128 => get_type_details::<u128>().as_strings(),
            TypesManual::USize => get_type_details::<usize>().as_strings(),
            TypesManual::I8 => get_type_details::<i8>().as_strings(),
            TypesManual::I16 => get_type_details::<i16>().as_strings(),
            TypesManual::I32 => get_type_details::<i32>().as_strings(),
            TypesManual::I64 => get_type_details::<i64>().as_strings(),
            TypesManual::I128 => get_type_details::<i128>().as_strings(),
            TypesManual::ISize => get_type_details::<isize>().as_strings(),
            TypesManual::F32 => TypeDetails {
                name: "f32",
                min: String::from_str(F32_MIN_TEXT),
                max: String::from_str(F32_MAX_TEXT),
            },
            TypesManual::F64 => TypeDetails {
                name: "f64",
                min: String::from_str(F64_MIN_TEXT),
                max: String::from_str(F64_MAX_TEXT),
            },
            TypesManual::NonZeroU8 => {
                let one: u8 = 1;
                TypeDetails {
                    name: "core::num::nonzero::NonZero<u8>",
                    min: one.to_decimal(),
                    max: u8::MAX.to_decimal(),
                }
            },
            TypesManual::NonZeroU16 => {
                let one: u16 = 1;
                TypeDetails {
                    name: "core::num::nonzero::NonZero<u16>",
                    min: one.to_decimal(),
                    max: u16::MAX.to_decimal(),
                }
            },
            TypesManual::NonZeroU32 => {
                let one: u32 = 1;
                TypeDetails {
                    name: "core::num::nonzero::NonZero<u32>",
                    min: one.to_decimal(),
                    max: u32::MAX.to_decimal(),
                }
            },
            TypesManual::NonZeroU64 => {
                let one: u64 = 1;
                TypeDetails {
                    name: "core::num::nonzero::NonZero<u64>",
                    min: one.to_decimal(),
                    max: u64::MAX.to_decimal(),
                }
            },
            TypesManual::NonZeroU128 => {
                let one: u128 = 1;
                TypeDetails {
                    name: "core::num::nonzero::NonZero<u128>",
                    min: one.to_decimal(),
                    max: u128::MAX.to_decimal(),
                }
            },
            TypesManual::NonZeroUsize => {
                let one: usize = 1;
                TypeDetails {
                    name: "core::num::nonzero::NonZero<usize>",
                    min: one.to_decimal(),
                    max: usize::MAX.to_decimal(),
                }
            },
            TypesManual::NonZeroI8 => TypeDetails {
                name: "core::num::nonzero::NonZero<i8>",
                min: i8::MIN.to_decimal(),
                max: i8::MAX.to_decimal(),
            },
            TypesManual::NonZeroI16 => TypeDetails {
                name: "core::num::nonzero::NonZero<i16>",
                min: i16::MIN.to_decimal(),
                max: i16::MAX.to_decimal(),
            },
            TypesManual::NonZeroI32 => TypeDetails {
                name: "core::num::nonzero::NonZero<i32>",
                min: i32::MIN.to_decimal(),
                max: i32::MAX.to_decimal(),
            },
            TypesManual::NonZeroI64 => TypeDetails {
                name: "core::num::nonzero::NonZero<i64>",
                min: i64::MIN.to_decimal(),
                max: i64::MAX.to_decimal(),
            },
            TypesManual::NonZeroI128 => TypeDetails {
                name: "core::num::nonzero::NonZero<i128>",
                min: i128::MIN.to_decimal(),
                max: i128::MAX.to_decimal(),
            },
            TypesManual::NonZeroIsize => TypeDetails {
                name: "core::num::nonzero::NonZero<isize>",
                min: isize::MIN.to_decimal(),
                max: isize::MAX.to_decimal(),
            },
        }
    }
}

/// The name of a type with its least and its greatest value.
#[derive(Debug, Clone)]
pub struct TypeDetails<T> {
    pub name: &'static str,
    pub min: T,
    pub max: T,
}

impl<T: ToDecimal> TypeDetails<T> {
    /// The same details with the two values written out in decimal digits.
    pub fn as_strings(&self) -> (details: TypeDetails<String>)
        ensures
            details.name == self.name,
            details.min@ == signed_decimal(self.min.number()),
            details.max@ == signed_decimal(self.max.number()),
    {
        TypeDetails { name: self.name, min: self.min.to_decimal(), max: self.max.to_decimal() }
    }
}

/// A text in yellow: between the code that sets the colour of the foreground
/// and the code that sets it back.
pub open spec fn in_yellow(text: Seq<char>) -> Seq<char> {
    "\x1b[33m"@ + text + "\x1b[39m"@
}

/// A text in green.
pub open spec fn in_green(text: Seq<char>) -> Seq<char> {
    "\x1b[32m"@ + text + "\x1b[39m"@
}

/// A text in cyan.
pub open spec fn in_cyan(text: Seq<char>) -> Seq<char> {
    "\x1b[36m"@ + text + "\x1b[39m"@
}

/// A text in bold: between the code for bold and the code that resets all.
pub open spec fn in_bold(text: Seq<char>) -> Seq<char> {
    "\x1b[1m"@ + text + "\x1b[0m"@
}

/// A text in italics.
pub open spec fn in_italic(text: Seq<char>) -> Seq<char> {
    "\x1b[3m"@ + text + "\x1b[0m"@
}

/// `OwoColorize::yellow` of owo_colors, written out: the text behind the
/// escape code of the yellow foreground and before that of the default
/// foreground.
#[verifier::external_body]
fn yellow(text: &str) -> (styled: String)
    ensures
        styled@ == in_yellow(text@),
{
    format!("{}", text.yellow())
}

/// `OwoColorize::green` of owo_colors, written out: the text behind the
/// escape code of the green foreground and before that of the default
/// foreground.
#[verifier::external_body]
fn green(text: &str) -> (styled: String)
    ensures
        styled@ == in_green(text@),
{
    format!("{}", text.green())
}

/// `OwoColorize::cyan` of owo_colors, written out: the text behind the
/// escape code of the cyan foreground and before that of the default
/// foreground.
#[verifier::external_body]
fn cyan(text: &str) -> (styled: String)
    ensures
        styled@ == in_cyan(text@),
{
    format!("{}", text.cyan())
}

/// `OwoColorize::bold` of owo_colors, written out: the text behind the
/// escape code for bold and before the code that resets every style.
#[verifier::external_body]
fn bold(text: &str) -> (styled: String)
    ensures
        styled@ == in_bold(text@),
{
    format!("{}", text.bold())
}

/// `OwoColorize::italic` of owo_colors, written out: the text behind the
/// escape code for italics and before the code that resets every style.
#[verifier::external_body]
fn italic(text: &str) -> (styled: String)
    ensures
        styled@ == in_italic(text@),
{
    format!("{}", text.italic())
}

/// A label of the details: yellow, in italics.
fn label(text: &str) -> (styled: String)
    ensures
        styled@ == in_italic(in_yellow(text@)),
{
    italic(yellow(text).as_str())
}

impl TypeDetails<String> {
    /// The details as they are shown on a terminal: three lines, the labels
    /// in yellow italics, the name in bold cyan, the values in green.
    pub open spec fn display_text(self) -> Seq<char> {
        in_italic(in_yellow("type"@)) + ": "@ + in_cyan(in_bold(self.name@)) + "\n "@ + in_italic(
            in_yellow("min"@),
        ) + ": "@ + in_green(self.min@) + ",\n "@ + in_italic(in_yellow("max"@)) + ": "@
            + in_green(self.max@)
    }

    /// The details as they are shown on a terminal.
    pub fn display_string(&self) -> (text: String)
        ensures
            text@ == self.display_text(),
    {
        let mut text = label("type");
        text.append(": ");
        text.append(cyan(bold(self.name).as_str()).as_str());
        text.append("\n ");
        text.append(label("min").as_str());
        text.append(": ");
        text.append(green(self.min.as_str()).as_str());
        text.append(",\n ");
        text.append(label("max").as_str());
        text.append(": ");
        text.append(green(self.max.as_str()).as_str());
        text
    }
}

/// What the search for the primes up to the greatest value of a type came to.
#[derive(Clone, Debug, PartialEq, Eq)]
pub enum PrimesOfType {
    /// The primes up to and including `upper_bound`.
    Found { upper_bound: usize, found: Vec<usize> },
    /// Nothing: `upper_bound` lies beyond what is searched unasked.
    TooFar { upper_bound: usize },
}

impl TypeDetails<String> {
    /// The primes up to the greatest value of the type, where that value is
    /// a number that the machine can count, and no further than
    /// [`MAX_PRIME_TILL`].
    pub fn primes_up_to_max(&self) -> (result: Result<PrimesOfType, ParseError>)
        requires
            parsed(self.max@) != Ok::<nat, ParseError>(0),
        ensures
            match parsed(self.max@) {
                Ok(max) => result matches Ok(outcome) && match outcome {
                    PrimesOfType::Found { upper_bound, found } => {
                        &&& upper_bound == max
                        &&& max <= MAX_PRIME_TILL
                        &&& primes_between(found@, 0, upper_bound)
                    },
                    PrimesOfType::TooFar { upper_bound } => upper_bound == max && max
                        > MAX_PRIME_TILL,
                },
                Err(error) => result == Err::<PrimesOfType, ParseError>(error),
            },
    {
        let upper_bound: usize = match parse_usize(self.max.as_str()) {
            Ok(upper_bound) => upper_bound,
            Err(error) => {
                return Err(error);
            },
        };
        match primes_within_limit(upper_bound) {
            Some(found) => Ok(PrimesOfType::Found { upper_bound, found }),
            None => Ok(PrimesOfType::TooFar { upper_bound }),
        }
    }
}

/// The name and the bounds of a numeric type.
pub fn get_type_details<T: TypeInfo + ToDecimal>() -> (details: TypeDetails<T>)
    ensures
        details.name@ == T::name(),
        details.min == T::least(),
        details.max == T::greatest(),
{
    TypeDetails { name: T::name_of_type(), min: T::min_value(), max: T::max_value() }
}

} // verus!
