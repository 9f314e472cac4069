//! A wrapper that keeps a sensitive value out of logs.
//!
//! A [`HiddenValue`] shows nothing of what it holds when it is printed for
//! debugging, or only the text that it was given to show in its place: the
//! last characters of an API key, say. It guards against leaks in text. It
//! does not guard the value in memory.

use crate::decimal::{decimal, push_decimal};
use core::marker::PhantomData;
use vstd::prelude::*;
use vstd::string::{StrSliceExecFns, StringExecFns};
use vstd::utf8::{encode_utf8, is_ascii_chars, is_ascii_chars_encode_utf8};

verus! {

/// `core::fmt::Formatter`: where a value writes itself when it is printed.
/// It is handed on as it comes.
#[verifier::external_type_specification]
#[verifier::external_body]
pub struct ExFormatter<'a>(core::fmt::Formatter<'a>);

/// `core::fmt::Error`: what a formatter answers when its sink refuses.
#[verifier::external_type_specification]
#[verifier::external_body]
pub struct ExFmtError(core::fmt::Error);

/// `core::fmt::Formatter::write_str` hands the text to the formatter's sink.
/// Whether the sink took it is for the sink to say: nothing is claimed of the
/// result.
pub assume_specification<'a>[ core::fmt::Formatter::<'a>::write_str ](
    f: &mut core::fmt::Formatter<'a>,
    data: &str,
) -> (result: Result<(), core::fmt::Error>)
;

/// Why a hidden value could not be made.
#[derive(Clone, Copy, Debug, PartialEq, Eq, Structural)]
pub enum HiddenValueError {
    /// More of the value was to be revealed than it is long, or all of it.
    RevealLengthTooLong { requested: usize, actual: usize },
}

/// The length of a text in bytes of UTF-8, as the machine counts it.
pub open spec fn byte_len(text: Seq<char>) -> usize {
    encode_utf8(text).len() as usize
}

/// What is shown of a value for a request to reveal `requested` at its end:
/// the text from the character on whose number is the value's length in
/// bytes less `requested`, which is nothing where the value has fewer
/// characters than that.
pub open spec fn revealed_end(value: Seq<char>, requested: usize) -> Seq<char> {
    let skipped = byte_len(value) - requested;
    if 0 <= skipped <= value.len() {
        value.skip(skipped)
    } else {
        Seq::empty()
    }
}

/// The text to show in place of `value` for a request to reveal its end:
/// none without a request, and no value at all where the request is for as
/// many bytes as the value has, or more.
pub open spec fn masking(value: Seq<char>, reveal_len: Option<usize>) -> Result<
    Option<Seq<char>>,
    HiddenValueError,
> {
    match reveal_len {
        None => Ok(None),
        Some(requested) => if byte_len(value) <= requested {
            Err(HiddenValueError::RevealLengthTooLong { requested, actual: byte_len(value) })
        } else {
            Ok(Some(revealed_end(value, requested)))
        },
    }
}

/// Of a value that is all ASCII, a request for fewer characters than it has
/// reveals exactly that many: its last ones.
pub proof fn lemma_ascii_reveals_the_end(value: Seq<char>, requested: usize)
    requires
        is_ascii_chars(value),
        requested < value.len() <= usize::MAX,
    ensures
        masking(value, Some(requested)) == Ok::<Option<Seq<char>>, HiddenValueError>(
            Some(value.subrange(value.len() - requested, value.len() as int)),
        ),
        revealed_end(value, requested).len() == requested,
{
    is_ascii_chars_encode_utf8(value);
}

/// The text of an optional string.
pub open spec fn text_of(text: Option<String>) -> Option<Seq<char>> {
    match text {
        Some(text) => Some(text@),
        None => None,
    }
}

/// What a hidden value prints as, given the text that it shows in its place.
pub open spec fn debug_text(masked: Option<Seq<char>>) -> Seq<char> {
    match masked {
        None => "HiddenValue { REDACTED }"@,
        Some(masked) => "HiddenValue { REDACTED..\""@ + masked + "\" }"@,
    }
}

impl HiddenValueError {
    /// The error in words.
    pub open spec fn message_text(self) -> Seq<char> {
        match self {
            HiddenValueError::RevealLengthTooLong { requested, actual } => "Reveal length ("@
                + decimal(requested as nat) + ") exceeds value's UTF-8 char length ("@ + decimal(
                actual as nat,
            ) + ")"@,
        }
    }

    /// The error in words.
    pub fn message(&self) -> (text: String)
        ensures
            text@ == self.message_text(),
    {
        match self {
            HiddenValueError::RevealLengthTooLong { requested, actual } => {
                let mut text = String::from_str("Reveal length (");
                push_decimal(*requested as u128, &mut text);
                text.append(") exceeds value's UTF-8 char length (");
                push_decimal(*actual as u128, &mut text);
                text.append(")");
                text
            },
        }
    }
}

/// Works out the text to show in place of `value`.
pub fn mask(value: &str, reveal_len: Option<usize>) -> (result: Result<
    Option<String>,
    HiddenValueError,
>)
    ensures
        match masking(value@, reveal_len) {
            Ok(masked) => result matches Ok(text) && text_of(text) == masked,
            Err(error) => result == Err::<Option<String>, HiddenValueError>(error),
        },
{
    match reveal_len {
        None => Ok(None),
        Some(requested) => {
            let actual: usize = value.len();
            if actual <= requested {
                return Err(HiddenValueError::RevealLengthTooLong { requested, actual });
            }
            let chars: usize = value.unicode_len();
            let skipped: usize = actual - requested;
            let start: usize = if skipped <= chars {
                skipped
            } else {
                chars
            };
            let shown = value.substring_char(start, chars);
            Ok(Some(String::from_str(shown)))
        },
    }
}

/// A value that stays out of debug output.
#[derive(Clone)]
pub struct HiddenValue<T> {
    value: T,
    obf_string: Option<String>,
}

impl<T> HiddenValue<T> {
    /// The value that is hidden.
    pub closed spec fn value(&self) -> T {
        self.value
    }

    /// The text that is shown in its place, where there is one.
    pub closed spec fn masked(&self) -> Option<Seq<char>> {
        text_of(self.obf_string)
    }

    /// Hides `value`. Where `obf_string` is given it is shown in the value's
    /// place, as it is: that it gives nothing away is for the caller to see
    /// to.
    ///
    /// This cannot fail as things are. It returns a `Result` so that checks
    /// of the shown text can be added later.
    pub fn new(value: T, obf_string: Option<String>) -> (result: Result<Self, HiddenValueError>)
        ensures
            result matches Ok(hidden) && hidden.value() == value && hidden.masked() == text_of(
                obf_string,
            ),
    {
        Ok(HiddenValue { value, obf_string })
    }

    /// Starts a hidden value from its parts.
    pub fn builder() -> (builder: HiddenValueBuilder<T>) {
        HiddenValueBuilder { marker: PhantomData }
    }

    /// The value itself.
    #[must_use]
    pub fn expose_value(&self) -> (value: &T)
        ensures
            *value == self.value(),
    {
        &self.value
    }

    /// What the hidden value prints as for debugging.
    pub fn debug_string(&self) -> (text: String)
        ensures
            text@ == debug_text(self.masked()),
    {
        match &self.obf_string {
            None => String::from_str("HiddenValue { REDACTED }"),
            Some(masked) => {
                let mut text = String::from_str("HiddenValue { REDACTED..\"");
                text.append(masked.as_str());
                text.append("\" }");
                text
            },
        }
    }
}

impl HiddenValue<String> {
    /// Hides a string and shows its end in its place: with `reveal_len` of
    /// four, the last four characters of a key that is all ASCII. Without a
    /// `reveal_len` nothing is shown.
    ///
    /// The request is measured against the value's length in bytes, and must
    /// stay below it.
    pub fn new_revealing(value: String, reveal_len: Option<usize>) -> (result: Result<
        Self,
        HiddenValueError,
    >)
        ensures
            match masking(value@, reveal_len) {
                Ok(masked) => result matches Ok(hidden) && hidden.value() == value
                    && hidden.masked() == masked,
                Err(error) => result == Err::<Self, HiddenValueError>(error),
            },
    {
        match mask(value.as_str(), reveal_len) {
            Ok(masked) => HiddenValue::new(value, masked),
            Err(error) => Err(error),
        }
    }
}

impl<T> core::fmt::Debug for HiddenValue<T> {
    /// Writes [`HiddenValue::debug_string`], and so nothing of the value.
    fn fmt(&self, f: &mut core::fmt::Formatter<'_>) -> (result: Result<(), core::fmt::Error>) {
        let text = self.debug_string();
        f.write_str(text.as_str())
    }
}

/// A hidden value in the making, before it has its value.
pub struct HiddenValueBuilder<T> {
    marker: PhantomData<T>,
}

impl<T> HiddenValueBuilder<T> {
    /// Sets the value to hide.
    pub fn value(self, value: T) -> (builder: HiddenValueParts<T>)
        ensures
            builder.value() == value,
            builder.masked().is_none(),
    {
        HiddenValueParts { value, obf_string: None }
    }
}

/// A hidden value in the making, with its value.
pub struct HiddenValueParts<T> {
    value: T,
    obf_string: Option<String>,
}

impl<T> HiddenValueParts<T> {
    /// The value to hide.
    pub closed spec fn value(&self) -> T {
        self.value
    }

    /// The text to show in its place, where one was set.
    pub closed spec fn masked(&self) -> Option<Seq<char>> {
        text_of(self.obf_string)
    }

    /// Sets the text to show in the value's place.
    pub fn obf_string(self, obf_string: &str) -> (builder: Self)
        ensures
            builder.value() == self.value(),
            builder.masked() == Some(obf_string@),
    {
        HiddenValueParts { value: self.value, obf_string: Some(String::from_str(obf_string)) }
    }

    /// Sets the text to show in the value's place, or that there is none.
    pub fn maybe_obf_string(self, obf_string: Option<String>) -> (builder: Self)
        ensures
            builder.value() == self.value(),
            builder.masked() == text_of(obf_string),
    {
        HiddenValueParts { value: self.value, obf_string }
    }

    /// Makes the hidden value.
    pub fn build(self) -> (result: Result<HiddenValue<T>, HiddenValueError>)
        ensures
            result matches Ok(hidden) && hidden.value() == self.value() && hidden.masked()
                == self.masked(),
    {
        HiddenValue::new(self.value, self.obf_string)
    }
}

} // verus!
