//! The errors of the decoder.

use vstd::prelude::*;
use crate::model::{bucket_key, region_key};

verus! {

/// Why a configuration value was rejected.
#[derive(Debug, Clone, PartialEq, Eq)]
pub enum DecodeError {
    /// The value is neither a string nor a map.
    TypeMismatch,
    /// A map holds a key that is not recognized; the key is given.
    UnknownField(String),
    /// A required key is absent from a map; the key is given.
    MissingField(&'static str),
    /// The value under a recognized key is not a string.
    ValueTypeError,
}

/// A decode error with its strings as sequences of characters.
pub enum DecodeErrorView {
    TypeMismatch,
    UnknownField(Seq<char>),
    MissingField(Seq<char>),
    ValueTypeError,
}

impl View for DecodeError {
    type V = DecodeErrorView;

    open spec fn view(&self) -> DecodeErrorView {
        match self {
            DecodeError::TypeMismatch => DecodeErrorView::TypeMismatch,
            DecodeError::UnknownField(key) => DecodeErrorView::UnknownField(key@),
            DecodeError::MissingField(name) => DecodeErrorView::MissingField(name@),
            DecodeError::ValueTypeError => DecodeErrorView::ValueTypeError,
        }
    }
}

/// The text that names an unrecognized key and lists the recognized ones.
pub open spec fn unknown_field_text(key: Seq<char>) -> Seq<char> {
    "unknown field `"@ + key + "`, expected `"@ + bucket_key() + "` or `"@ + region_key() + "`"@
}

/// The text that names an absent key.
pub open spec fn missing_field_text(name: Seq<char>) -> Seq<char> {
    "missing field `"@ + name + "`"@
}

/// The text for a value that is neither a string nor a map.
pub open spec fn type_mismatch_text() -> Seq<char> {
    "invalid type: expected a string or a map with S3 configuration"@
}

/// The text for a value under a recognized key that is not a string.
pub open spec fn value_type_text() -> Seq<char> {
    "invalid type: expected a string"@
}

/// Calls `serde::de::Error::unknown_field` on `serde::de::value::Error` and
/// returns the error's text.
///
/// Trusted: for a list of two names the text is `unknown field`, the key
/// between backquotes, `, expected`, and the two names, each between
/// backquotes, joined by `or`. The key and the names are copied as they are.
#[verifier::external_body]
fn unknown_field_message(field: &str, expected: &'static [&'static str; 2]) -> (text: String)
    ensures
        text@ == "unknown field `"@ + field@ + "`, expected `"@ + expected@[0]@ + "` or `"@
            + expected@[1]@ + "`"@,
{
    let e: serde::de::value::Error = serde::de::Error::unknown_field(field, expected);
    e.to_string()
}

/// Calls `serde::de::Error::missing_field` on `serde::de::value::Error` and
/// returns the error's text.
///
/// Trusted: the text is `missing field` and the name between backquotes,
/// copied as it is.
#[verifier::external_body]
fn missing_field_message(field: &'static str) -> (text: String)
    ensures
        text@ == "missing field `"@ + field@ + "`"@,
{
    let e: serde::de::value::Error = serde::de::Error::missing_field(field);
    e.to_string()
}

impl DecodeError {
    /// What the message of this error says.
    pub open spec fn message_text(self) -> Seq<char> {
        match self@ {
            DecodeErrorView::TypeMismatch => type_mismatch_text(),
            DecodeErrorView::UnknownField(key) => unknown_field_text(key),
            DecodeErrorView::MissingField(name) => missing_field_text(name),
            DecodeErrorView::ValueTypeError => value_type_text(),
        }
    }

    /// A message for the user. For an unknown field it names the key and
    /// lists the recognized keys; for a missing field it names the field.
    pub fn message(&self) -> (text: String)
        ensures
            text@ == self.message_text(),
    {
        match self {
            DecodeError::TypeMismatch => {
                "invalid type: expected a string or a map with S3 configuration".to_owned()
            },
            DecodeError::UnknownField(key) => {
                unknown_field_message(key.as_str(), &["bucket", "region"])
            },
            DecodeError::MissingField(name) => missing_field_message(name),
            DecodeError::ValueTypeError => "invalid type: expected a string".to_owned(),
        }
    }
}

} // verus!
