//! The self-describing configuration value that the decoder consumes, and
//! the part of it that the decoder reads.

use vstd::prelude::*;

verus! {

/// A value of a hierarchical configuration format.
///
/// A map keeps its pairs in the order in which the source gave them, and may
/// hold a key more than once.
#[derive(Debug, PartialEq)]
pub enum ConfigValue {
    /// A scalar string.
    Str(String),
    /// Key/value pairs, in source order.
    Mapping(Vec<(String, ConfigValue)>),
    /// A sequence of values.
    List(Vec<ConfigValue>),
    /// A boolean.
    Bool(bool),
    /// A number of any kind.
    Number,
    /// The absent value.
    Null,
}

/// One pair of a map, as far as the decoder reads it: the key, and the
/// value's text where the value is a string.
pub struct Entry {
    pub key: Seq<char>,
    pub text: Option<Seq<char>>,
}

/// What the decoder reads of a configuration value.
pub enum Shape {
    /// A scalar string with its text.
    Scalar(Seq<char>),
    /// An associative structure with its pairs in source order.
    Assoc(Seq<Entry>),
    /// Anything else: a list, a number, a boolean, the absent value.
    Other,
}

/// The pairs of a map as the decoder reads them, in the same order.
pub open spec fn entries_of(pairs: Seq<(String, ConfigValue)>) -> Seq<Entry> {
    Seq::new(pairs.len(), |i: int| Entry { key: pairs[i].0@, text: pairs[i].1.text() })
}

impl ConfigValue {
    /// The text of a string value; `None` for every other value.
    pub open spec fn text(&self) -> Option<Seq<char>> {
        match self {
            ConfigValue::Str(s) => Some(s@),
            _ => None,
        }
    }
}

impl View for ConfigValue {
    type V = Shape;

    open spec fn view(&self) -> Shape {
        match self {
            ConfigValue::Str(s) => Shape::Scalar(s@),
            ConfigValue::Mapping(pairs) => Shape::Assoc(entries_of(pairs@)),
            _ => Shape::Other,
        }
    }
}

} // verus!
