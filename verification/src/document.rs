//! Decoding a TOML document into a [`ConfigValue`].
//!
//! The decoding itself is the `toml` crate's. This module states what it
//! relies on (the trusted items below, none of them proved) and turns the
//! crate's value into the library's own, which the rest of the library reads.

use crate::value::{ConfigValue, Doc};
use vstd::prelude::*;

verus! {

/// `toml::Value`, the `toml` crate's decoded value. Nothing inside it is
/// visible here: it is read one level at a time, through `level` below.
#[verifier::external_type_specification]
#[verifier::external_body]
pub struct ExTomlValue(toml::Value);

/// `toml::de::Error`, the `toml` crate's decoding error.
#[verifier::external_type_specification]
#[verifier::external_body]
pub struct ExTomlError(toml::de::Error);

/// What the `toml` crate decodes `text` to: the document's tree, or `None`
/// where the text is not well-formed TOML.
pub uninterp spec fn toml_document(text: Seq<char>) -> Option<Doc>;

/// What a `toml::Value` holds. A table's entries stand in the order in which
/// the crate's map hands them out.
pub uninterp spec fn value_doc(value: toml::Value) -> Doc;

/// A document that could not be decoded.
#[derive(Debug, PartialEq, Eq)]
pub struct SyntaxError {
    /// The decoder's account of what is wrong, and where.
    pub message: String,
}

/// `<toml::Value as FromStr>::from_str`, reached through `str::parse`. Assumed:
/// decoding depends on the text alone, so that its outcome is
/// `toml_document` of the text.
#[verifier::external_body]
fn decode(text: &str) -> (out: Result<toml::Value, toml::de::Error>)
    ensures
        match out {
            Ok(value) => toml_document(text@) == Some(value_doc(value)),
            Err(_) => toml_document(text@) is None,
        },
{
    text.parse::<toml::Value>()
}

/// `toml::de::Error`'s `Display`, through `to_string`. Nothing is assumed of
/// the message.
#[verifier::external_body]
fn error_message(error: &toml::de::Error) -> (out: String) {
    error.to_string()
}

/// One level of a decoded value: its kind with what it holds, the values
/// below it as the `toml` crate has them.
enum Level<'a> {
    String(&'a str),
    Integer(i64),
    Float(u64),
    Boolean(bool),
    Datetime(String),
    Array(&'a Vec<toml::Value>),
    Table(Vec<(&'a String, &'a toml::Value)>),
}

impl<'a> Level<'a> {
    /// The tree that this level stands for.
    spec fn doc(self) -> Doc {
        match self {
            Level::String(text) => Doc::String(text@),
            Level::Integer(number) => Doc::Integer(number),
            Level::Float(bits) => Doc::Float(bits),
            Level::Boolean(truth) => Doc::Boolean(truth),
            Level::Datetime(text) => Doc::Datetime(text@),
            Level::Array(items) => Doc::Array(Seq::new(items@.len(), |i: int| value_doc(items@[i]))),
            Level::Table(entries) => Doc::Table(
                Seq::new(entries@.len(), |i: int| (entries@[i].0@, value_doc(*entries@[i].1))),
            ),
        }
    }
}

/// The variants of `toml::Value` told apart, each with its field. Assumed:
/// the value holds what the variant holds: a float as its bits
/// (`f64::to_bits`), a datetime as the text that its `Display` writes, an
/// array as its elements in order, a table as the entries that
/// `toml::map::Map::iter` yields, in the map's order.
#[verifier::external_body]
fn level(value: &toml::Value) -> (out: Level<'_>)
    ensures
        value_doc(*value) == out.doc(),
{
    match value {
        toml::Value::String(text) => Level::String(text),
        toml::Value::Integer(number) => Level::Integer(*number),
        toml::Value::Float(number) => Level::Float(number.to_bits()),
        toml::Value::Boolean(truth) => Level::Boolean(*truth),
        toml::Value::Datetime(datetime) => Level::Datetime(datetime.to_string()),
        toml::Value::Array(items) => Level::Array(items),
        toml::Value::Table(table) => Level::Table(table.iter().collect()),
    }
}

/// The library's value for a decoded one: the same tree.
fn convert(value: &toml::Value) -> (out: ConfigValue)
    ensures
        out@ == value_doc(*value),
    decreases value_doc(*value),
{
    match level(value) {
        Level::String(text) => ConfigValue::String(text.to_owned()),
        Level::Integer(number) => ConfigValue::Integer(number),
        Level::Float(bits) => ConfigValue::Float(bits),
        Level::Boolean(truth) => ConfigValue::Boolean(truth),
        Level::Datetime(text) => ConfigValue::Datetime(text),
        Level::Array(items) => {
            let ghost docs = Seq::new(items@.len(), |k: int| value_doc(items@[k]));
            let mut converted: Vec<ConfigValue> = Vec::new();
            let mut i: usize = 0;
            while i < items.len()
                invariant
                    i <= items@.len(),
                    converted@.len() == i,
                    docs == Seq::new(items@.len(), |k: int| value_doc(items@[k])),
                    value_doc(*value) == Doc::Array(docs),
                    forall|k: int| 0 <= k < i ==> (#[trigger] converted@[k])@ == docs[k],
                decreases items@.len() - i,
            {
                proof {
                    assert(docs[i as int] == value_doc(items@[i as int]));
                    assert(decreases_to!(value_doc(*value) => value_doc(*value)->Array_0));
                    assert(decreases_to!(docs => docs[i as int]));
                }
                converted.push(convert(&items[i]));
                i += 1;
            }
            let out = ConfigValue::Array(converted);
            assert(out@->Array_0 =~= docs);
            out
        },
        Level::Table(entries) => {
            let ghost docs = Seq::new(
                entries@.len(),
                |k: int| (entries@[k].0@, value_doc(*entries@[k].1)),
            );
            let mut converted: Vec<(String, ConfigValue)> = Vec::new();
            let mut i: usize = 0;
            while i < entries.len()
                invariant
                    i <= entries@.len(),
                    converted@.len() == i,
                    docs == Seq::new(
                        entries@.len(),
                        |k: int| (entries@[k].0@, value_doc(*entries@[k].1)),
                    ),
                    value_doc(*value) == Doc::Table(docs),
                    forall|k: int|
                        0 <= k < i ==> (#[trigger] converted@[k]).0@ == docs[k].0
                            && converted@[k].1@ == docs[k].1,
                decreases entries@.len() - i,
            {
                proof {
                    assert(docs[i as int] == (
                        entries@[i as int].0@,
                        value_doc(*entries@[i as int].1),
                    ));
                    assert(decreases_to!(value_doc(*value) => value_doc(*value)->Table_0));
                    assert(decreases_to!(docs => docs[i as int]));
                    assert(decreases_to!(docs[i as int] => docs[i as int].1));
                }
                let key = entries[i].0.clone();
                converted.push((key, convert(entries[i].1)));
                i += 1;
            }
            let out = ConfigValue::Table(converted);
            assert(out@->Table_0 =~= docs);
            out
        },
    }
}

/// Decodes a TOML document. The result is the document's tree exactly where
/// the text is well-formed, and a [`SyntaxError`] with the decoder's message
/// where it is not.
pub fn read_document(text: &str) -> (out: Result<ConfigValue, SyntaxError>)
    ensures
        match toml_document(text@) {
            Some(doc) => out matches Ok(document) && document@ == doc,
            None => out is Err,
        },
{
    match decode(text) {
        Ok(value) => Ok(convert(&value)),
        Err(error) => Err(SyntaxError { message: error_message(&error) }),
    }
}

} // verus!
