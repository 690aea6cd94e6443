//! JSON objects of scalar members, written and read with `serde_json`.

use serde_json::{Number, Value};
use vstd::prelude::*;
#[allow(unused_imports)]
use vstd::utf8::{decode_utf8, valid_utf8};

verus! {

/// The value of one member of an object to be written.
#[derive(Debug, Clone)]
pub enum JsonField {
    Int(i64),
    Uint(u64),
    Flag(bool),
    Text(&'static str),
    /// A number in decimal notation.
    Decimal(String),
}

/// What a member holds.
pub enum FieldValue {
    Int(int),
    Flag(bool),
    Text(Seq<char>),
    Decimal(Seq<char>),
}

impl View for JsonField {
    type V = FieldValue;

    open spec fn view(&self) -> FieldValue {
        match self {
            JsonField::Int(i) => FieldValue::Int(*i as int),
            JsonField::Uint(u) => FieldValue::Int(*u as int),
            JsonField::Flag(b) => FieldValue::Flag(*b),
            JsonField::Text(s) => FieldValue::Text(s@),
            JsonField::Decimal(s) => FieldValue::Decimal(s@),
        }
    }
}

/// The members of an object: keys with what they hold.
pub open spec fn members(fields: Seq<(&'static str, JsonField)>) -> Seq<(Seq<char>, FieldValue)> {
    fields.map_values(|f: (&'static str, JsonField)| (f.0@, f.1@))
}

/// The text of `serde_json`'s `Value::Object` with the given members, as
/// `Value`'s `Display` writes it.
pub uninterp spec fn object_text(members: Seq<(Seq<char>, FieldValue)>) -> Seq<char>;

/// Writes an object through `serde_json::Value::to_string`. The result is a
/// function of the members alone; how the text is laid out is left to the
/// crate. A decimal goes through `serde_json::Number`'s parser, and is `null`
/// where that refuses it.
#[verifier::external_body]
pub(crate) fn write_object(fields: &[(&'static str, JsonField)]) -> (text: String)
    ensures
        text@ == object_text(members(fields@)),
{
    let pairs = fields.iter().map(|(key, field)| {
        let value = match field {
            JsonField::Int(i) => Value::from(*i),
            JsonField::Uint(u) => Value::from(*u),
            JsonField::Flag(b) => Value::from(*b),
            JsonField::Text(s) => Value::from(*s),
            JsonField::Decimal(s) => s.parse::<Number>().map_or(Value::Null, Value::Number),
        };
        (key.to_string(), value)
    });
    Value::Object(pairs.collect()).to_string()
}

/// The string that the JSON text `text` has at its top level under `key`, as
/// `serde_json` reads it: nothing where the text is not JSON, is no object, or
/// holds no string there.
pub uninterp spec fn string_member_of(text: Seq<char>, key: Seq<char>) -> Option<Seq<char>>;

/// Reads one member through `serde_json::from_str`, `Value::get` and
/// `Value::as_str`. The result is a function of the text and the key alone;
/// which texts are JSON is left to the crate.
#[verifier::external_body]
pub(crate) fn string_member(text: &str, key: &str) -> (word: Option<String>)
    ensures
        match word {
            Some(w) => string_member_of(text@, key@) == Some(w@),
            None => string_member_of(text@, key@) is None,
        },
{
    let value = serde_json::from_str::<Value>(text).ok()?;
    value.get(key)?.as_str().map(str::to_owned)
}

/// The text that `String::from_utf8_lossy` makes of some bytes.
pub uninterp spec fn lossy_text(bytes: Seq<u8>) -> Seq<char>;

/// Decodes bytes through `String::from_utf8_lossy`. The result is a function of
/// the bytes alone, and what they encode where they are valid UTF-8. How many
/// replacement characters stand for an invalid part is left to it.
#[verifier::external_body]
pub(crate) fn lossy(bytes: &[u8]) -> (text: String)
    ensures
        text@ == lossy_text(bytes@),
        valid_utf8(bytes@) ==> text@ == decode_utf8(bytes@),
{
    String::from_utf8_lossy(bytes).into_owned()
}

} // verus!
