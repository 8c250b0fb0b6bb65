//! JSON documents. Parsing and the values themselves are `serde_json`'s; this
//! module gives a parsed value a mathematical model, `JsonTree`, states what
//! each accessor returns over that model, and builds the verified field
//! readers that the rest of the library uses.

use vstd::prelude::*;

verus! {

/// `serde_json::Value`, a parsed JSON value. Opaque here: what it holds is
/// `json_tree` of it.
#[verifier::external_type_specification]
#[verifier::external_body]
pub struct ExJsonValue(serde_json::Value);

/// `serde_json::Error`, why a text is no JSON document.
#[verifier::external_type_specification]
#[verifier::external_body]
pub struct ExJsonError(serde_json::Error);

/// A JSON number as far as this library reads it: a non-negative integer that
/// fits in 64 bits, or any other number (a negative one, a fraction, or one
/// too large).
pub enum JsonNumber {
    Unsigned(u64),
    Other,
}

/// The model of a JSON value.
pub enum JsonTree {
    Null,
    Bool(bool),
    Number(JsonNumber),
    Text(Seq<char>),
    Array(Seq<JsonTree>),
    Object(Map<Seq<char>, JsonTree>),
}

impl JsonTree {
    /// The member `key` of an object; `None` for a missing key and for
    /// anything that is no object.
    pub open spec fn member(self, key: Seq<char>) -> Option<JsonTree> {
        match self {
            JsonTree::Object(members) => if members.dom().contains(key) {
                Some(members[key])
            } else {
                None
            },
            _ => None,
        }
    }

    /// The element `i` of an array; `None` out of bounds and for anything
    /// that is no array.
    pub open spec fn element(self, i: int) -> Option<JsonTree> {
        match self {
            JsonTree::Array(items) => if 0 <= i < items.len() {
                Some(items[i])
            } else {
                None
            },
            _ => None,
        }
    }

    /// The elements of an array; `None` for anything that is no array.
    pub open spec fn items(self) -> Option<Seq<JsonTree>> {
        match self {
            JsonTree::Array(items) => Some(items),
            _ => None,
        }
    }

    /// The characters of a string; `None` for anything that is no string.
    pub open spec fn text(self) -> Option<Seq<char>> {
        match self {
            JsonTree::Text(chars) => Some(chars),
            _ => None,
        }
    }

    /// The value of a non-negative integer that fits in 64 bits; `None` for
    /// anything else.
    pub open spec fn unsigned(self) -> Option<u64> {
        match self {
            JsonTree::Number(JsonNumber::Unsigned(n)) => Some(n),
            _ => None,
        }
    }

    /// The value of a boolean; `None` for anything else.
    pub open spec fn boolean(self) -> Option<bool> {
        match self {
            JsonTree::Bool(b) => Some(b),
            _ => None,
        }
    }
}

/// What a `serde_json::Value` holds: null, a boolean, a number, the
/// characters of a string, the elements of an array in their order, or the
/// members of an object by their keys. The accessors below say what they
/// return over this model.
pub uninterp spec fn json_tree(value: serde_json::Value) -> JsonTree;

/// What `serde_json::from_str` makes of a text: the document's model, or
/// `None` where the text is no JSON document.
pub uninterp spec fn json_parse(text: Seq<char>) -> Option<JsonTree>;

/// The models of a vector of values.
pub open spec fn json_trees(values: Seq<serde_json::Value>) -> Seq<JsonTree> {
    values.map_values(|value: serde_json::Value| json_tree(value))
}

/// `serde_json::from_str` at type `Value`: parses a whole text as one JSON
/// document. The value it returns holds `json_parse` of the text; it fails
/// exactly where `json_parse` is `None`.
#[verifier::external_body]
pub(crate) fn parse_value(text: &str) -> (parsed: Result<serde_json::Value, serde_json::Error>)
    ensures
        match parsed {
            Ok(value) => json_parse(text@) == Some(json_tree(value)),
            Err(_) => json_parse(text@) is None,
        },
{
    serde_json::from_str::<serde_json::Value>(text)
}

/// `Value::get` with a string index: the member of that name, where the
/// value is an object that has one.
#[verifier::external_body]
pub(crate) fn value_member<'a>(value: &'a serde_json::Value, key: &str) -> (found: Option<
    &'a serde_json::Value,
>)
    ensures
        match found {
            Some(member) => json_tree(*value).member(key@) == Some(json_tree(*member)),
            None => json_tree(*value).member(key@) is None,
        },
{
    value.get(key)
}

/// `Value::as_array`: the elements, where the value is an array.
#[verifier::external_body]
pub(crate) fn value_as_array(value: &serde_json::Value) -> (found: Option<&Vec<serde_json::Value>>)
    ensures
        match found {
            Some(items) => json_tree(*value).items() == Some(json_trees(items@)),
            None => json_tree(*value).items() is None,
        },
{
    value.as_array()
}

/// `Value::as_str`: the characters, where the value is a string.
#[verifier::external_body]
pub(crate) fn value_as_text(value: &serde_json::Value) -> (found: Option<&str>)
    ensures
        match found {
            Some(text) => json_tree(*value).text() == Some(text@),
            None => json_tree(*value).text() is None,
        },
{
    value.as_str()
}

/// `Value::as_u64`: the number, where the value is a non-negative integer
/// that fits in 64 bits.
#[verifier::external_body]
pub(crate) fn value_as_u64(value: &serde_json::Value) -> (found: Option<u64>)
    ensures
        found == json_tree(*value).unsigned(),
{
    value.as_u64()
}

/// `Value::as_bool`: the boolean, where the value is one.
#[verifier::external_body]
pub(crate) fn value_as_bool(value: &serde_json::Value) -> (found: Option<bool>)
    ensures
        found == json_tree(*value).boolean(),
{
    value.as_bool()
}

/// `Value::is_null`.
#[verifier::external_body]
pub(crate) fn value_is_null(value: &serde_json::Value) -> (null: bool)
    ensures
        null == (json_tree(*value) is Null),
{
    value.is_null()
}

/// `Value::is_object`.
#[verifier::external_body]
pub(crate) fn value_is_object(value: &serde_json::Value) -> (object: bool)
    ensures
        object == (json_tree(*value) is Object),
{
    value.is_object()
}

/// How a field reads that may be left out. `Some(None)`: the key is missing
/// or its value is null. `Some(Some(v))`: the value `pick` accepts. `None`:
/// a value of another kind, which makes the whole record ill-typed.
pub open spec fn optional_field<T>(
    object: JsonTree,
    key: Seq<char>,
    pick: spec_fn(JsonTree) -> Option<T>,
) -> Option<Option<T>> {
    match object.member(key) {
        None => Some(None),
        Some(JsonTree::Null) => Some(None),
        Some(value) => match pick(value) {
            Some(picked) => Some(Some(picked)),
            None => None,
        },
    }
}

/// An optional string field.
pub open spec fn optional_text(object: JsonTree, key: Seq<char>) -> Option<Option<Seq<char>>> {
    optional_field(object, key, |value: JsonTree| value.text())
}

/// An optional field that holds a non-negative integer of 64 bits.
pub open spec fn optional_u64(object: JsonTree, key: Seq<char>) -> Option<Option<u64>> {
    optional_field(object, key, |value: JsonTree| value.unsigned())
}

/// An optional field that holds a non-negative integer of 32 bits.
pub open spec fn optional_u32(object: JsonTree, key: Seq<char>) -> Option<Option<u32>> {
    optional_field(
        object,
        key,
        |value: JsonTree|
            match value.unsigned() {
                Some(n) => if n <= u32::MAX {
                    Some(n as u32)
                } else {
                    None
                },
                None => None,
            },
    )
}

/// An optional boolean field.
pub open spec fn optional_bool(object: JsonTree, key: Seq<char>) -> Option<Option<bool>> {
    optional_field(object, key, |value: JsonTree| value.boolean())
}

/// A string field that must be there.
pub open spec fn required_text(object: JsonTree, key: Seq<char>) -> Option<Seq<char>> {
    match object.member(key) {
        Some(value) => value.text(),
        None => None,
    }
}

/// A field that must be there and hold a non-negative integer of 64 bits.
pub open spec fn required_u64(object: JsonTree, key: Seq<char>) -> Option<u64> {
    match object.member(key) {
        Some(value) => value.unsigned(),
        None => None,
    }
}

/// What an optional field holds once the record is known to be well-typed.
pub open spec fn held<T>(field: Option<Option<T>>) -> Option<T> {
    match field {
        Some(value) => value,
        None => None,
    }
}

/// Reads an optional string field of an object.
pub fn read_optional_text(object: &serde_json::Value, key: &str) -> (field: Option<Option<String>>)
    ensures
        field.deep_view() == optional_text(json_tree(*object), key@),
{
    match value_member(object, key) {
        None => Some(None),
        Some(value) => {
            if value_is_null(value) {
                Some(None)
            } else {
                match value_as_text(value) {
                    Some(text) => Some(Some(text.to_owned())),
                    None => None,
                }
            }
        },
    }
}

/// Reads an optional 64-bit field of an object.
pub fn read_optional_u64(object: &serde_json::Value, key: &str) -> (field: Option<Option<u64>>)
    ensures
        field == optional_u64(json_tree(*object), key@),
{
    match value_member(object, key) {
        None => Some(None),
        Some(value) => {
            if value_is_null(value) {
                Some(None)
            } else {
                match value_as_u64(value) {
                    Some(n) => Some(Some(n)),
                    None => None,
                }
            }
        },
    }
}

/// Reads an optional 32-bit field of an object.
pub fn read_optional_u32(object: &serde_json::Value, key: &str) -> (field: Option<Option<u32>>)
    ensures
        field == optional_u32(json_tree(*object), key@),
{
    match value_member(object, key) {
        None => Some(None),
        Some(value) => {
            if value_is_null(value) {
                Some(None)
            } else {
                match value_as_u64(value) {
                    Some(n) => if n <= 0xffff_ffff {
                        Some(Some(n as u32))
                    } else {
                        None
                    },
                    None => None,
                }
            }
        },
    }
}

/// Reads an optional boolean field of an object.
pub fn read_optional_bool(object: &serde_json::Value, key: &str) -> (field: Option<Option<bool>>)
    ensures
        field == optional_bool(json_tree(*object), key@),
{
    match value_member(object, key) {
        None => Some(None),
        Some(value) => {
            if value_is_null(value) {
                Some(None)
            } else {
                match value_as_bool(value) {
                    Some(b) => Some(Some(b)),
                    None => None,
                }
            }
        },
    }
}

/// Reads a string field that must be there.
pub fn read_required_text(object: &serde_json::Value, key: &str) -> (field: Option<String>)
    ensures
        field.deep_view() == required_text(json_tree(*object), key@),
{
    match value_member(object, key) {
        None => None,
        Some(value) => match value_as_text(value) {
            Some(text) => Some(text.to_owned()),
            None => None,
        },
    }
}

/// Reads a 64-bit field that must be there.
pub fn read_required_u64(object: &serde_json::Value, key: &str) -> (field: Option<u64>)
    ensures
        field == required_u64(json_tree(*object), key@),
{
    match value_member(object, key) {
        None => None,
        Some(value) => value_as_u64(value),
    }
}

/// The element `i` of an array value.
pub fn read_element(value: &serde_json::Value, i: usize) -> (found: Option<&serde_json::Value>)
    ensures
        match found {
            Some(item) => json_tree(*value).element(i as int) == Some(json_tree(*item)),
            None => json_tree(*value).element(i as int) is None,
        },
{
    match value_as_array(value) {
        Some(items) => if i < items.len() {
            Some(&items[i])
        } else {
            None
        },
        None => None,
    }
}

} // verus!
