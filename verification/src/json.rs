//! JSON values, as the QEMU guest agent takes and gives them.

use serde_json::Value;
use vstd::prelude::*;

verus! {

/// `serde_json::Value`: a JSON value.
#[verifier::external_type_specification]
#[verifier::external_body]
pub struct ExValue(serde_json::Value);

/// What a JSON number is.
pub enum NumberView {
    /// An integer that is not negative
    Positive(nat),
    /// A negative integer
    Negative(int),
    /// Any other number, by its text
    Other(Seq<char>),
}

/// What a JSON value holds.
pub enum JsonView {
    /// `null`
    Null,
    /// `true` or `false`
    Bool(bool),
    /// A number
    Number(NumberView),
    /// A text
    Text(Seq<char>),
    /// A list of values
    Array(Seq<JsonView>),
    /// Values under names
    Object(Map<Seq<char>, JsonView>),
}

/// What a value of `serde_json` holds.
pub uninterp spec fn json_content(value: Value) -> JsonView;

/// What a text is as JSON: what it holds, or the message of the error where it is none.
pub uninterp spec fn json_parsed(text: Seq<char>) -> Result<JsonView, Seq<char>>;

/// The compact text of what a value holds. The names in an object are in order.
pub uninterp spec fn json_rendered(content: JsonView) -> Seq<char>;

/// The `Debug` text of the entries of an object.
pub uninterp spec fn json_entries_text(entries: Map<Seq<char>, JsonView>) -> Seq<char>;

/// `serde_json::from_str`: the value that a text is, or the message of the error. The
/// text alone determines which.
#[verifier::external_body]
pub(crate) fn parse_value(text: &str) -> (r: Result<Value, String>)
    ensures
        match json_parsed(text@) {
            Ok(content) => r matches Ok(value) && json_content(value) == content,
            Err(message) => r matches Err(e) && e@ == message,
        },
{
    serde_json::from_str(text).map_err(|err: serde_json::Error| err.to_string())
}

/// `Value::get` with a name: what an object holds under it. There is nothing under a name
/// in a value that is no object.
#[verifier::external_body]
pub(crate) fn get<'a>(value: &'a Value, name: &str) -> (r: Option<&'a Value>)
    ensures
        match json_content(*value) {
            JsonView::Object(entries) if entries.dom().contains(name@) => r matches Some(v)
                && json_content(*v) == entries[name@],
            _ => r is None,
        },
{
    value.get(name)
}

/// `Value::as_bool`: what a value is, where it is `true` or `false`.
#[verifier::external_body]
pub(crate) fn as_bool(value: &Value) -> (r: Option<bool>)
    ensures
        r == bool_in(json_content(*value)),
{
    value.as_bool()
}

/// `Value::as_i64`: the integer that a value is, where 64 bits with a sign can hold it.
#[verifier::external_body]
pub(crate) fn as_i64(value: &Value) -> (r: Option<i64>)
    ensures
        r == i64_in(json_content(*value)),
{
    value.as_i64()
}

/// `Value::as_u64`: the integer that a value is, where 64 bits without a sign can hold it.
#[verifier::external_body]
pub(crate) fn as_u64(value: &Value) -> (r: Option<u64>)
    ensures
        r == u64_in(json_content(*value)),
{
    value.as_u64()
}

/// `Value::as_str`: the text that a value is.
#[verifier::external_body]
pub(crate) fn as_text(value: &Value) -> (r: Option<String>)
    ensures
        match json_content(*value) {
            JsonView::Text(text) => r matches Some(s) && s@ == text,
            _ => r is None,
        },
{
    value.as_str().map(|text| text.to_string())
}

/// `Value::as_object` and the `Debug` text of what it gives: that of the entries, where a
/// value is an object.
#[verifier::external_body]
pub(crate) fn entries_text(value: &Value) -> (r: Option<String>)
    ensures
        match json_content(*value) {
            JsonView::Object(entries) => r matches Some(s) && s@ == json_entries_text(entries),
            _ => r is None,
        },
{
    value.as_object().map(|entries| format!("{entries:?}"))
}

/// `Value::from` of a string: the text as a value.
#[verifier::external_body]
pub(crate) fn text_value(text: &str) -> (r: Value)
    ensures
        json_content(r) == JsonView::Text(text@),
{
    Value::from(text)
}

/// `Value::from` of an integer: the integer as a value.
#[verifier::external_body]
pub(crate) fn i64_value(n: i64) -> (r: Value)
    ensures
        json_content(r) == JsonView::Number(int_number(n as int)),
{
    Value::from(n)
}

/// `Value::from` of an integer that is not negative: the integer as a value.
#[verifier::external_body]
pub(crate) fn u64_value(n: u64) -> (r: Value)
    ensures
        json_content(r) == JsonView::Number(int_number(n as int)),
{
    Value::from(n)
}

/// `Value::from` of `true` or `false`.
#[verifier::external_body]
pub(crate) fn bool_value(b: bool) -> (r: Value)
    ensures
        json_content(r) == JsonView::Bool(b),
{
    Value::from(b)
}

/// What each value of a list holds.
pub open spec fn contents(values: Seq<Value>) -> Seq<JsonView> {
    values.map_values(|value: Value| json_content(value))
}

/// `Value::from` of a list: the list as a value.
#[verifier::external_body]
pub(crate) fn array_value(values: Vec<Value>) -> (r: Value)
    ensures
        json_content(r) == JsonView::Array(contents(values@)),
{
    Value::from(values)
}

/// `serde_json::Map::new`, as a value: an object without entries.
#[verifier::external_body]
pub(crate) fn empty_object() -> (r: Value)
    ensures
        json_content(r) == JsonView::Object(Map::empty()),
{
    Value::Object(serde_json::Map::new())
}

/// `Value::index_mut` with a name, and an assignment to what it gives: the value comes under
/// the name in an object, in place of one that is there. The call panics on a list, a number
/// and a text, so it is made on objects alone.
#[verifier::external_body]
pub(crate) fn put(object: &mut Value, name: &str, value: Value)
    requires
        json_content(*old(object)) is Object,
    ensures
        json_content(*final(object)) == JsonView::Object(
            (json_content(*old(object))->Object_0).insert(name@, json_content(value)),
        ),
{
    object[name] = value;
}

/// `Value::to_string`: the compact text of a value.
#[verifier::external_body]
pub(crate) fn render(value: &Value) -> (r: String)
    ensures
        r@ == json_rendered(json_content(*value)),
{
    value.to_string()
}

/// The number that an integer is in JSON.
pub open spec fn int_number(n: int) -> NumberView {
    if n >= 0 {
        NumberView::Positive(n as nat)
    } else {
        NumberView::Negative(n)
    }
}

/// What a value is, where it is `true` or `false`.
pub open spec fn bool_in(content: JsonView) -> Option<bool> {
    match content {
        JsonView::Bool(b) => Some(b),
        _ => None,
    }
}

/// The integer that a value is, where 64 bits with a sign can hold it.
pub open spec fn i64_in(content: JsonView) -> Option<i64> {
    match content {
        JsonView::Number(NumberView::Positive(n)) => if n <= i64::MAX {
            Some(n as i64)
        } else {
            None
        },
        JsonView::Number(NumberView::Negative(n)) => Some(n as i64),
        _ => None,
    }
}

/// The integer that a value is, where 64 bits without a sign can hold it.
pub open spec fn u64_in(content: JsonView) -> Option<u64> {
    match content {
        JsonView::Number(NumberView::Positive(n)) => Some(n as u64),
        _ => None,
    }
}

/// The text that a value is.
pub open spec fn text_in(content: JsonView) -> Option<Seq<char>> {
    match content {
        JsonView::Text(text) => Some(text),
        _ => None,
    }
}

/// What an object holds under a name, and nothing where a value is no object.
pub open spec fn entry_in(content: JsonView, name: Seq<char>) -> Option<JsonView> {
    match content {
        JsonView::Object(entries) => if entries.dom().contains(name) {
            Some(entries[name])
        } else {
            None
        },
        _ => None,
    }
}

} // verus!
