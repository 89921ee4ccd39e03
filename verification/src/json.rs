//! JSON values of the service protocol.
//!
//! The values themselves are those of `serde_json`. This module gives them a
//! mathematical model and binds the few operations that the host needs.

use vstd::prelude::*;

verus! {

/// A JSON number as `serde_json` keeps it.
pub enum JsonNumber {
    /// An integer that is not negative.
    Natural(u64),
    /// A negative integer.
    Negative(i64),
    /// Any other number, by the bits of its double precision value.
    Fraction(u64),
}

/// What a JSON value holds.
pub enum JsonView {
    Null,
    Bool(bool),
    Number(JsonNumber),
    Text(Seq<char>),
    Items(Seq<JsonView>),
    Members(Map<Seq<char>, JsonView>),
}

impl JsonView {
    /// The member of that name, when the value is an object that has it.
    pub open spec fn member(self, key: Seq<char>) -> Option<JsonView> {
        match self {
            JsonView::Members(members) => if members.contains_key(key) {
                Some(members[key])
            } else {
                None
            },
            _ => None,
        }
    }

    /// The characters, when the value is a string.
    pub open spec fn text(self) -> Option<Seq<char>> {
        match self {
            JsonView::Text(text) => Some(text),
            _ => None,
        }
    }

    /// The number, when the value is an integer that is not negative.
    pub open spec fn natural(self) -> Option<u64> {
        match self {
            JsonView::Number(JsonNumber::Natural(n)) => Some(n),
            _ => None,
        }
    }

    /// The elements, when the value is an array.
    pub open spec fn items(self) -> Option<Seq<JsonView>> {
        match self {
            JsonView::Items(items) => Some(items),
            _ => None,
        }
    }

    /// The natural number that the member of that name holds.
    pub open spec fn natural_member(self, key: Seq<char>) -> Option<u64> {
        match self.member(key) {
            Some(value) => value.natural(),
            None => None,
        }
    }

    /// The characters that the member of that name holds.
    pub open spec fn text_member(self, key: Seq<char>) -> Option<Seq<char>> {
        match self.member(key) {
            Some(value) => value.text(),
            None => None,
        }
    }
}

/// The number of an integer that is not negative.
pub open spec fn json_number(n: u64) -> JsonView {
    JsonView::Number(JsonNumber::Natural(n))
}

/// An optional JSON value by its model.
pub open spec fn json_view_opt(value: Option<&serde_json::Value>) -> Option<JsonView> {
    match value {
        Some(v) => Some(json_view(*v)),
        None => None,
    }
}

/// `serde_json::Value`, the tree of a JSON document.
#[verifier::external_type_specification]
#[verifier::external_body]
pub struct ExValue(serde_json::Value);

/// What a `serde_json::Value` holds.
pub uninterp spec fn json_view(value: serde_json::Value) -> JsonView;

/// Calls `serde_json::Value::get` with a key. It finds the member of an object
/// and nothing in any other kind of value.
#[verifier::external_body]
pub(crate) fn json_get<'a>(value: &'a serde_json::Value, key: &str) -> (r: Option<
    &'a serde_json::Value,
>)
    ensures
        json_view_opt(r) == json_view(*value).member(key@),
{
    value.get(key)
}

/// Calls `serde_json::Value::as_str`, which hands out the characters of a
/// string and nothing of any other kind of value.
#[verifier::external_body]
pub(crate) fn json_as_str<'a>(value: &'a serde_json::Value) -> (r: Option<&'a str>)
    ensures
        r is Some <==> json_view(*value).text() is Some,
        r matches Some(text) ==> text@ == json_view(*value).text()->0,
{
    value.as_str()
}

/// Calls `serde_json::Value::as_u64`, which hands out an integer that is not
/// negative and nothing of any other kind of value.
#[verifier::external_body]
pub(crate) fn json_as_u64(value: &serde_json::Value) -> (r: Option<u64>)
    ensures
        r == json_view(*value).natural(),
{
    value.as_u64()
}

/// Calls `serde_json::Value::as_array`, which hands out the elements of an
/// array and nothing of any other kind of value.
#[verifier::external_body]
pub(crate) fn json_as_array<'a>(value: &'a serde_json::Value) -> (r: Option<
    &'a Vec<serde_json::Value>,
>)
    ensures
        r is Some <==> json_view(*value).items() is Some,
        r matches Some(items) ==> items@.map_values(|v: serde_json::Value| json_view(v))
            == json_view(*value).items()->0,
{
    value.as_array()
}

/// Calls `serde_json::Value::is_object`.
#[verifier::external_body]
pub(crate) fn json_is_object(value: &serde_json::Value) -> (r: bool)
    ensures
        r == (json_view(*value) is Members),
{
    value.is_object()
}

/// The `Clone` implementation of `serde_json::Value` makes a deep copy, which
/// is the same value.
pub assume_specification[ <serde_json::Value as Clone>::clone ](
    value: &serde_json::Value,
) -> (r: serde_json::Value)
    ensures
        r == *value,
;

/// Calls `serde_json::Value::from` on a string.
#[verifier::external_body]
pub(crate) fn json_text(text: String) -> (r: serde_json::Value)
    ensures
        json_view(r) == JsonView::Text(text@),
{
    serde_json::Value::from(text)
}

/// Calls `serde_json::Value::from` on an unsigned integer.
#[verifier::external_body]
pub(crate) fn json_natural(n: u64) -> (r: serde_json::Value)
    ensures
        json_view(r) == JsonView::Number(JsonNumber::Natural(n)),
{
    serde_json::Value::from(n)
}

/// Calls `serde_json::Value::from` on a vector of values, which makes an array
/// of them in their order.
#[verifier::external_body]
pub(crate) fn json_items(items: Vec<serde_json::Value>) -> (r: serde_json::Value)
    ensures
        json_view(r) == JsonView::Items(items@.map_values(|v: serde_json::Value| json_view(v))),
{
    serde_json::Value::from(items)
}

/// Calls `serde_json::Value::default`, the null value.
#[verifier::external_body]
pub(crate) fn json_null() -> (r: serde_json::Value)
    ensures
        json_view(r) == JsonView::Null,
{
    serde_json::Value::default()
}

/// Calls `serde_json::Map::new` and makes the empty object of it.
#[verifier::external_body]
pub(crate) fn json_object() -> (r: serde_json::Value)
    ensures
        json_view(r) == JsonView::Members(Map::empty()),
{
    serde_json::Value::Object(serde_json::Map::new())
}

/// Assigns through the `IndexMut` implementation of `serde_json::Value`. On an
/// object it sets the member of that name, whether or not it was there. It
/// panics on most other values, so only objects are admitted.
#[verifier::external_body]
pub(crate) fn json_set(object: &mut serde_json::Value, key: &str, value: serde_json::Value)
    requires
        json_view(*old(object)) is Members,
    ensures
        json_view(*final(object)) == JsonView::Members(
            json_view(*old(object))->Members_0.insert(key@, json_view(value)),
        ),
{
    object[key] = value;
}

/// The natural number that the member of that name holds.
pub fn natural_member(value: &serde_json::Value, key: &str) -> (r: Option<u64>)
    ensures
        r == json_view(*value).natural_member(key@),
{
    match json_get(value, key) {
        Some(member) => json_as_u64(member),
        None => None,
    }
}

/// The characters that the member of that name holds.
pub fn text_member(value: &serde_json::Value, key: &str) -> (r: Option<String>)
    ensures
        r is Some <==> json_view(*value).text_member(key@) is Some,
        r matches Some(text) ==> text@ == json_view(*value).text_member(key@)->0,
{
    match json_get(value, key) {
        Some(member) => match json_as_str(member) {
            Some(text) => Some(text.to_owned()),
            None => None,
        },
        None => None,
    }
}

/// A member is read back from the object that holds it, a value by its own kind, and
/// by no other.
pub proof fn law_members_read_back(
    members: Map<Seq<char>, JsonView>,
    key: Seq<char>,
    n: u64,
    text: Seq<char>,
    items: Seq<JsonView>,
)
    ensures
        JsonView::Members(members.insert(key, json_number(n))).natural_member(key) == Some(n),
        JsonView::Members(members.insert(key, JsonView::Text(text))).text_member(key) == Some(text),
        JsonView::Members(members.insert(key, JsonView::Items(items))).member(key)->0.items()
            == Some(items),
        JsonView::Members(members.insert(key, JsonView::Text(text))).natural_member(key) is None,
        JsonView::Members(members.insert(key, json_number(n))).text_member(key) is None,
        JsonView::Members(members.remove(key)).member(key) is None,
        JsonView::Text(text).member(key) is None,
        JsonView::Items(items).member(key) is None,
{
}

} // verus!
