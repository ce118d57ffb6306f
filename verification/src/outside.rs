//! The calls that leave the library: the standard library's string functions that `vstd` gives no
//! specification, and the functions of other crates. Each contract here is believed, not proved.

use crate::json::{object_of, JsonTree};
use crate::text::is_white_space;
use vstd::prelude::*;

verus! {

/// `String::push` appends one character.
pub assume_specification[ String::push ](s: &mut String, c: char)
    ensures
        final(s)@ == old(s)@.push(c),
;

/// `String::push_str` appends a string slice.
pub assume_specification[ String::push_str ](s: &mut String, t: &str)
    ensures
        final(s)@ == old(s)@ + t@,
;

/// `char::is_whitespace` tells whether a character has Unicode's `White_Space` property; the
/// characters that have it are written out in [`is_white_space`].
pub assume_specification[ char::is_whitespace ](c: char) -> (r: bool)
    ensures
        r == is_white_space(c),
;

/// A text in upper case.
pub uninterp spec fn uppercase(s: Seq<char>) -> Seq<char>;

/// `str::to_uppercase`: the text with each letter in upper case, by Unicode's rules, which are
/// named here and not spelled out.
#[verifier::external_body]
pub(crate) fn uppercase_text(s: &str) -> (r: String)
    ensures
        r@ == uppercase(s@),
{
    s.to_uppercase()
}

/// A text as it stands in source code: between quotes, with escapes.
pub uninterp spec fn quoted(s: Seq<char>) -> Seq<char>;

/// The `Debug` form of a string slice: the text between quotes, with its special characters
/// escaped. The escapes are named here and not spelled out.
#[verifier::external_body]
pub(crate) fn quoted_text(s: &str) -> (r: String)
    ensures
        r@ == quoted(s@),
{
    format!("{:?}", s)
}

// ---------------------------------------------------------------------------------------------
// chrono
// ---------------------------------------------------------------------------------------------

/// A moment, in seconds and nanoseconds since 1970.
#[derive(Clone, Copy, Debug, PartialEq, Eq, Structural)]
pub struct UtcTime {
    pub secs: i64,
    pub nanos: u32,
}

/// `chrono::Utc::now`: the present moment, by the machine's clock.
#[verifier::external_body]
pub(crate) fn utc_now() -> (r: UtcTime) {
    let now = chrono::Utc::now();
    UtcTime { secs: now.timestamp(), nanos: now.timestamp_subsec_nanos() }
}

/// `chrono::Utc::now().timestamp_millis()`: the milliseconds since 1970, by the machine's clock.
#[verifier::external_body]
pub(crate) fn utc_now_millis() -> (r: i64) {
    chrono::Utc::now().timestamp_millis()
}

// ---------------------------------------------------------------------------------------------
// uuid
// ---------------------------------------------------------------------------------------------

/// A hexadecimal digit, in lower case.
pub open spec fn hex_digit(c: char) -> bool {
    '0' <= c <= '9' || 'a' <= c <= 'f'
}

/// A random UUID without hyphens: 32 digits, of which one tells the version and one the variant.
pub open spec fn simple_uuid(s: Seq<char>) -> bool {
    &&& s.len() == 32
    &&& forall|i: int| 0 <= i < 32 ==> hex_digit(#[trigger] s[i])
    &&& s[12] == '4'
    &&& s[16] == '8' || s[16] == '9' || s[16] == 'a' || s[16] == 'b'
}

/// A random UUID with hyphens behind its 8th, 12th, 16th and 20th digit.
pub open spec fn hyphenated_uuid(s: Seq<char>) -> bool {
    &&& s.len() == 36
    &&& forall|i: int|
        0 <= i < 36 ==> if i == 8 || i == 13 || i == 18 || i == 23 {
            #[trigger] s[i] == '-'
        } else {
            hex_digit(s[i])
        }
    &&& s[14] == '4'
    &&& s[19] == '8' || s[19] == '9' || s[19] == 'a' || s[19] == 'b'
}

/// `uuid::Uuid::new_v4`, written by its `Display` in lower case and with hyphens. Which digits it
/// is made of is left to chance, but for those of version and variant.
#[verifier::external_body]
pub(crate) fn random_uuid() -> (r: String)
    ensures
        hyphenated_uuid(r@),
{
    uuid::Uuid::new_v4().to_string()
}

/// `uuid::Uuid::new_v4`, written by `Uuid::simple` in lower case and without hyphens. Which digits
/// it is made of is left to chance, but for those of version and variant.
#[verifier::external_body]
pub(crate) fn random_uuid_simple() -> (r: String)
    ensures
        simple_uuid(r@),
{
    uuid::Uuid::new_v4().simple().to_string()
}

// ---------------------------------------------------------------------------------------------
// serde_json
// ---------------------------------------------------------------------------------------------

/// `serde_json::Value`, a tree of JSON values.
#[verifier::external_type_specification]
#[verifier::external_body]
pub struct ExValue(serde_json::Value);

/// `serde_json::Number`, carried through as it was read.
#[verifier::external_type_specification]
#[verifier::external_body]
pub struct ExNumber(serde_json::Number);

/// `serde_json::Error`, which says why a text is not JSON.
#[verifier::external_type_specification]
#[verifier::external_body]
pub struct ExError(serde_json::Error);

/// What a `serde_json::Value` holds.
pub uninterp spec fn value_tree(value: serde_json::Value) -> JsonTree;

/// What each of `values` holds.
pub open spec fn value_trees(values: Seq<serde_json::Value>) -> Seq<JsonTree> {
    Seq::new(values.len(), |i: int| value_tree(values[i]))
}

/// The names and what each value holds.
pub open spec fn value_members(entries: Seq<(String, serde_json::Value)>) -> Seq<
    (Seq<char>, JsonTree),
> {
    Seq::new(entries.len(), |i: int| (entries[i].0@, value_tree(entries[i].1)))
}

/// One level of a `serde_json::Value`.
pub enum ValueNode {
    Null,
    Bool(bool),
    Number(serde_json::Number),
    Text(String),
    Array(Vec<serde_json::Value>),
    Object(Vec<(String, serde_json::Value)>),
}

impl ValueNode {
    /// What the value holds of which this is the top level.
    pub open spec fn tree(self) -> JsonTree {
        match self {
            ValueNode::Null => JsonTree::Null,
            ValueNode::Bool(b) => JsonTree::Bool(b),
            ValueNode::Number(n) => JsonTree::Number(n),
            ValueNode::Text(s) => JsonTree::Text(s@),
            ValueNode::Array(values) => JsonTree::Array(value_trees(values@)),
            ValueNode::Object(entries) => JsonTree::Object(object_of(value_members(entries@))),
        }
    }
}

/// No two of the entries have one name.
pub open spec fn names_differ(entries: Seq<(String, serde_json::Value)>) -> bool {
    forall|i: int, j: int|
        0 <= i < j < entries.len() ==> (#[trigger] entries[i]).0@ != (#[trigger] entries[j]).0@
}

/// Takes a `serde_json::Value` apart by its variant; `serde_json::Map::into_iter` gives each
/// member of an object once. What is inside stays what it was.
#[verifier::external_body]
pub(crate) fn open_value(value: serde_json::Value) -> (r: ValueNode)
    ensures
        r.tree() == value_tree(value),
        r matches ValueNode::Object(entries) ==> names_differ(entries@),
{
    match value {
        serde_json::Value::Null => ValueNode::Null,
        serde_json::Value::Bool(b) => ValueNode::Bool(b),
        serde_json::Value::Number(n) => ValueNode::Number(n),
        serde_json::Value::String(s) => ValueNode::Text(s),
        serde_json::Value::Array(values) => ValueNode::Array(values),
        serde_json::Value::Object(map) => ValueNode::Object(map.into_iter().collect()),
    }
}

/// Puts a `serde_json::Value` together; collecting into a `serde_json::Map` keeps each of the
/// members, whose names have to differ.
#[verifier::external_body]
pub(crate) fn close_value(node: ValueNode) -> (r: serde_json::Value)
    requires
        node matches ValueNode::Object(entries) ==> names_differ(entries@),
    ensures
        value_tree(r) == node.tree(),
{
    match node {
        ValueNode::Null => serde_json::Value::Null,
        ValueNode::Bool(b) => serde_json::Value::Bool(b),
        ValueNode::Number(n) => serde_json::Value::Number(n),
        ValueNode::Text(s) => serde_json::Value::String(s),
        ValueNode::Array(values) => serde_json::Value::Array(values),
        ValueNode::Object(entries) => serde_json::Value::Object(entries.into_iter().collect()),
    }
}

/// What `serde_json::from_str` reads from a text, or nothing where the text is not JSON.
pub uninterp spec fn json_parse(text: Seq<char>) -> Option<JsonTree>;

/// `serde_json::from_str::<serde_json::Value>`: reads a text as JSON. Which texts it takes, and
/// what it reads from them, is named and not spelled out.
#[verifier::external_body]
pub(crate) fn parse_value(text: &str) -> (r: Result<serde_json::Value, serde_json::Error>)
    ensures
        r is Ok <==> json_parse(text@) is Some,
        r matches Ok(value) ==> json_parse(text@) == Some(value_tree(value)),
{
    serde_json::from_str::<serde_json::Value>(text)
}

/// The compact text of a JSON value.
pub uninterp spec fn json_text(tree: JsonTree) -> Seq<char>;

/// `serde_json::to_string` of a `serde_json::Value`: its compact text. It does not fail: the
/// names in a value are strings, and writing to memory always succeeds.
#[verifier::external_body]
pub(crate) fn compact_text(value: &serde_json::Value) -> (r: Result<String, serde_json::Error>)
    ensures
        r is Ok,
        r matches Ok(text) ==> text@ == json_text(value_tree(*value)),
{
    serde_json::to_string(value)
}

/// The indented text of a JSON value.
pub uninterp spec fn json_pretty(tree: JsonTree) -> Seq<char>;

/// `serde_json::to_string_pretty` of a `serde_json::Value`: its indented text. It does not fail,
/// for the reasons that `compact_text` does not.
#[verifier::external_body]
pub(crate) fn pretty_text(value: &serde_json::Value) -> (r: Result<String, serde_json::Error>)
    ensures
        r is Ok,
        r matches Ok(text) ==> text@ == json_pretty(value_tree(*value)),
{
    serde_json::to_string_pretty(value)
}

/// The JSON number of a whole number.
pub uninterp spec fn json_number(n: u64) -> serde_json::Number;

/// `serde_json::Number::from` of a `u64`.
#[verifier::external_body]
pub(crate) fn number_from(n: u64) -> (r: serde_json::Number)
    ensures
        r == json_number(n),
{
    serde_json::Number::from(n)
}

/// `serde_json::Number::clone` gives the number again.
pub assume_specification[ <serde_json::Number as Clone>::clone ](n: &serde_json::Number) -> (r: serde_json::Number)
    ensures
        r == *n,
;

// ---------------------------------------------------------------------------------------------
// reqwest
// ---------------------------------------------------------------------------------------------

/// How an HTTP status is written: its number and its name.
pub uninterp spec fn status_text(status: u16) -> Seq<char>;

/// `reqwest::StatusCode::from_u16`, which takes the numbers from 100 to 999, and the text that
/// the status is then displayed as.
#[verifier::external_body]
pub(crate) fn status_line(status: u16) -> (r: String)
    requires
        100 <= status <= 999,
    ensures
        r@ == status_text(status),
{
    reqwest::StatusCode::from_u16(status).unwrap().to_string()
}

} // verus!
