//! JSON documents as the layout logic reads them, and the JSON text of the
//! layout request.

use vstd::prelude::*;
use crate::text::hex_char;

verus! {

/// A JSON value. Object members stand in the order they are given (for a
/// document read by `parse_json`, the order serde_json keeps them in: sorted
/// by name under its default features); a number is held as its text (for a
/// read document, as serde_json writes the number it read).
#[derive(Debug, PartialEq, Eq)]
pub enum Json {
    Null,
    Bool(bool),
    Number(String),
    Str(String),
    Array(Vec<Json>),
    Object(Vec<(String, Json)>),
}

/// serde_json's JSON value, carried from its parser to the conversion below.
#[verifier::external_type_specification]
#[verifier::external_body]
pub struct ExJsonValue(serde_json::Value);

/// The document that `serde_json::from_str::<serde_json::Value>` reads from a
/// text, as a `Json`; `None` where it refuses the text.
pub uninterp spec fn json_of(text: Seq<char>) -> Option<Json>;

/// The message of the error with which `serde_json::from_str` refuses a text.
pub uninterp spec fn json_error_of(text: Seq<char>) -> Seq<char>;

/// A serde_json value as a `Json`, variant for variant (numbers by their text).
#[verifier::external_body]
fn json_from_value(v: &serde_json::Value) -> Json {
    match v {
        serde_json::Value::Null => Json::Null,
        serde_json::Value::Bool(b) => Json::Bool(*b),
        serde_json::Value::Number(n) => Json::Number(n.to_string()),
        serde_json::Value::String(t) => Json::Str(t.clone()),
        serde_json::Value::Array(items) => Json::Array(items.iter().map(json_from_value).collect()),
        serde_json::Value::Object(m) => Json::Object(
            m.iter().map(|(k, x)| (k.clone(), json_from_value(x))).collect(),
        ),
    }
}

/// Reads a JSON text by `serde_json::from_str::<serde_json::Value>`: the
/// document is named `json_of`, the error message `json_error_of`.
#[verifier::external_body]
pub(crate) fn parse_json(text: &str) -> (r: Result<Json, String>)
    ensures
        match json_of(text@) {
            Some(j) => r == Ok::<Json, String>(j),
            None => r matches Err(e) && e@ == json_error_of(text@),
        },
{
    match serde_json::from_str::<serde_json::Value>(text) {
        Ok(v) => Ok(json_from_value(&v)),
        Err(e) => Err(e.to_string()),
    }
}

/// The value of the first member named `key` among `members[i..]`.
pub open spec fn member_from(members: Seq<(String, Json)>, key: Seq<char>, i: int) -> Option<Json>
    decreases members.len() - i,
{
    if i < 0 || i >= members.len() {
        None
    } else if members[i].0@ == key {
        Some(members[i].1)
    } else {
        member_from(members, key, i + 1)
    }
}

/// The member `key` of an object; `None` for a missing member or a value
/// that is no object.
pub open spec fn member(v: Json, key: Seq<char>) -> Option<Json> {
    match v {
        Json::Object(members) => member_from(members@, key, 0),
        _ => None,
    }
}

/// `v[key]`: the member `key` of an object, `null` where there is none.
pub open spec fn index(v: Json, key: Seq<char>) -> Json {
    match member(v, key) {
        Some(m) => m,
        None => Json::Null,
    }
}

/// The value at the two-step path `/first/second`.
pub open spec fn pointer(v: Json, first: Seq<char>, second: Seq<char>) -> Option<Json> {
    match member(v, first) {
        Some(m) => member(m, second),
        None => None,
    }
}

/// The text of a JSON string.
pub open spec fn as_text(v: Json) -> Option<Seq<char>> {
    match v {
        Json::Str(s) => Some(s@),
        _ => None,
    }
}

/// The elements of a JSON array.
pub open spec fn as_array(v: Json) -> Option<Seq<Json>> {
    match v {
        Json::Array(items) => Some(items@),
        _ => None,
    }
}

/// Whether a string holds the characters of `key`.
fn is_key(name: &String, key: &str) -> (r: bool)
    ensures
        r == (name@ == key@),
{
    *name == String::from_str(key)
}

/// The member `key` of an object (see `member`).
pub fn get_member<'a>(v: &'a Json, key: &str) -> (r: Option<&'a Json>)
    ensures
        match member(*v, key@) {
            Some(m) => r matches Some(x) && *x == m,
            None => r is None,
        },
{
    match v {
        Json::Object(members) => {
            let mut i: usize = 0;
            while i < members.len()
                invariant
                    *v == Json::Object(*members),
                    i <= members@.len(),
                    member_from(members@, key@, 0) == member_from(members@, key@, i as int),
                decreases members@.len() - i,
            {
                if is_key(&members[i].0, key) {
                    return Some(&members[i].1);
                }
                i = i + 1;
            }
            None
        },
        _ => None,
    }
}

/// The value at the two-step path `/first/second` (see `pointer`).
pub fn get_path<'a>(v: &'a Json, first: &str, second: &str) -> (r: Option<&'a Json>)
    ensures
        match pointer(*v, first@, second@) {
            Some(m) => r matches Some(x) && *x == m,
            None => r is None,
        },
{
    match get_member(v, first) {
        Some(m) => get_member(m, second),
        None => None,
    }
}

/// The text of a JSON string (see `as_text`).
pub fn get_text(v: &Json) -> (r: Option<&String>)
    ensures
        match as_text(*v) {
            Some(t) => r matches Some(x) && x@ == t,
            None => r is None,
        },
{
    match v {
        Json::Str(s) => Some(s),
        _ => None,
    }
}

/// The elements of a JSON array (see `as_array`).
pub fn get_array(v: &Json) -> (r: Option<&Vec<Json>>)
    ensures
        match as_array(*v) {
            Some(items) => r matches Some(x) && x@ == items,
            None => r is None,
        },
{
    match v {
        Json::Array(items) => Some(items),
        _ => None,
    }
}

/// How a character is written inside a JSON string: `"` and `\` behind a
/// backslash; backspace, form feed, line feed, carriage return and tab as
/// `\b`, `\f`, `\n`, `\r`, `\t`; the other characters below U+0020 as `\u00`
/// and two lowercase hexadecimal digits; every other character as itself.
pub open spec fn escaped_char(c: char) -> Seq<char> {
    if c == '"' {
        seq!['\\', '"']
    } else if c == '\\' {
        seq!['\\', '\\']
    } else if c == '\x08' {
        seq!['\\', 'b']
    } else if c == '\x0c' {
        seq!['\\', 'f']
    } else if c == '\n' {
        seq!['\\', 'n']
    } else if c == '\r' {
        seq!['\\', 'r']
    } else if c == '\t' {
        seq!['\\', 't']
    } else if (c as u32) < 0x20 {
        seq!['\\', 'u', '0', '0', hex_char((c as u32 / 16) as nat), hex_char((c as u32 % 16) as nat)]
    } else {
        seq![c]
    }
}

/// The characters of `s`, each as it is written inside a JSON string.
pub open spec fn escaped(s: Seq<char>) -> Seq<char>
    decreases s.len(),
{
    if s.len() == 0 {
        Seq::empty()
    } else {
        escaped(s.drop_last()) + escaped_char(s.last())
    }
}

/// `s` written as a JSON string.
pub open spec fn json_string(s: Seq<char>) -> Seq<char> {
    seq!['"'] + escaped(s) + seq!['"']
}

/// Writes a string as JSON text by `serde_json::to_string`, whose result is
/// claimed to be `json_string`: serde_json writes a `&str` between double
/// quotes, escaping each byte by its `ESCAPE` table as `escaped_char` says,
/// into a `Vec<u8>`, a writer that never fails, so the call never fails.
#[verifier::external_body]
fn json_quote(s: &str) -> (r: String)
    ensures
        r@ == json_string(s@),
{
    match serde_json::to_string(s) {
        Ok(text) => text,
        Err(_) => String::new(),
    }
}

/// The GraphQL query for a layout revision.
pub open spec fn layout_query() -> Seq<char> {
    "query getLayout($hashId: String!, $geometry: String, $revisionId: String!) { layout(hashId: $hashId, geometry: $geometry, revisionId: $revisionId) { title geometry revision { hashId title layers { hashId title position keys } } } }"@
}

/// The JSON text of the request for a layout revision: the operation
/// `getLayout`, the query, and the variables `geometry` (`ergodox-ez`),
/// `hashId` and `revisionId`, with no white space and members in sorted
/// order, as serde_json writes an object when its `preserve_order` feature is
/// off (its default, and how this crate depends on it).
pub open spec fn request_body_of(hash: Seq<char>, revision: Seq<char>) -> Seq<char> {
    "{\"operationName\":\"getLayout\",\"query\":"@ + json_string(layout_query())
        + ",\"variables\":{\"geometry\":\"ergodox-ez\",\"hashId\":"@ + json_string(hash)
        + ",\"revisionId\":"@ + json_string(revision) + "}}"@
}

/// The JSON text of the request for revision `revision` of layout `hash`.
pub fn request_body(hash: &str, revision: &str) -> (r: String)
    ensures
        r@ == request_body_of(hash@, revision@),
{
    let mut body = String::from_str("{\"operationName\":\"getLayout\",\"query\":");
    let query = json_quote(
        "query getLayout($hashId: String!, $geometry: String, $revisionId: String!) { layout(hashId: $hashId, geometry: $geometry, revisionId: $revisionId) { title geometry revision { hashId title layers { hashId title position keys } } } }",
    );
    body.append(query.as_str());
    body.append(",\"variables\":{\"geometry\":\"ergodox-ez\",\"hashId\":");
    let h = json_quote(hash);
    body.append(h.as_str());
    body.append(",\"revisionId\":");
    let r = json_quote(revision);
    body.append(r.as_str());
    body.append("}}");
    body
}

} // verus!
