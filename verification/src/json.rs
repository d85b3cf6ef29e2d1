//! What the library asks of `serde_json`: parsing a text, looking into the
//! parsed value, and quoting a string.
//!
//! A parsed value stays opaque. Each question about one is put to
//! `serde_json`, and its answer is named here so that contracts can speak of
//! it; what the answers are on a given text is `serde_json`'s business. Only
//! the quoting of a string is short enough to be written out.

use vstd::prelude::*;

verus! {

/// `serde_json::Value`, a parsed JSON value. Nothing inside it is visible
/// here.
#[verifier::external_type_specification]
#[verifier::external_body]
pub struct ExValue(serde_json::Value);

/// `serde_json::Error`, the parser's report of what is wrong with a text.
#[verifier::external_type_specification]
#[verifier::external_body]
pub struct ExError(serde_json::Error);

/// The value that `serde_json::from_str` reads from a text, or `None` where
/// it reports an error.
pub uninterp spec fn json_parse(text: Seq<char>) -> Option<serde_json::Value>;

/// What `Value::get` finds in a value under a string key.
pub uninterp spec fn json_member(v: serde_json::Value, key: Seq<char>) -> Option<serde_json::Value>;

/// What `Value::as_str` gives for a value.
pub uninterp spec fn json_text(v: serde_json::Value) -> Option<Seq<char>>;

/// What `Value::as_u64` gives for a value.
pub uninterp spec fn json_number(v: serde_json::Value) -> Option<u64>;

/// What `Value::as_array` gives for a value.
pub uninterp spec fn json_elements(v: serde_json::Value) -> Option<Seq<serde_json::Value>>;

/// The keys of a value that is an object, in the order in which its map
/// hands them out.
pub uninterp spec fn json_keys(v: serde_json::Value) -> Option<Seq<Seq<char>>>;

/// The lower-case hexadecimal digit of a number below sixteen.
pub open spec fn hex_digit(n: u32) -> char {
    if n < 10 {
        (0x30 + n) as u8 as char
    } else {
        (0x57 + n) as u8 as char
    }
}

/// A character as it stands inside a JSON string. The quote and the
/// backslash get a backslash before them. Backspace, tab, line feed, form
/// feed and carriage return are written `\b`, `\t`, `\n`, `\f`, `\r`. Every
/// other character below `U+0020` is written `\u00` and its two hexadecimal
/// digits. All others stand for themselves.
pub open spec fn json_escaped(c: char) -> Seq<char> {
    if c == '"' {
        seq!['\\', '"']
    } else if c == '\\' {
        seq!['\\', '\\']
    } else if c == '\u{8}' {
        seq!['\\', 'b']
    } else if c == '\t' {
        seq!['\\', 't']
    } else if c == '\n' {
        seq!['\\', 'n']
    } else if c == '\u{c}' {
        seq!['\\', 'f']
    } else if c == '\r' {
        seq!['\\', 'r']
    } else if (c as u32) < 0x20 {
        seq!['\\', 'u', '0', '0', hex_digit(c as u32 / 16), hex_digit(c as u32 % 16)]
    } else {
        seq![c]
    }
}

/// A string as JSON text: between double quotes, each character as
/// [`json_escaped`] writes it.
pub open spec fn json_quoted(s: Seq<char>) -> Seq<char> {
    seq!['"'] + s.map_values(|c: char| json_escaped(c)).flatten() + seq!['"']
}

/// The views of a sequence of strings.
pub open spec fn texts(s: Seq<String>) -> Seq<Seq<char>> {
    s.map_values(|t: String| t@)
}

/// `serde_json::from_str::<Value>`: the value that the text spells, or the
/// parser's error. The same text always gives the same outcome.
#[verifier::external_body]
pub(crate) fn parse(text: &str) -> (r: Result<serde_json::Value, serde_json::Error>)
    ensures
        match r {
            Ok(v) => json_parse(text@) == Some(v),
            Err(_) => json_parse(text@) is None,
        },
{
    serde_json::from_str::<serde_json::Value>(text)
}

/// `Value::get` with a string key: the member of that name if the value is an
/// object that has one, else `None`.
#[verifier::external_body]
pub(crate) fn member<'a>(v: &'a serde_json::Value, key: &str) -> (r: Option<&'a serde_json::Value>)
    ensures
        match r {
            Some(m) => json_member(*v, key@) == Some(*m),
            None => json_member(*v, key@) is None,
        },
{
    v.get(key)
}

/// `Value::as_str`: the text if the value is a string, else `None`.
#[verifier::external_body]
pub(crate) fn as_text<'a>(v: &'a serde_json::Value) -> (r: Option<&'a str>)
    ensures
        match r {
            Some(s) => json_text(*v) == Some(s@),
            None => json_text(*v) is None,
        },
{
    v.as_str()
}

/// `Value::as_u64`: the number if the value is an integer from zero to
/// `u64::MAX`, else `None`.
#[verifier::external_body]
pub(crate) fn as_number(v: &serde_json::Value) -> (r: Option<u64>)
    ensures
        r == json_number(*v),
{
    v.as_u64()
}

/// `Value::as_array`: the elements if the value is an array, else `None`.
#[verifier::external_body]
pub(crate) fn elements<'a>(v: &'a serde_json::Value) -> (r: Option<&'a Vec<serde_json::Value>>)
    ensures
        match r {
            Some(a) => json_elements(*v) == Some(a@),
            None => json_elements(*v) is None,
        },
{
    v.as_array()
}

/// `Value::as_object` and `Map::keys`: the keys if the value is an object,
/// else `None`.
#[verifier::external_body]
pub(crate) fn keys(v: &serde_json::Value) -> (r: Option<Vec<String>>)
    ensures
        match r {
            Some(k) => json_keys(*v) == Some(texts(k@)),
            None => json_keys(*v) is None,
        },
{
    match v.as_object() {
        Some(map) => Some(map.keys().cloned().collect()),
        None => None,
    }
}

/// `Value::String` and its `to_string`, which writes a string value in the
/// compact form: a double quote, the characters with the escapes of
/// `serde_json`'s escape table, and a double quote.
#[verifier::external_body]
pub(crate) fn quote(s: &str) -> (q: String)
    ensures
        q@ == json_quoted(s@),
{
    serde_json::Value::String(s.to_owned()).to_string()
}

} // verus!
