use vstd::prelude::*;

use crate::text::same_text;

verus! {

/// A JSON number as serde_json answers for it: its value as an unsigned and
/// as a signed 64-bit integer where it is one that fits, and the bit pattern
/// of its double-precision value.
#[derive(Clone, Copy, Debug, PartialEq, Eq)]
pub struct JsonNumber {
    pub as_u64: Option<u64>,
    pub as_i64: Option<i64>,
    pub double_bits: u64,
}

/// A parsed JSON document. An object keeps its members as (key, value)
/// pairs, one pair per key.
#[derive(Debug)]
pub enum JsonValue {
    Null,
    Bool(bool),
    Number(JsonNumber),
    Str(String),
    Array(Vec<JsonValue>),
    Object(Vec<(String, JsonValue)>),
}

/// The document that `serde_json` reads from a text, if the text is JSON.
pub uninterp spec fn json_of_text(text: Seq<char>) -> Option<JsonValue>;

#[verifier::external_type_specification]
#[verifier::external_body]
pub struct ExSerdeJsonValue(serde_json::Value);

/// Turns a `serde_json::Value` into the same document as a [`JsonValue`],
/// variant for variant; a number keeps what `as_u64`, `as_i64` and `as_f64`
/// (by its bits) give for it. Nothing is claimed of it: its one caller is [`parse_json`],
/// whose contract names the whole result.
#[verifier::external_body]
fn json_from_serde(v: serde_json::Value) -> JsonValue {
    match v {
        serde_json::Value::Null => JsonValue::Null,
        serde_json::Value::Bool(b) => JsonValue::Bool(b),
        serde_json::Value::Number(n) => JsonValue::Number(JsonNumber {
            as_u64: n.as_u64(),
            as_i64: n.as_i64(),
            double_bits: n.as_f64().map(|x| x.to_bits()).unwrap_or(0),
        }),
        serde_json::Value::String(s) => JsonValue::Str(s),
        serde_json::Value::Array(a) => JsonValue::Array(a.into_iter().map(json_from_serde).collect()),
        serde_json::Value::Object(m) => JsonValue::Object(
            m.into_iter().map(|(k, v)| (k, json_from_serde(v))).collect(),
        ),
    }
}

/// Parses a text with `serde_json::from_str::<serde_json::Value>`. The
/// contract claims that it succeeds exactly when the text is JSON, and then
/// gives the document [`json_of_text`] names; on failure the message is
/// serde_json's, of which nothing is claimed.
#[verifier::external_body]
pub(crate) fn parse_json(text: &str) -> (r: Result<JsonValue, String>)
    ensures
        (r is Ok) <==> json_of_text(text@) is Some,
        r matches Ok(v) ==> json_of_text(text@) == Some(v),
{
    match serde_json::from_str::<serde_json::Value>(text) {
        Ok(v) => Ok(json_from_serde(v)),
        Err(e) => Err(e.to_string()),
    }
}

/// A lower-case hexadecimal digit.
pub open spec fn hex_digit(n: int) -> char {
    seq!['0', '1', '2', '3', '4', '5', '6', '7', '8', '9', 'a', 'b', 'c', 'd', 'e', 'f'][n]
}

/// How a JSON string literal writes one character: a quote and a backslash
/// behind a backslash; backspace, tab, line feed, form feed and carriage
/// return as `\b \t \n \f \r`; the other characters below U+0020 as
/// `\u00XX`; every other character as itself.
pub open spec fn escaped_char(c: char) -> Seq<char> {
    if c == '"' {
        seq!['\\', '"']
    } else if c == '\\' {
        seq!['\\', '\\']
    } else if c == '\u{8}' {
        seq!['\\', 'b']
    } else if c == '\t' {
        seq!['\\', 't']
    } else if c == '\n' {
        seq!['\\', 'n']
    } else if c == '\u{c}' {
        seq!['\\', 'f']
    } else if c == '\r' {
        seq!['\\', 'r']
    } else if (c as int) < 0x20 {
        seq!['\\', 'u', '0', '0', hex_digit((c as int) / 16), hex_digit((c as int) % 16)]
    } else {
        seq![c]
    }
}

/// The characters of a text, each escaped as [`escaped_char`] says.
pub open spec fn escaped_text(s: Seq<char>) -> Seq<char>
    decreases s.len(),
{
    if s.len() == 0 {
        Seq::empty()
    } else {
        escaped_text(s.drop_last()) + escaped_char(s.last())
    }
}

/// A text as a JSON string literal: escaped, between double quotes.
pub open spec fn json_quoted(s: Seq<char>) -> Seq<char> {
    seq!['"'] + escaped_text(s) + seq!['"']
}

/// No quote, no backslash and no control character below U+0020.
pub open spec fn is_plain_text(s: Seq<char>) -> bool {
    forall|i: int| 0 <= i < s.len() ==> #[trigger] s[i] != '"' && s[i] != '\\' && (s[i] as int) >= 0x20
}

proof fn lemma_plain_escaped(s: Seq<char>)
    requires
        is_plain_text(s),
    ensures
        escaped_text(s) == s,
    decreases s.len(),
{
    if s.len() > 0 {
        let t = s.drop_last();
        assert forall|i: int| 0 <= i < t.len() implies #[trigger] t[i] != '"' && t[i] != '\\' && (t[i] as int)
            >= 0x20 by {
            assert(t[i] == s[i]);
        }
        lemma_plain_escaped(t);
        assert(s[s.len() - 1] == s.last());
        assert(escaped_char(s.last()) == seq![s.last()]);
        assert(escaped_text(s) =~= s);
    } else {
        assert(escaped_text(s) =~= s);
    }
}

/// A plain text is quoted as itself between two double quotes, while a quote
/// and a backslash are each written behind a backslash and a control
/// character never stands as itself.
pub proof fn law_json_quoting(s: Seq<char>, c: char)
    ensures
        is_plain_text(s) ==> json_quoted(s) == seq!['"'] + s + seq!['"'],
        escaped_char('"') == seq!['\\', '"'],
        escaped_char('\\') == seq!['\\', '\\'],
        (c as int) < 0x20 ==> escaped_char(c).len() >= 2 && escaped_char(c)[0] == '\\',
{
    if is_plain_text(s) {
        lemma_plain_escaped(s);
    }
}

/// The compact JSON text of an object with one string member.
pub open spec fn one_member_object_text(key: Seq<char>, value: Seq<char>) -> Seq<char> {
    seq!['{'] + json_quoted(key) + seq![':'] + json_quoted(value) + seq!['}']
}

/// Writes an object with the one member `key`, a string, as compact JSON
/// text: a `serde_json::Value::Object` holding it, turned into text with
/// `to_string`. The contract claims what serde_json's compact formatter
/// writes: the braces, each string quoted and escaped by `format_escaped_str`
/// (its `ESCAPE` table and lower-case `\u00XX`), and a colon between them.
/// Writing a value into a `String` does not fail.
#[verifier::external_body]
pub(crate) fn one_member_object(key: &str, value: &str) -> (r: String)
    ensures
        r@ == one_member_object_text(key@, value@),
{
    let mut m = serde_json::Map::new();
    m.insert(key.to_string(), serde_json::Value::String(value.to_string()));
    serde_json::Value::Object(m).to_string()
}

/// The value of the first member named `key` of an object, from position `i` on.
pub open spec fn lookup(fields: Seq<(String, JsonValue)>, key: Seq<char>, i: int) -> Option<JsonValue>
    decreases fields.len() - i,
{
    if i < 0 || i >= fields.len() {
        None
    } else if fields[i].0@ == key {
        Some(fields[i].1)
    } else {
        lookup(fields, key, i + 1)
    }
}

/// The member `key` of `v`, where `v` is an object that has one.
pub open spec fn json_member(v: JsonValue, key: Seq<char>) -> Option<JsonValue> {
    match v {
        JsonValue::Object(fields) => lookup(fields@, key, 0),
        _ => None,
    }
}

/// `v[key]` as serde_json indexes a value: the member of an object, else `Null`.
pub open spec fn json_get(v: JsonValue, key: Seq<char>) -> JsonValue {
    match json_member(v, key) {
        Some(x) => x,
        None => JsonValue::Null,
    }
}

/// `as_u64` of a value: the number, where it is a non-negative integer that fits.
pub open spec fn json_as_u64(v: JsonValue) -> Option<u64> {
    match v {
        JsonValue::Number(n) => n.as_u64,
        _ => None,
    }
}

/// The member `key` of `v`, borrowed, where `v` is an object that has one.
pub fn json_field<'a>(v: &'a JsonValue, key: &str) -> (r: Option<&'a JsonValue>)
    ensures
        match r {
            Some(x) => json_member(*v, key@) == Some(*x),
            None => json_member(*v, key@) is None,
        },
{
    match v {
        JsonValue::Object(fields) => {
            let n = fields.len();
            let mut i: usize = 0;
            while i < n
                invariant
                    n == fields@.len(),
                    i <= n,
                    json_member(*v, key@) == lookup(fields@, key@, 0),
                    lookup(fields@, key@, 0) == lookup(fields@, key@, i as int),
                decreases n - i,
            {
                if same_text(fields[i].0.as_str(), key) {
                    assert(lookup(fields@, key@, i as int) == Some(fields@[i as int].1));
                    return Some(&fields[i].1);
                }
                i = i + 1;
            }
            None
        },
        _ => None,
    }
}

/// `as_u64` of a value.
pub fn as_u64(v: &JsonValue) -> (r: Option<u64>)
    ensures
        r == json_as_u64(*v),
{
    match v {
        JsonValue::Number(n) => n.as_u64,
        _ => None,
    }
}

} // verus!
