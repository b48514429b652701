//! JSON through `serde_json`: the types that tool schemas carry, the text form of a string,
//! and reading the top-level fields of a JSON object.
use vstd::prelude::*;
use crate::text::{has_prefix, has_suffix};

verus! {

#[verifier::external_type_specification]
#[verifier::external_body]
pub struct ExJsonValue(serde_json::Value);

#[verifier::external_type_specification]
#[verifier::external_body]
#[verifier::reject_recursive_types(K)]
#[verifier::reject_recursive_types(V)]
pub struct ExJsonMap<K, V>(serde_json::Map<K, V>);

/// A lower-case hexadecimal digit.
pub open spec fn hex_digit(n: int) -> char {
    if n < 10 {
        ((n + 0x30) as u32) as char
    } else {
        ((n - 10 + 0x61) as u32) as char
    }
}

/// How `serde_json` writes one character inside a string: a quote and a backslash are
/// escaped with a backslash; backspace, tab, line feed, form feed and carriage return
/// become `\b`, `\t`, `\n`, `\f`, `\r`; the other characters below U+0020 become
/// `\u00` and two lower-case hexadecimal digits; every other character is kept.
pub open spec fn json_escape(c: char) -> Seq<char> {
    let v = c as u32;
    if c == '"' {
        seq!['\\', '"']
    } else if c == '\\' {
        seq!['\\', '\\']
    } else if v == 0x08 {
        seq!['\\', 'b']
    } else if v == 0x09 {
        seq!['\\', 't']
    } else if v == 0x0A {
        seq!['\\', 'n']
    } else if v == 0x0C {
        seq!['\\', 'f']
    } else if v == 0x0D {
        seq!['\\', 'r']
    } else if v < 0x20 {
        seq!['\\', 'u', '0', '0', hex_digit(v as int / 16), hex_digit(v as int % 16)]
    } else {
        seq![c]
    }
}

/// The characters of a string as `serde_json` writes them inside quotes.
pub open spec fn json_escaped(s: Seq<char>) -> Seq<char>
    decreases s.len(),
{
    if s.len() == 0 {
        Seq::empty()
    } else {
        json_escaped(s.drop_last()) + json_escape(s.last())
    }
}

/// The JSON text of a string, as `serde_json` writes it: the escaped characters between
/// double quotes.
#[verifier::opaque]
pub open spec fn json_quoted(s: Seq<char>) -> Seq<char> {
    seq!['"'] + json_escaped(s) + seq!['"']
}

/// Whether every character of `s` is written unchanged inside a JSON string.
pub open spec fn json_plain(s: Seq<char>) -> bool {
    forall|i: int| 0 <= i < s.len() ==> #[trigger] s[i] != '"' && s[i] != '\\' && (s[i] as u32) >= 0x20
}

/// `serde_json::to_string` of a string. Trusted: the result is `json_quoted` of the input
/// (the crate's `format_escaped_str` with its escape table and lower-case hexadecimal
/// digits); so it begins and ends with a double quote, and a string without quotes,
/// backslashes and control characters is written between two quotes unchanged.
#[verifier::external_body]
pub fn json_quote(s: &str) -> (r: String)
    ensures
        r@ == json_quoted(s@),
        has_prefix(r@, seq!['"']),
        has_suffix(r@, seq!['"']),
        r@.len() >= 2,
        json_plain(s@) ==> r@ == seq!['"'] + s@ + seq!['"'],
{
    match serde_json::to_string(s) {
        Ok(t) => t,
        Err(_) => String::new(),
    }
}

/// The string that a JSON text holds at a JSON pointer (`None` when the text is not JSON,
/// or nothing, or something other than a string, is there).
pub uninterp spec fn json_str_at(text: Seq<u8>, pointer: Seq<char>) -> Option<Seq<char>>;

/// `serde_json::from_slice::<Value>`, then `pointer` and `as_str`. Trusted: the result is
/// `json_str_at` of the text and the pointer.
#[verifier::external_body]
pub fn json_string_at(text: &[u8], pointer: &str) -> (r: Option<String>)
    ensures
        match r {
            Some(s) => json_str_at(text@, pointer@) == Some(s@),
            None => json_str_at(text@, pointer@) is None,
        },
{
    let value = serde_json::from_slice::<serde_json::Value>(text).ok();
    value.and_then(|v| v.pointer(pointer).and_then(|x| x.as_str()).map(|s| s.to_string()))
}

/// The JSON text (compact, as `serde_json` writes it) of the value that a JSON text holds
/// at a JSON pointer (`None` when the text is not JSON or nothing is there).
pub uninterp spec fn json_text_at(text: Seq<u8>, pointer: Seq<char>) -> Option<Seq<char>>;

/// `serde_json::from_slice::<Value>`, then `pointer` and `to_string`. Trusted: the result is
/// `json_text_at` of the text and the pointer.
#[verifier::external_body]
pub fn json_value_text_at(text: &[u8], pointer: &str) -> (r: Option<String>)
    ensures
        match r {
            Some(s) => json_text_at(text@, pointer@) == Some(s@),
            None => json_text_at(text@, pointer@) is None,
        },
{
    let value = serde_json::from_slice::<serde_json::Value>(text).ok();
    value.and_then(|v| v.pointer(pointer).map(|x| x.to_string()))
}

/// The message of the error that `serde_json` reports for a text that is not JSON
/// (`None` when it is).
pub uninterp spec fn json_parse_error(text: Seq<u8>) -> Option<Seq<char>>;

/// `serde_json::from_slice::<Value>`, keeping the error's message. Trusted: the result is
/// `json_parse_error` of the text; when there is an error, no value is found at any pointer
/// (the same parse fails).
#[verifier::external_body]
pub fn json_error_of(text: &[u8]) -> (r: Option<String>)
    ensures
        match r {
            Some(e) => json_parse_error(text@) == Some(e@),
            None => json_parse_error(text@) is None,
        },
        r is Some ==> forall|p: Seq<char>| #[trigger] json_text_at(text@, p) is None && json_str_at(text@, p) is None,
{
    serde_json::from_slice::<serde_json::Value>(text).err().map(|e| e.to_string())
}

/// A value found at the top level of a JSON object.
#[derive(Debug, Clone)]
pub enum JsonScalar {
    Null,
    Bool(bool),
    /// A number, with what `as_i64` and `as_u64` make of it.
    Number { as_i64: Option<i64>, as_u64: Option<u64> },
    Str(String),
    Array,
    Object,
}

/// A parsed JSON text: an object with its fields, or any other JSON value.
#[derive(Debug, Clone)]
pub enum JsonDocument {
    Object(Vec<(String, JsonScalar)>),
    Other,
}

/// What `serde_json` makes of a text: `None` when it is not JSON.
pub uninterp spec fn json_document(text: Seq<char>) -> Option<JsonDocument>;

/// `serde_json::from_str::<serde_json::Value>`, with the top-level fields of an object
/// listed. Trusted: the result is `json_document` of the text; an object's fields come
/// once each (the crate's map keeps one value per key).
#[verifier::external_body]
pub fn parse_json_document(text: &str) -> (r: Option<JsonDocument>)
    ensures
        r == json_document(text@),
{
    match serde_json::from_str::<serde_json::Value>(text) {
        Err(_) => None,
        Ok(serde_json::Value::Object(map)) => Some(JsonDocument::Object(map.into_iter().map(|(k, v)| (k, match v {
            serde_json::Value::Null => JsonScalar::Null,
            serde_json::Value::Bool(b) => JsonScalar::Bool(b),
            serde_json::Value::Number(n) => JsonScalar::Number { as_i64: n.as_i64(), as_u64: n.as_u64() },
            serde_json::Value::String(s) => JsonScalar::Str(s),
            serde_json::Value::Array(_) => JsonScalar::Array,
            serde_json::Value::Object(_) => JsonScalar::Object,
        })).collect())),
        Ok(_) => Some(JsonDocument::Other),
    }
}

/// The value of the first field named `key` in a list of fields.
pub open spec fn spec_field(fields: Seq<(String, JsonScalar)>, key: Seq<char>) -> Option<JsonScalar>
    decreases fields.len(),
{
    if fields.len() == 0 {
        None
    } else if fields[0].0@ == key {
        Some(fields[0].1)
    } else {
        spec_field(fields.drop_first(), key)
    }
}

impl JsonDocument {
    /// The value under `key` when the document is an object that has it.
    pub open spec fn spec_get(self, key: Seq<char>) -> Option<JsonScalar> {
        match self {
            JsonDocument::Object(fields) => spec_field(fields@, key),
            JsonDocument::Other => None,
        }
    }

    /// `value[key].as_str()`.
    pub open spec fn spec_str(self, key: Seq<char>) -> Option<Seq<char>> {
        match self.spec_get(key) {
            Some(JsonScalar::Str(s)) => Some(s@),
            _ => None,
        }
    }

    /// `value[key].as_i64()`.
    pub open spec fn spec_i64(self, key: Seq<char>) -> Option<i64> {
        match self.spec_get(key) {
            Some(JsonScalar::Number { as_i64, as_u64 }) => as_i64,
            _ => None,
        }
    }

    /// `value[key].as_u64()`.
    pub open spec fn spec_u64(self, key: Seq<char>) -> Option<u64> {
        match self.spec_get(key) {
            Some(JsonScalar::Number { as_i64, as_u64 }) => as_u64,
            _ => None,
        }
    }

    /// The value under `key`.
    pub fn get(&self, key: &str) -> (r: Option<&JsonScalar>)
        ensures
            match r {
                Some(v) => self.spec_get(key@) == Some(*v),
                None => self.spec_get(key@) is None,
            },
    {
        match self {
            JsonDocument::Object(fields) => {
                let k = String::from_str(key);
                let mut i: usize = 0;
                assert(fields@.skip(0) =~= fields@);
                while i < fields.len()
                    invariant
                        i <= fields@.len(),
                        k@ == key@,
                        self.spec_get(key@) == spec_field(fields@, key@),
                        spec_field(fields@, key@) == spec_field(fields@.skip(i as int), key@),
                    decreases fields@.len() - i,
                {
                    assert(fields@.skip(i as int).drop_first() =~= fields@.skip(i + 1));
                    assert(fields@.skip(i as int)[0] == fields@[i as int]);
                    if fields[i].0 == k {
                        assert(fields@.skip(i as int).len() > 0);
                        assert(spec_field(fields@.skip(i as int), key@) == Some(fields@[i as int].1));
                        return Some(&fields[i].1);
                    }
                    i = i + 1;
                }
                None
            },
            JsonDocument::Other => None,
        }
    }

    /// The string under `key`.
    pub fn get_str(&self, key: &str) -> (r: Option<String>)
        ensures
            match r {
                Some(s) => self.spec_str(key@) == Some(s@),
                None => self.spec_str(key@) is None,
            },
    {
        match self.get(key) {
            Some(JsonScalar::Str(s)) => Some(s.clone()),
            _ => None,
        }
    }

    /// The signed integer under `key`.
    pub fn get_i64(&self, key: &str) -> (r: Option<i64>)
        ensures
            r == self.spec_i64(key@),
    {
        match self.get(key) {
            Some(JsonScalar::Number { as_i64, as_u64 }) => *as_i64,
            _ => None,
        }
    }

    /// The unsigned integer under `key`.
    pub fn get_u64(&self, key: &str) -> (r: Option<u64>)
        ensures
            r == self.spec_u64(key@),
    {
        match self.get(key) {
            Some(JsonScalar::Number { as_i64, as_u64 }) => *as_u64,
            _ => None,
        }
    }
}

} // verus!
