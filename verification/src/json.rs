//! JSON text components, read and written through `serde_json`.

use vstd::prelude::*;

verus! {

/// The string held at member `field` of the JSON object that `json`
/// parses to; `None` where `json` does not parse, is not an object, lacks
/// the member, or holds something else there.
pub uninterp spec fn json_string_member(json: Seq<char>, field: Seq<char>) -> Option<Seq<char>>;

/// Parse `json` with `serde_json::from_str` into a `serde_json::Value` and
/// read member `field` with `Value::get`, keeping it where it is a
/// `Value::String`. Assumed: the result is the name
/// [`json_string_member`] applied to the two arguments; the parse itself
/// is not stated, beyond the one fact that reading a member back from the
/// compact object text that serde_json writes for it (see
/// [`json_object_text`]) gives the string that was written.
#[verifier::external_body]
pub(crate) fn string_member_of_json(json: &str, field: &str) -> (r: Option<String>)
    ensures
        match r {
            Some(s) => json_string_member(json@, field@) == Some(s@) && forall|v: Seq<char>|
                json@ == #[trigger] json_object_text(field@, v) ==> s@ == v,
            None => json_string_member(json@, field@) is None && forall|v: Seq<char>|
                json@ != #[trigger] json_object_text(field@, v),
        },
{
    let value: serde_json::Value = match serde_json::from_str(json) {
        Ok(v) => v,
        Err(_) => return None,
    };
    match value.get(field) {
        Some(serde_json::Value::String(s)) => Some(s.clone()),
        _ => None,
    }
}

/// A lowercase hexadecimal digit.
pub open spec fn hex_digit(d: int) -> char {
    if d < 10 {
        (48 + d) as char
    } else {
        (87 + d) as char
    }
}

/// How JSON writes the character `c` inside a string: the quote, the
/// backslash and the control characters escaped, the rest as they are.
pub open spec fn json_char(c: char) -> Seq<char> {
    if c == '"' {
        seq!['\\', '"']
    } else if c == '\\' {
        seq!['\\', '\\']
    } else if c == '\u{8}' {
        seq!['\\', 'b']
    } else if c == '\u{c}' {
        seq!['\\', 'f']
    } else if c == '\n' {
        seq!['\\', 'n']
    } else if c == '\r' {
        seq!['\\', 'r']
    } else if c == '\t' {
        seq!['\\', 't']
    } else if (c as int) < 32 {
        seq!['\\', 'u', '0', '0', hex_digit((c as int) / 16), hex_digit((c as int) % 16)]
    } else {
        seq![c]
    }
}

/// The characters of `s` as JSON writes them inside a string.
pub open spec fn json_escaped(s: Seq<char>) -> Seq<char>
    decreases s.len(),
{
    if s.len() == 0 {
        Seq::empty()
    } else {
        json_escaped(s.drop_last()) + json_char(s.last())
    }
}

/// The compact JSON text of the object with the one string member
/// `member: value`.
pub open spec fn json_object_text(member: Seq<char>, value: Seq<char>) -> Seq<char> {
    seq!['{', '"'] + json_escaped(member) + seq!['"', ':', '"'] + json_escaped(value) + seq!['"', '}']
}

/// Build the `serde_json::Value::Object` holding the one member
/// `member: value` (a `Value::String`) and write it with `Value`'s compact
/// `Display`. Assumed: the result is [`json_object_text`] of the two
/// arguments, the compact form serde_json's writer gives (its escapes for
/// the quote, the backslash and the control characters).
#[verifier::external_body]
pub(crate) fn object_json(member: &str, value: &str) -> (r: String)
    ensures
        r@ == json_object_text(member@, value@),
{
    let mut members = serde_json::Map::new();
    members.insert(member.to_owned(), serde_json::Value::String(value.to_owned()));
    format!("{}", serde_json::Value::Object(members))
}

/// The compact JSON text of the object `{"translate": key}`.
pub open spec fn json_translatable_text(key: Seq<char>) -> Seq<char> {
    json_object_text("translate"@, key)
}

/// The `translate` key of a JSON text component.
pub open spec fn translation_of(json: Seq<char>) -> Option<Seq<char>> {
    json_string_member(json, "translate"@)
}

/// The `translate` key of a
/// JSON text component, where it is one with a string key. Reading the
/// component that [`create_translatable_component`] writes for a key gives
/// that key back.
pub fn retrieve_translation_string(possible_json: &str) -> (r: Option<String>)
    ensures
        match r {
            Some(s) => translation_of(possible_json@) == Some(s@),
            None => translation_of(possible_json@) is None,
        },
        forall|k: Seq<char>|
            possible_json@ == #[trigger] json_translatable_text(k) ==> (r matches Some(s) && s@ == k),
{
    string_member_of_json(possible_json, "translate")
}

/// The JSON text component
/// translating `key`.
pub fn create_translatable_component(key: &str) -> (r: String)
    ensures
        r@ == json_translatable_text(key@),
{
    object_json("translate", key)
}

} // verus!
