//! JSON text of the values this crate writes into generated code and worker messages.
use vstd::prelude::*;
use vstd::string::StringExecFns;

verus! {

/// The lower-case hexadecimal digit for `d`, below sixteen.
pub open spec fn lower_hex_digit(d: int) -> char {
    if d < 10 {
        (48 + d) as char
    } else {
        (87 + d) as char
    }
}

/// How one character is written inside a JSON string: `"` and `\` and the control
/// characters escaped (the common ones by letter, the others as `\u00XX`), every other
/// character as it is.
pub open spec fn json_escape_char(c: char) -> Seq<char> {
    if c == '"' {
        seq!['\\', '"']
    } else if c == '\\' {
        seq!['\\', '\\']
    } else if c == '\x08' {
        seq!['\\', 'b']
    } else if c == '\t' {
        seq!['\\', 't']
    } else if c == '\n' {
        seq!['\\', 'n']
    } else if c == '\x0c' {
        seq!['\\', 'f']
    } else if c == '\r' {
        seq!['\\', 'r']
    } else if (c as u32) < 0x20 {
        seq!['\\', 'u', '0', '0', lower_hex_digit((c as int) / 16), lower_hex_digit((c as int) % 16)]
    } else {
        seq![c]
    }
}

/// The characters of `s`, each escaped as inside a JSON string.
pub open spec fn json_escape(s: Seq<char>) -> Seq<char>
    decreases s.len(),
{
    if s.len() == 0 {
        Seq::empty()
    } else {
        json_escape(s.drop_last()) + json_escape_char(s.last())
    }
}

/// `s` as a JSON string: escaped, between double quotes.
pub open spec fn json_quote(s: Seq<char>) -> Seq<char> {
    seq!['"'] + json_escape(s) + seq!['"']
}

/// The JSON array of the strings `items`, without spaces.
pub open spec fn json_string_array(items: Seq<Seq<char>>) -> Seq<char> {
    seq!['['] + json_items(items) + seq![']']
}

/// The strings `items` as JSON strings, separated by commas.
pub open spec fn json_items(items: Seq<Seq<char>>) -> Seq<char>
    decreases items.len(),
{
    if items.len() == 0 {
        Seq::empty()
    } else if items.len() == 1 {
        json_quote(items[0])
    } else {
        json_items(items.drop_last()) + seq![','] + json_quote(items.last())
    }
}

/// `serde_json::to_string` on a string slice: the JSON string of `s`, escaped as the
/// crate's serializer escapes (quote, backslash and control characters only). Serializing
/// a string into memory does not fail.
#[verifier::external_body]
pub(crate) fn json_string(s: &str) -> (r: String)
    ensures
        r@ == json_quote(s@),
{
    serde_json::to_string(s).unwrap_or_default()
}

/// `serde_json::to_string` on a list of strings: the JSON array of the strings, each
/// written as [`json_string`] writes it, separated by commas, without spaces. Serializing
/// strings into memory does not fail.
#[verifier::external_body]
pub(crate) fn json_string_list(items: &Vec<String>) -> (r: String)
    ensures
        r@ == json_string_array(items@.map_values(|s: String| s@)),
{
    serde_json::to_string(items).unwrap_or_default()
}

} // verus!
