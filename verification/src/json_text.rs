//! Text as JSON writes it.

use crate::digest::hex_digit;
use vstd::prelude::*;

verus! {

/// A character inside a JSON string: quotes, backslashes and control characters are
/// escaped, everything else stands for itself.
pub open spec fn json_character(c: char) -> Seq<char> {
    if c == '"' {
        seq!['\\', '"']
    } else if c == '\\' {
        seq!['\\', '\\']
    } else if c == '\u{8}' {
        seq!['\\', 'b']
    } else if c == '\u{9}' {
        seq!['\\', 't']
    } else if c == '\u{a}' {
        seq!['\\', 'n']
    } else if c == '\u{c}' {
        seq!['\\', 'f']
    } else if c == '\u{d}' {
        seq!['\\', 'r']
    } else if '\u{1f}' >= c {
        seq!['\\', 'u', '0', '0', hex_digit(c as int / 16), hex_digit(c as int % 16)]
    } else {
        seq![c]
    }
}

/// The characters of a text inside a JSON string.
pub open spec fn json_characters(text: Seq<char>) -> Seq<char>
    decreases text.len(),
{
    if text.len() == 0 {
        Seq::empty()
    } else {
        json_characters(text.drop_last()) + json_character(text.last())
    }
}

/// A text as a JSON string.
pub open spec fn json_text(text: Seq<char>) -> Seq<char> {
    seq!['"'] + json_characters(text) + seq!['"']
}

/// `serde_json::to_string` on a text: it is always written, between quotes, with its
/// quotes, backslashes and control characters escaped. The error of the outside crate is
/// kept as its message.
#[verifier::external_body]
pub(crate) fn to_json_text(text: &str) -> (written: Result<String, String>)
    ensures
        written is Ok,
        written->Ok_0@ == json_text(text@),
{
    serde_json::to_string(text).map_err(|error| error.to_string())
}

/// Texts as a JSON array of strings.
pub open spec fn json_texts(list: Seq<Seq<char>>) -> Seq<char> {
    seq!['['] + json_items(list) + seq![']']
}

/// The elements of a JSON array of strings.
pub open spec fn json_items(list: Seq<Seq<char>>) -> Seq<char>
    decreases list.len(),
{
    if list.len() == 0 {
        Seq::empty()
    } else if list.len() == 1 {
        json_text(list[0])
    } else {
        json_items(list.drop_last()) + seq![','] + json_text(list.last())
    }
}

/// A text or nothing, as JSON.
pub open spec fn json_option(text: Option<Seq<char>>) -> Seq<char> {
    match text {
        Some(value) => json_text(value),
        None => "null"@,
    }
}

} // verus!
