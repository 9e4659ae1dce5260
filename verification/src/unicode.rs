//! Unicode normalization and case, as the outside world defines them.

use crate::paths::ascii_lowered;
use crate::text::ascii_lower;
use unicode_normalization::UnicodeNormalization;
use vstd::prelude::*;
use vstd::utf8::{decode_utf8, is_ascii_chars, valid_utf8};

verus! {

/// The canonical composition (NFC) of a text.
pub uninterp spec fn nfc(text: Seq<char>) -> Seq<char>;

/// The lowercase form of a text, as Unicode defines it.
pub uninterp spec fn unicode_lowercase(text: Seq<char>) -> Seq<char>;

/// The lowercase form of a text: where all of it is ASCII, each letter has its small form.
pub open spec fn lowercase(text: Seq<char>) -> Seq<char> {
    if is_ascii_chars(text) {
        ascii_lowered(text)
    } else {
        unicode_lowercase(text)
    }
}

/// `UnicodeNormalization::nfc` of the crate unicode-normalization, with its characters
/// collected: the canonical composition of the text depends on the text alone, composing
/// it again changes nothing, and no carriage return comes into it.
#[verifier::external_body]
pub(crate) fn to_nfc(text: &str) -> (normalized: String)
    ensures
        normalized@ == nfc(text@),
        nfc(normalized@) == normalized@,
        !text@.contains('\r') ==> !normalized@.contains('\r'),
{
    text.nfc().collect::<String>()
}

/// `str::to_lowercase` of std: the lowercase form depends on the text alone, and where all
/// of the text is ASCII, the letters A to Z become a to z and nothing else changes.
#[verifier::external_body]
fn to_unicode_lowercase(text: &str) -> (lowered: String)
    ensures
        lowered@ == unicode_lowercase(text@),
        is_ascii_chars(text@) ==> lowered@ == ascii_lowered(text@),
{
    text.to_lowercase()
}

/// The canonical composition of a text.
pub fn composed(text: &str) -> (normalized: String)
    ensures
        normalized@ == nfc(text@),
        nfc(normalized@) == normalized@,
{
    to_nfc(text)
}

/// The lowercase form of a text.
pub fn lowered(text: &str) -> (lowered: String)
    ensures
        lowered@ == lowercase(text@),
{
    to_unicode_lowercase(text)
}

/// Texts in ASCII that differ in the case of their letters alone have one lowercase form.
pub proof fn ascii_case_is_dropped(text: Seq<char>, other: Seq<char>)
    requires
        is_ascii_chars(text),
        ascii_lowered(other) == ascii_lowered(text),
    ensures
        lowercase(other) == lowercase(text),
{
    assert(other.len() == text.len()) by {
        assert(ascii_lowered(other).len() == other.len());
        assert(ascii_lowered(text).len() == text.len());
    }
    assert forall|i: int| 0 <= i < other.len() implies '\0' <= #[trigger] other[i]
        <= '\u{7f}' by {
        assert(ascii_lowered(other)[i] == ascii_lower(other[i]));
        assert(ascii_lowered(text)[i] == ascii_lower(text[i]));
        assert('\0' <= text[i] <= '\u{7f}');
    }
}

/// What two file names must share to be the same name on some file system: their
/// lowercase form after canonical composition.
pub open spec fn collision_key(name: Seq<char>) -> Seq<char> {
    lowercase(nfc(name))
}

pub fn collision_key_of(name: &str) -> (key: String)
    ensures
        key@ == collision_key(name@),
{
    lowered(to_nfc(name).as_str())
}

/// The text of a byte string in which every invalid sequence is replaced.
pub uninterp spec fn lossy_text(bytes: Seq<u8>) -> Seq<char>;

/// `String::from_utf8_lossy` of std: the text depends on the bytes alone, and valid UTF-8
/// is decoded as it is.
#[verifier::external_body]
pub(crate) fn to_lossy_text(bytes: &[u8]) -> (text: String)
    ensures
        text@ == lossy_text(bytes@),
        valid_utf8(bytes@) ==> text@ == decode_utf8(bytes@),
{
    String::from_utf8_lossy(bytes).into_owned()
}

/// The text of bytes, whatever they hold.
pub fn readable(bytes: &[u8]) -> (text: String)
    ensures
        text@ == lossy_text(bytes@),
        valid_utf8(bytes@) ==> text@ == decode_utf8(bytes@),
{
    to_lossy_text(bytes)
}

/// `std::str::from_utf8` of std: the text of valid UTF-8, and nothing otherwise.
#[verifier::external_body]
pub(crate) fn to_text(bytes: &[u8]) -> (text: Option<String>)
    ensures
        text is Some == valid_utf8(bytes@),
        text is Some ==> text->0@ == decode_utf8(bytes@),
{
    std::str::from_utf8(bytes).ok().map(str::to_owned)
}

} // verus!
