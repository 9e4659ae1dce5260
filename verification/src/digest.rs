//! Content hashes and their printed form.

use crate::text::{is_lower_hex, is_lower_hex_digit};
use sha2::Digest;
use vstd::prelude::*;

verus! {

/// The SHA-256 hash of a byte string.
pub uninterp spec fn sha256(bytes: Seq<u8>) -> Seq<u8>;

/// The lowercase hexadecimal digit of a value below sixteen.
pub open spec fn hex_digit(value: int) -> char {
    if value < 10 {
        ('0' as u32 + value) as char
    } else {
        ('a' as u32 + (value - 10)) as char
    }
}

/// Two lowercase hexadecimal digits for each byte, the high one first.
pub open spec fn hex_digits(bytes: Seq<u8>) -> Seq<char> {
    Seq::new(
        2 * bytes.len(),
        |i: int|
            if i % 2 == 0 {
                hex_digit(bytes[i / 2] as int / 16)
            } else {
                hex_digit(bytes[i / 2] as int % 16)
            },
    )
}

/// The printed SHA-256 hash of a byte string.
pub open spec fn sha256_hex(bytes: Seq<u8>) -> Seq<char> {
    hex_digits(sha256(bytes))
}

/// `Digest::digest` of the crate sha2 for `Sha256`: the hash depends on the bytes alone
/// and has thirty-two bytes.
#[verifier::external_body]
fn hash(bytes: &[u8]) -> (digest: Vec<u8>)
    ensures
        digest@ == sha256(bytes@),
        digest@.len() == 32,
{
    sha2::Sha256::digest(bytes).to_vec()
}

/// `encode` of the crate hex: two lowercase hexadecimal digits for each byte.
#[verifier::external_body]
fn hex_of(bytes: &[u8]) -> (text: String)
    ensures
        text@ == hex_digits(bytes@),
{
    hex::encode(bytes)
}

/// The printed SHA-256 hash of a byte string.
pub fn sha256_hex_of(bytes: &[u8]) -> (text: String)
    ensures
        text@ == sha256_hex(bytes@),
        is_lower_hex(text@, 64),
{
    let digest = hash(bytes);
    proof {
        hex_is_lower_hex(digest@);
    }
    hex_of(digest.as_slice())
}

/// The printed form of random or hashed bytes.
pub(crate) fn printed(bytes: &[u8]) -> (text: String)
    ensures
        text@ == hex_digits(bytes@),
        is_lower_hex(text@, 2 * bytes@.len()),
{
    proof {
        hex_is_lower_hex(bytes@);
    }
    hex_of(bytes)
}

/// The printed form of bytes is lowercase hexadecimal, two digits for each byte.
pub proof fn hex_is_lower_hex(bytes: Seq<u8>)
    ensures
        is_lower_hex(hex_digits(bytes), 2 * bytes.len()),
{
    let text = hex_digits(bytes);
    assert forall|i: int| 0 <= i < text.len() implies is_lower_hex_digit(#[trigger] text[i]) by {
        let byte = bytes[i / 2] as int;
        assert(0 <= byte / 16 < 16);
        assert(0 <= byte % 16 < 16);
    }
}

/// Different byte strings of the same length have different printed forms.
pub proof fn hex_is_injective(left: Seq<u8>, right: Seq<u8>)
    requires
        hex_digits(left) == hex_digits(right),
    ensures
        left == right,
{
    assert(hex_digits(left).len() == 2 * left.len());
    assert(hex_digits(right).len() == 2 * right.len());
    assert forall|k: int| 0 <= k < left.len() implies left[k] == right[k] by {
        let high = hex_digits(left)[2 * k];
        let low = hex_digits(left)[2 * k + 1];
        assert(high == hex_digits(right)[2 * k]);
        assert(low == hex_digits(right)[2 * k + 1]);
        assert((2 * k) / 2 == k && (2 * k + 1) / 2 == k);
        assert((2 * k) % 2 == 0 && (2 * k + 1) % 2 == 1);
    }
    assert(left == right);
}

} // verus!
