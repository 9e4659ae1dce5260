//! The content identity of a file: its SHA-256 hash, and the Asset ID made of it.

use crate::digest::{sha256, sha256_hex, sha256_hex_of};
use crate::error::{error, outcome, verdict, ErrorView, MkoError};
use crate::model::{Fingerprint, FingerprintView, Timestamp};
use crate::text::{after_prefix, cat2, has_lower_hex, is_lower_hex, same, strip_prefix};
use vstd::prelude::*;

verus! {

/// The largest PDF that is processed, in bytes.
pub const MAX_ASSET_BYTES: u64 = 52428800;

/// A file as it was when it was read.
#[derive(Clone, Debug, PartialEq, Eq)]
pub struct FileSnapshot {
    pub fingerprint: Fingerprint,
    pub size_bytes: u64,
    pub modified_at: Timestamp,
}

#[verifier::ext_equal]
pub struct FileSnapshotView {
    pub fingerprint: FingerprintView,
    pub size_bytes: u64,
    pub modified_at: Timestamp,
}

impl DeepView for FileSnapshot {
    type V = FileSnapshotView;

    open spec fn deep_view(&self) -> FileSnapshotView {
        FileSnapshotView {
            fingerprint: self.fingerprint.deep_view(),
            size_bytes: self.size_bytes,
            modified_at: self.modified_at,
        }
    }
}

/// The same method and the same value.
pub(crate) fn same_fingerprint(left: &Fingerprint, right: &Fingerprint) -> (equal: bool)
    ensures
        equal == (left.deep_view() == right.deep_view()),
{
    same(left.method.as_str(), right.method.as_str()) && same(
        left.value.as_str(),
        right.value.as_str(),
    )
}

/// The same content, whenever it was written.
pub open spec fn same_content(left: FileSnapshotView, right: FileSnapshotView) -> bool {
    left.fingerprint == right.fingerprint && left.size_bytes == right.size_bytes
}

pub(crate) fn has_same_content(left: &FileSnapshot, right: &FileSnapshot) -> (equal: bool)
    ensures
        equal == same_content(left.deep_view(), right.deep_view()),
{
    same_fingerprint(&left.fingerprint, &right.fingerprint) && left.size_bytes == right.size_bytes
}

/// The same content and the same moment.
pub(crate) fn same_snapshot(left: &FileSnapshot, right: &FileSnapshot) -> (equal: bool)
    ensures
        equal == (left.deep_view() == right.deep_view()),
{
    has_same_content(left, right) && left.modified_at == right.modified_at
}

/// The first five bytes of every PDF.
pub open spec fn pdf_signature() -> Seq<u8> {
    seq![0x25, 0x50, 0x44, 0x46, 0x2d]
}

/// Accepts content that starts with the PDF signature.
pub fn validate_pdf_content(content: &[u8]) -> (result: Result<(), MkoError>)
    ensures
        verdict(result) == (if pdf_signature().is_prefix_of(content@) {
            Ok(())
        } else {
            Err(error("invalid_pdf"@, "file does not have a PDF signature"@))
        }),
{
    proof {
        let signature = pdf_signature();
        assert(signature.len() == 5);
        assert(signature[0] == 0x25 && signature[1] == 0x50 && signature[2] == 0x44 && signature[3]
            == 0x46 && signature[4] == 0x2d);
    }
    let valid = content.len() >= 5 && content[0] == 0x25u8 && content[1] == 0x50u8 && content[2]
        == 0x44u8 && content[3] == 0x46u8 && content[4] == 0x2du8;
    proof {
        if pdf_signature().is_prefix_of(content@) {
            assert(content@.subrange(0, 5) == pdf_signature());
            assert(content@[0] == content@.subrange(0, 5)[0]);
            assert(content@[1] == content@.subrange(0, 5)[1]);
            assert(content@[2] == content@.subrange(0, 5)[2]);
            assert(content@[3] == content@.subrange(0, 5)[3]);
            assert(content@[4] == content@.subrange(0, 5)[4]);
        }
    }
    if !valid {
        return Err(MkoError::new("invalid_pdf", "file does not have a PDF signature"));
    }
    assert(pdf_signature() == content@.subrange(0, 5));
    Ok(())
}

/// The fingerprint of content.
pub open spec fn content_fingerprint(content: Seq<u8>) -> FingerprintView {
    FingerprintView { method: "sha256"@, value: "sha256:"@ + sha256_hex(content) }
}

/// The fingerprint of a file of the given size with the given content, unless the file
/// is too large to process.
pub fn fingerprint_file(size_bytes: u64, content: &[u8]) -> (result: Result<Fingerprint, MkoError>)
    ensures
        outcome(result) == (if size_bytes > MAX_ASSET_BYTES {
            Err(
                error(
                    "file_too_large"@,
                    "PDF exceeds 50 MiB; use the documented manual processing path"@,
                ),
            )
        } else {
            Ok(content_fingerprint(content@))
        }),
{
    if size_bytes > MAX_ASSET_BYTES {
        return Err(
            MkoError::new(
                "file_too_large",
                "PDF exceeds 50 MiB; use the documented manual processing path",
            ),
        );
    }
    let hash = sha256_hex_of(content);
    Ok(Fingerprint { method: "sha256".to_owned(), value: cat2("sha256:", hash.as_str()) })
}

/// The Asset ID that belongs to a fingerprint.
pub open spec fn asset_id_of(fingerprint: FingerprintView) -> Result<Seq<char>, ErrorView> {
    match after_prefix(fingerprint.value, "sha256:"@) {
        None => Err(error("fingerprint_invalid"@, "fingerprint must use sha256"@)),
        Some(hash) => if fingerprint.method == "sha256"@ && is_lower_hex(hash, 64) {
            Ok("personal-asset-"@ + hash)
        } else {
            Err(error("fingerprint_invalid"@, "fingerprint must be lowercase SHA-256"@))
        },
    }
}

pub fn asset_id(fingerprint: &Fingerprint) -> (result: Result<String, MkoError>)
    ensures
        outcome(result) == asset_id_of(fingerprint.deep_view()),
{
    match strip_prefix(fingerprint.value.as_str(), "sha256:") {
        None => Err(MkoError::new("fingerprint_invalid", "fingerprint must use sha256")),
        Some(hash) => {
            if !same(fingerprint.method.as_str(), "sha256") || !has_lower_hex(hash, 64) {
                return Err(
                    MkoError::new("fingerprint_invalid", "fingerprint must be lowercase SHA-256"),
                );
            }
            Ok(cat2("personal-asset-", hash))
        },
    }
}

/// Every fingerprint that is made of content gives an Asset ID, and the ID holds the
/// whole hash of the content.
pub proof fn content_has_an_asset_id(content: Seq<u8>)
    requires
        sha256(content).len() == 32,
    ensures
        asset_id_of(content_fingerprint(content)) == Ok::<Seq<char>, ErrorView>(
            "personal-asset-"@ + sha256_hex(content),
        ),
{
    crate::digest::hex_is_lower_hex(sha256(content));
    let value = "sha256:"@ + sha256_hex(content);
    assert("sha256:"@.is_prefix_of(value)) by {
        assert(value.subrange(0, "sha256:"@.len() as int) == "sha256:"@);
    }
    assert(value.skip("sha256:"@.len() as int) == sha256_hex(content));
}

/// Two fingerprints with the same Asset ID are the same fingerprint.
pub proof fn asset_ids_are_unique(left: FingerprintView, right: FingerprintView)
    requires
        asset_id_of(left) is Ok,
        asset_id_of(left) == asset_id_of(right),
    ensures
        left == right,
{
    let prefix = "sha256:"@;
    let a = left.value.skip(prefix.len() as int);
    let b = right.value.skip(prefix.len() as int);
    let name = "personal-asset-"@;
    assert(name + a == name + b);
    assert(a == (name + a).skip(name.len() as int));
    assert(b == (name + b).skip(name.len() as int));
    assert(left.value == prefix + a);
    assert(right.value == prefix + b);
    assert(left == right);
}

} // verus!
