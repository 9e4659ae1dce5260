use mko_core::clock::date_in_seoul;
use mko_core::digest::sha256_hex_of;
use mko_core::fingerprint::{asset_id, fingerprint_file, validate_pdf_content, MAX_ASSET_BYTES};
use mko_core::model::Fingerprint;
use mko_core::unicode::{collision_key_of, composed, lowered, readable};

const EMPTY_HASH: &str = "e3b0c44298fc1c149afbf4c8996fb92427ae41e4649b934ca495991b7852b855";
const ABC_HASH: &str = "ba7816bf8f01cfea414140de5dae2223b00361a396177a9cb410ff61f20015ad";

#[test]
fn hashes_are_printed_in_lowercase_hexadecimal() {
    assert_eq!(sha256_hex_of(b""), EMPTY_HASH);
    assert_eq!(sha256_hex_of(b"abc"), ABC_HASH);
}

#[test]
fn fingerprints_hold_the_hash_of_the_content() {
    let found = fingerprint_file(3, b"abc").unwrap();
    assert_eq!(found.method, "sha256");
    assert_eq!(found.value, format!("sha256:{ABC_HASH}"));
    assert_eq!(asset_id(&found).unwrap(), format!("personal-asset-{ABC_HASH}"));
}

#[test]
fn oversized_files_have_no_fingerprint() {
    assert_eq!(
        fingerprint_file(MAX_ASSET_BYTES + 1, b"abc").unwrap_err().code(),
        "file_too_large"
    );
    assert!(fingerprint_file(MAX_ASSET_BYTES, b"abc").is_ok());
}

#[test]
fn foreign_fingerprints_give_no_asset_id() {
    let other = Fingerprint { method: "sha256".into(), value: format!("md5:{ABC_HASH}") };
    let failure = asset_id(&other).unwrap_err();
    assert_eq!(failure.code(), "fingerprint_invalid");
    assert_eq!(failure.message(), "fingerprint must use sha256");
    for value in [
        format!("sha256:{}", ABC_HASH.to_uppercase()),
        format!("sha256:{}", &ABC_HASH[1..]),
        "sha256:".to_string(),
    ] {
        let found = Fingerprint { method: "sha256".into(), value };
        assert_eq!(
            asset_id(&found).unwrap_err().message(),
            "fingerprint must be lowercase SHA-256"
        );
    }
    let method = Fingerprint { method: "md5".into(), value: format!("sha256:{ABC_HASH}") };
    assert!(asset_id(&method).is_err());
}

#[test]
fn pdf_content_starts_with_its_signature() {
    assert!(validate_pdf_content(b"%PDF-1.7 rest").is_ok());
    assert!(validate_pdf_content(b"%PDF-").is_ok());
    for content in [&b"%PDF"[..], &b"PDF-1.7"[..], &b""[..], &b" %PDF-1.7"[..]] {
        assert_eq!(validate_pdf_content(content).unwrap_err().code(), "invalid_pdf");
    }
}

#[test]
fn composition_joins_letters_and_marks() {
    assert_eq!(composed("e\u{301}"), "\u{e9}");
    assert_eq!(composed("plain"), "plain");
    assert_eq!(composed(&composed("o\u{308}\u{301}")), composed("o\u{308}\u{301}"));
}

#[test]
fn lowercase_goes_beyond_ascii() {
    assert_eq!(lowered("\u{c9}COLE"), "\u{e9}cole");
    assert_eq!(collision_key_of("E\u{301}cole.PDF"), "\u{e9}cole.pdf");
}

#[test]
fn invalid_bytes_are_replaced() {
    assert_eq!(readable(b"ab\xffc"), "ab\u{fffd}c");
    assert_eq!(readable("\u{d55c}".as_bytes()), "\u{d55c}");
}

#[test]
fn dates_are_those_of_seoul() {
    assert_eq!(date_in_seoul(0), Some("1970-01-01".to_string()));
    assert_eq!(date_in_seoul(1_785_510_000), Some("2026-08-01".to_string()));
    assert_eq!(date_in_seoul(1_785_509_999), Some("2026-07-31".to_string()));
    assert_eq!(date_in_seoul(i64::MAX), None);
}
