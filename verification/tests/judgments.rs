use mko_core::atomic::AtomicWriteResult;
use mko_core::digest::sha256_hex_of;
use mko_core::error::MkoError;
use mko_core::judgment_v2::{
    annotate_judgment_v2, check_existing_judgment, check_judgment_bytes, check_judgment_input,
    check_judgment_revision, check_prepared_judgment, digest, identify_judgment_v2, judgment_path,
    keep_text, normalize_exact_text, prepare_judgment_v2, publish_judgment_v2, record_directory,
    revision_path, validate_real_directory, JudgmentAuthorshipV2, JudgmentPublicationOutcomeV2,
    MAX_JUDGMENT_BYTES,
};
use mko_core::model::Timestamp;

const HOW: JudgmentAuthorshipV2 = JudgmentAuthorshipV2::UserConfirmedViaTty;

fn knowledge_id() -> String {
    format!("personal-knowledge-{}", "b".repeat(64))
}

fn revision() -> String {
    format!("sha256:{}", "c".repeat(64))
}

#[test]
fn judgments_are_kept_word_for_word() {
    assert_eq!(normalize_exact_text("\r\n one\r\ntwo\rCafe\u{301} \n\n").unwrap(), " one\ntwo\nCaf\u{e9} ");
    assert_eq!(keep_text("\n\nkept\tas is\n").unwrap(), "kept\tas is");
    assert!(normalize_exact_text(&"a".repeat(MAX_JUDGMENT_BYTES)).is_ok());
}

#[test]
fn judgments_say_something_in_plain_text() {
    for text in ["", "\n\r\n", &"a".repeat(MAX_JUDGMENT_BYTES + 1)] {
        let failure = normalize_exact_text(text).unwrap_err();
        assert_eq!(failure.code(), "judgment_text_invalid");
        assert_eq!(failure.message(), "judgment text must contain 1 to 32768 UTF-8 bytes");
    }
    for text in ["a\u{0}b", "a\u{7f}", "a\u{85}b", "\u{202e}abc", "a\u{2067}b", "\u{200e}a"] {
        assert_eq!(
            normalize_exact_text(text).unwrap_err().message(),
            "judgment text contains control or bidirectional formatting characters"
        );
    }
}

#[test]
fn judgments_name_their_subject() {
    let found = identify_judgment_v2(&knowledge_id(), &revision(), "good", HOW).unwrap();
    assert_eq!(found.text, "good");
    assert_eq!(found.text_digest, format!("sha256:{}", sha256_hex_of(b"good")));
    assert_eq!(found.text_digest, digest(b"good"));
    assert_eq!(
        identify_judgment_v2("note", &revision(), "good", HOW).unwrap_err().code(),
        "knowledge_id_invalid"
    );
    assert_eq!(
        identify_judgment_v2(&knowledge_id(), "sha256:1", "good", HOW).unwrap_err().code(),
        "knowledge_revision_invalid"
    );
}

#[test]
fn judgments_are_rendered_below_a_heading() {
    let at = Timestamp { seconds: 5, nanos: 0 };
    let identity = identify_judgment_v2(&knowledge_id(), &revision(), "good\n", HOW).unwrap();
    let annotation = annotate_judgment_v2(identity, "sha256:abc", at);
    assert_eq!(annotation.id, "personal-judgment-abc");
    assert_eq!(annotation.record_type, "judgment");
    assert_eq!(annotation.schema_version, 2);
    let prepared = prepare_judgment_v2(annotation, "schema_version: 2\n");
    assert_eq!(
        String::from_utf8(prepared.markdown.clone()).unwrap(),
        "---\nschema_version: 2\n---\n# User judgment\n\ngood\n"
    );
    assert!(check_prepared_judgment(&prepared, &prepared.clone()).is_ok());
    let mut other = prepared.clone();
    other.annotation.text = "bad".into();
    assert_eq!(
        check_prepared_judgment(&prepared, &other).unwrap_err().code(),
        "judgment_annotation_invalid"
    );
    let mut longer = prepared.clone();
    longer.markdown.push(b'\n');
    assert!(check_prepared_judgment(&prepared, &longer).is_err());
}

#[test]
fn judgments_have_their_place() {
    assert_eq!(record_directory("k"), "knowledge/k");
    assert_eq!(revision_path("sha256:ab"), "revisions/sha256-ab.md");
    assert_eq!(judgment_path("j"), "judgments/j.md");
}

#[test]
fn judgments_are_about_the_bytes_they_name() {
    let bytes = b"revision".to_vec();
    assert!(check_judgment_revision(&bytes, &digest(b"revision")).is_ok());
    assert_eq!(
        check_judgment_revision(&bytes, &revision()).unwrap_err().code(),
        "judgment_revision_invalid"
    );
    assert!(check_existing_judgment(&bytes, &bytes).is_ok());
    assert_eq!(
        check_existing_judgment(&bytes, &b"other".to_vec()).unwrap_err().code(),
        "judgment_annotation_conflict"
    );
}

#[test]
fn judgment_publications_tell_their_outcome() {
    let made = publish_judgment_v2("p", Ok(AtomicWriteResult::Created)).unwrap();
    assert_eq!(made.outcome, JudgmentPublicationOutcomeV2::Created);
    assert_eq!(made.path, "p");
    let found = publish_judgment_v2("p", Ok(AtomicWriteResult::Existing)).unwrap();
    assert_eq!(found.outcome, JudgmentPublicationOutcomeV2::Existing);
    let failed = publish_judgment_v2("p", Err(MkoError::new("registry_locked", "busy")));
    let failure = failed.unwrap_err();
    assert_eq!((failure.code(), failure.message()), ("judgment_publication_failed", "busy"));
}

#[test]
fn judgment_inputs_are_bounded() {
    assert!(validate_real_directory(true).is_ok());
    assert_eq!(
        validate_real_directory(false).unwrap_err().code(),
        "judgment_destination_invalid"
    );
    assert!(check_judgment_input(true, 4, 4, "code").is_ok());
    assert_eq!(check_judgment_input(true, 5, 4, "code").unwrap_err().code(), "code");
    assert!(check_judgment_input(false, 1, 4, "code").is_err());
    assert!(check_judgment_bytes(4, 4, "code").is_ok());
    assert_eq!(
        check_judgment_bytes(5, 4, "code").unwrap_err().message(),
        "managed judgment input exceeds its byte limit"
    );
}
