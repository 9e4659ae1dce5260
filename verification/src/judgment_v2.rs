//! What a person said about a revision of a note, kept beside it word for word.

use crate::asset_validation::{prefixed_hash, valid_prefixed_hash};
use crate::atomic::AtomicWriteResult;
use crate::attempt_v2::{replace_colons, without_colons};
use crate::digest::{sha256_hex, sha256_hex_of};
use crate::error::{error, outcome, verdict, ErrorView, MkoError};
use crate::front_matter::{
    line_feeds, normalize_lf, rendered_body, rendered_metadata, render_markdown,
};
use crate::model::Timestamp;
use crate::text::{after_prefix, byte_len, cat2, cat3, same, same_bytes, strip_prefix, to_chars};
use crate::unicode::{nfc, to_nfc};
use vstd::prelude::*;
use vstd::utf8::encode_utf8;

verus! {

/// The most bytes of a judgment.
pub const MAX_JUDGMENT_BYTES: usize = 32_768;

/// The most bytes of a revision that a judgment is about.
pub const MAX_KNOWLEDGE_REVISION_BYTES: u64 = 16_777_216;

/// How a person confirmed a judgment.
#[derive(Clone, Copy, Debug, PartialEq, Eq, Structural)]
pub enum JudgmentAuthorshipV2 {
    UserConfirmedViaConversation,
    UserConfirmedViaTty,
}

#[derive(Clone, Debug, PartialEq, Eq)]
pub struct JudgmentAnnotationV2 {
    pub schema_version: u32,
    pub record_type: String,
    pub id: String,
    pub knowledge_id: String,
    pub knowledge_revision: String,
    pub text: String,
    pub text_digest: String,
    pub authorship: JudgmentAuthorshipV2,
    pub created_at: Timestamp,
}

#[verifier::ext_equal]
pub struct JudgmentAnnotationV2View {
    pub schema_version: u32,
    pub record_type: Seq<char>,
    pub id: Seq<char>,
    pub knowledge_id: Seq<char>,
    pub knowledge_revision: Seq<char>,
    pub text: Seq<char>,
    pub text_digest: Seq<char>,
    pub authorship: JudgmentAuthorshipV2,
    pub created_at: Timestamp,
}

impl DeepView for JudgmentAnnotationV2 {
    type V = JudgmentAnnotationV2View;

    open spec fn deep_view(&self) -> JudgmentAnnotationV2View {
        JudgmentAnnotationV2View {
            schema_version: self.schema_version,
            record_type: self.record_type@,
            id: self.id@,
            knowledge_id: self.knowledge_id@,
            knowledge_revision: self.knowledge_revision@,
            text: self.text@,
            text_digest: self.text_digest@,
            authorship: self.authorship,
            created_at: self.created_at,
        }
    }
}

impl JudgmentAnnotationV2 {
    fn holds_same(&self, other: &JudgmentAnnotationV2) -> (equal: bool)
        ensures
            equal == (self.deep_view() == other.deep_view()),
    {
        self.schema_version == other.schema_version && same(
            self.record_type.as_str(),
            other.record_type.as_str(),
        ) && same(self.id.as_str(), other.id.as_str()) && same(
            self.knowledge_id.as_str(),
            other.knowledge_id.as_str(),
        ) && same(self.knowledge_revision.as_str(), other.knowledge_revision.as_str()) && same(
            self.text.as_str(),
            other.text.as_str(),
        ) && same(self.text_digest.as_str(), other.text_digest.as_str()) && self.authorship
            == other.authorship && self.created_at == other.created_at
    }
}

/// A judgment and the document it is kept in.
#[derive(Clone, Debug, PartialEq, Eq)]
pub struct PreparedJudgmentV2 {
    pub annotation: JudgmentAnnotationV2,
    pub markdown: Vec<u8>,
}

#[verifier::ext_equal]
pub struct PreparedJudgmentV2View {
    pub annotation: JudgmentAnnotationV2View,
    pub markdown: Seq<u8>,
}

impl DeepView for PreparedJudgmentV2 {
    type V = PreparedJudgmentV2View;

    open spec fn deep_view(&self) -> PreparedJudgmentV2View {
        PreparedJudgmentV2View {
            annotation: self.annotation.deep_view(),
            markdown: self.markdown@,
        }
    }
}

#[derive(Clone, Copy, Debug, PartialEq, Eq, Structural)]
pub enum JudgmentPublicationOutcomeV2 {
    Created,
    Existing,
}

#[derive(Clone, Debug, PartialEq, Eq)]
pub struct JudgmentPublicationV2 {
    pub path: String,
    pub outcome: JudgmentPublicationOutcomeV2,
}

#[verifier::ext_equal]
pub struct JudgmentPublicationV2View {
    pub path: Seq<char>,
    pub outcome: JudgmentPublicationOutcomeV2,
}

impl DeepView for JudgmentPublicationV2 {
    type V = JudgmentPublicationV2View;

    open spec fn deep_view(&self) -> JudgmentPublicationV2View {
        JudgmentPublicationV2View { path: self.path@, outcome: self.outcome }
    }
}

/// A character that a judgment may not hold: a control character other than a line feed or
/// a tab, or one that changes the direction of the text.
pub open spec fn is_disallowed(c: char) -> bool {
    ||| ('\u{1f}' >= c && c != '\n' && c != '\t')
    ||| ('\u{7f}' <= c && c <= '\u{9f}')
    ||| c == '\u{200e}'
    ||| c == '\u{200f}'
    ||| ('\u{202a}' <= c && c <= '\u{202e}')
    ||| ('\u{2066}' <= c && c <= '\u{2069}')
}

fn disallowed_character(c: char) -> (result: bool)
    ensures
        result == is_disallowed(c),
{
    ('\u{1f}' >= c && c != '\n' && c != '\t') || ('\u{7f}' <= c && c <= '\u{9f}') || c
        == '\u{200e}' || c == '\u{200f}' || ('\u{202a}' <= c && c <= '\u{202e}') || ('\u{2066}'
        <= c && c <= '\u{2069}')
}

/// The text without the line feeds in front of it.
pub open spec fn without_first_line_feeds(text: Seq<char>) -> Seq<char>
    decreases text.len(),
{
    if text.len() > 0 && text[0] == '\n' {
        without_first_line_feeds(text.skip(1))
    } else {
        text
    }
}

/// The text without the line feeds behind it.
pub open spec fn without_last_line_feeds(text: Seq<char>) -> Seq<char>
    decreases text.len(),
{
    if text.len() > 0 && text.last() == '\n' {
        without_last_line_feeds(text.drop_last())
    } else {
        text
    }
}

/// The text without the line feeds around it.
pub open spec fn without_outer_line_feeds(text: Seq<char>) -> Seq<char> {
    without_last_line_feeds(without_first_line_feeds(text))
}

fn trim_line_feeds<'a>(text: &'a str) -> (rest: &'a str)
    ensures
        rest@ == without_outer_line_feeds(text@),
{
    let len: usize = text.unicode_len();
    let mut start: usize = 0;
    assert(text@.skip(0) == text@);
    while start < len && text.get_char(start) == '\n'
        invariant
            start <= len,
            len == text@.len(),
            without_first_line_feeds(text@.skip(start as int)) == without_first_line_feeds(text@),
        decreases len - start,
    {
        assert(text@.skip(start as int)[0] == '\n');
        assert(text@.skip(start as int).skip(1) == text@.skip(start + 1));
        start += 1;
    }
    assert(start < len ==> text@.skip(start as int)[0] != '\n');
    let ghost begun = text@.skip(start as int);
    assert(without_first_line_feeds(text@) == begun);
    let mut end: usize = len;
    assert(text@.subrange(start as int, len as int) == begun);
    while end > start && text.get_char(end - 1) == '\n'
        invariant
            start <= end <= len,
            len == text@.len(),
            without_last_line_feeds(text@.subrange(start as int, end as int))
                == without_last_line_feeds(begun),
        decreases end - start,
    {
        let ghost piece = text@.subrange(start as int, end as int);
        assert(piece.last() == '\n');
        assert(piece.drop_last() == text@.subrange(start as int, end - 1));
        end -= 1;
    }
    assert(end > start ==> text@.subrange(start as int, end as int).last() == text@[end - 1]);
    text.substring_char(start, end)
}

/// What is kept of a normalized text, once its composition is known.
pub open spec fn kept_text(normalized: Seq<char>) -> Result<Seq<char>, ErrorView> {
    let kept = without_outer_line_feeds(normalized);
    if encode_utf8(kept).len() == 0 || encode_utf8(kept).len() > MAX_JUDGMENT_BYTES {
        Err(
            error("judgment_text_invalid"@, "judgment text must contain 1 to 32768 UTF-8 bytes"@),
        )
    } else if exists|i: int| 0 <= i < kept.len() && is_disallowed(#[trigger] kept[i]) {
        Err(
            error(
                "judgment_text_invalid"@,
                "judgment text contains control or bidirectional formatting characters"@,
            ),
        )
    } else {
        Ok(kept)
    }
}

/// The text of a judgment as it is kept: with line feeds only, in canonical composition,
/// without line feeds around it.
pub open spec fn exact_text(text: Seq<char>) -> Result<Seq<char>, ErrorView> {
    kept_text(nfc(line_feeds(text)))
}

/// Takes a text whose line endings and composition are settled.
pub fn keep_text(normalized: &str) -> (result: Result<String, MkoError>)
    ensures
        outcome(result) == kept_text(normalized@),
{
    let kept = trim_line_feeds(normalized);
    let len = byte_len(kept);
    if len == 0 || len > MAX_JUDGMENT_BYTES {
        return Err(
            MkoError::new(
                "judgment_text_invalid",
                "judgment text must contain 1 to 32768 UTF-8 bytes",
            ),
        );
    }
    let chars = to_chars(kept);
    let mut i: usize = 0;
    while i < chars.len()
        invariant
            i <= chars.len(),
            chars@ == kept@,
            kept@ == without_outer_line_feeds(normalized@),
            len == encode_utf8(kept@).len(),
            0 < len <= MAX_JUDGMENT_BYTES,
            forall|k: int| 0 <= k < i ==> !is_disallowed(#[trigger] kept@[k]),
        decreases chars.len() - i,
    {
        if disallowed_character(chars[i]) {
            assert(is_disallowed(kept@[i as int]));
            return Err(
                MkoError::new(
                    "judgment_text_invalid",
                    "judgment text contains control or bidirectional formatting characters",
                ),
            );
        }
        i += 1;
    }
    Ok(kept.to_owned())
}

pub fn normalize_exact_text(text: &str) -> (result: Result<String, MkoError>)
    ensures
        outcome(result) == exact_text(text@),
{
    let lines = normalize_lf(text);
    let normalized = to_nfc(lines.as_str());
    keep_text(normalized.as_str())
}

/// The printed digest of bytes.
pub open spec fn digest_of(bytes: Seq<u8>) -> Seq<char> {
    "sha256:"@ + sha256_hex(bytes)
}

pub fn digest(bytes: &[u8]) -> (text: String)
    ensures
        text@ == digest_of(bytes@),
{
    let hash = sha256_hex_of(bytes);
    cat2("sha256:", hash.as_str())
}

/// What a judgment is about names a note and one of its revisions.
pub open spec fn subject_check(knowledge_id: Seq<char>, knowledge_revision: Seq<char>) -> Result<
    (),
    ErrorView,
> {
    if prefixed_hash(knowledge_id, "personal-knowledge-"@) is None {
        Err(error("knowledge_id_invalid"@, "knowledge ID must use the v2 content identity form"@))
    } else if prefixed_hash(knowledge_revision, "sha256:"@) is None {
        Err(error("knowledge_revision_invalid"@, "expected a lowercase SHA-256 digest"@))
    } else {
        Ok(())
    }
}

fn check_subject(knowledge_id: &str, knowledge_revision: &str) -> (result: Result<(), MkoError>)
    ensures
        verdict(result) == subject_check(knowledge_id@, knowledge_revision@),
{
    if valid_prefixed_hash(knowledge_id, "personal-knowledge-").is_none() {
        return Err(
            MkoError::new(
                "knowledge_id_invalid",
                "knowledge ID must use the v2 content identity form",
            ),
        );
    }
    if valid_prefixed_hash(knowledge_revision, "sha256:").is_none() {
        return Err(
            MkoError::new("knowledge_revision_invalid", "expected a lowercase SHA-256 digest"),
        );
    }
    Ok(())
}

/// What the identity of a judgment is made of.
#[derive(Clone, Debug, PartialEq, Eq)]
pub struct JudgmentIdentityV2 {
    pub knowledge_id: String,
    pub knowledge_revision: String,
    pub text: String,
    pub text_digest: String,
    pub authorship: JudgmentAuthorshipV2,
}

#[verifier::ext_equal]
pub struct JudgmentIdentityV2View {
    pub knowledge_id: Seq<char>,
    pub knowledge_revision: Seq<char>,
    pub text: Seq<char>,
    pub text_digest: Seq<char>,
    pub authorship: JudgmentAuthorshipV2,
}

impl DeepView for JudgmentIdentityV2 {
    type V = JudgmentIdentityV2View;

    open spec fn deep_view(&self) -> JudgmentIdentityV2View {
        JudgmentIdentityV2View {
            knowledge_id: self.knowledge_id@,
            knowledge_revision: self.knowledge_revision@,
            text: self.text@,
            text_digest: self.text_digest@,
            authorship: self.authorship,
        }
    }
}

/// The identity of a judgment: its subject, the digest of the exact text, and how it was
/// confirmed.
pub open spec fn identity_of(
    knowledge_id: Seq<char>,
    knowledge_revision: Seq<char>,
    text: Seq<char>,
    authorship: JudgmentAuthorshipV2,
) -> Result<JudgmentIdentityV2View, ErrorView> {
    match subject_check(knowledge_id, knowledge_revision) {
        Err(failure) => Err(failure),
        Ok(_) => match exact_text(text) {
            Err(failure) => Err(failure),
            Ok(kept) => Ok(
                JudgmentIdentityV2View {
                    knowledge_id,
                    knowledge_revision,
                    text: kept,
                    text_digest: digest_of(encode_utf8(kept)),
                    authorship,
                },
            ),
        },
    }
}

pub fn identify_judgment_v2(
    knowledge_id: &str,
    knowledge_revision: &str,
    text: &str,
    authorship: JudgmentAuthorshipV2,
) -> (result: Result<JudgmentIdentityV2, MkoError>)
    ensures
        outcome(result) == identity_of(knowledge_id@, knowledge_revision@, text@, authorship),
{
    match check_subject(knowledge_id, knowledge_revision) {
        Err(failure) => {
            return Err(failure);
        },
        Ok(_) => {},
    }
    let kept = match normalize_exact_text(text) {
        Err(failure) => {
            return Err(failure);
        },
        Ok(kept) => kept,
    };
    let text_digest = digest(kept.as_str().as_bytes());
    Ok(
        JudgmentIdentityV2 {
            knowledge_id: knowledge_id.to_owned(),
            knowledge_revision: knowledge_revision.to_owned(),
            text: kept,
            text_digest,
            authorship,
        },
    )
}

/// The judgment with that identity; `digest` is the digest of the identity in canonical
/// form.
pub open spec fn annotation_of(
    identity: JudgmentIdentityV2View,
    digest: Seq<char>,
    created_at: Timestamp,
) -> JudgmentAnnotationV2View {
    JudgmentAnnotationV2View {
        schema_version: 2,
        record_type: "judgment"@,
        id: "personal-judgment-"@ + (match after_prefix(digest, "sha256:"@) {
            Some(hash) => hash,
            None => Seq::empty(),
        }),
        knowledge_id: identity.knowledge_id,
        knowledge_revision: identity.knowledge_revision,
        text: identity.text,
        text_digest: identity.text_digest,
        authorship: identity.authorship,
        created_at,
    }
}

pub fn annotate_judgment_v2(identity: JudgmentIdentityV2, digest: &str, created_at: Timestamp) -> (
annotation: JudgmentAnnotationV2)
    ensures
        annotation.deep_view() == annotation_of(identity.deep_view(), digest@, created_at),
{
    let id = match strip_prefix(digest, "sha256:") {
        Some(hash) => cat2("personal-judgment-", hash),
        None => {
            assert("personal-judgment-"@ + Seq::<char>::empty() == "personal-judgment-"@);
            "personal-judgment-".to_owned()
        },
    };
    JudgmentAnnotationV2 {
        schema_version: 2,
        record_type: "judgment".to_owned(),
        id,
        knowledge_id: identity.knowledge_id,
        knowledge_revision: identity.knowledge_revision,
        text: identity.text,
        text_digest: identity.text_digest,
        authorship: identity.authorship,
        created_at,
    }
}

/// The document of a judgment, from its serialized metadata.
pub open spec fn judgment_document(yaml: Seq<char>, text: Seq<char>) -> Seq<char> {
    "---\n"@ + rendered_metadata(yaml) + "\n---\n"@ + rendered_body(
        "# User judgment\n\n"@ + text + "\n"@,
    )
}

/// The judgment with the document it is kept in; `yaml` is its serialized form.
pub fn prepare_judgment_v2(annotation: JudgmentAnnotationV2, yaml: &str) -> (prepared:
    PreparedJudgmentV2)
    ensures
        prepared.deep_view() == (PreparedJudgmentV2View {
            annotation: annotation.deep_view(),
            markdown: encode_utf8(judgment_document(yaml@, annotation.deep_view().text)),
        }),
{
    let body = cat3("# User judgment\n\n", annotation.text.as_str(), "\n");
    let document = render_markdown(yaml, body.as_str());
    let markdown = copy_bytes(document.as_str().as_bytes());
    PreparedJudgmentV2 { annotation, markdown }
}

fn copy_bytes(bytes: &[u8]) -> (copy: Vec<u8>)
    ensures
        copy@ == bytes@,
{
    let mut copy: Vec<u8> = Vec::new();
    let mut i: usize = 0;
    while i < bytes.len()
        invariant
            i <= bytes.len(),
            copy@ == bytes@.take(i as int),
        decreases bytes.len() - i,
    {
        copy.push(bytes[i]);
        assert(bytes@.take(i + 1) == bytes@.take(i as int).push(bytes@[i as int]));
        i += 1;
    }
    assert(bytes@.take(i as int) == bytes@);
    copy
}

/// A judgment is published only as it would be prepared again from what it says.
pub fn check_prepared_judgment(prepared: &PreparedJudgmentV2, canonical: &PreparedJudgmentV2) -> (
result: Result<(), MkoError>)
    ensures
        verdict(result) == (if prepared.deep_view() == canonical.deep_view() {
            Ok(())
        } else {
            Err(
                error(
                    "judgment_annotation_invalid"@,
                    "judgment annotation does not match its canonical identity and exact text"@,
                ),
            )
        }),
{
    if prepared.annotation.holds_same(&canonical.annotation) && same_bytes(
        prepared.markdown.as_slice(),
        canonical.markdown.as_slice(),
    ) {
        Ok(())
    } else {
        Err(
            MkoError::new(
                "judgment_annotation_invalid",
                "judgment annotation does not match its canonical identity and exact text",
            ),
        )
    }
}

/// The directory of a note.
pub fn record_directory(knowledge_id: &str) -> (path: String)
    ensures
        path@ == "knowledge/"@ + knowledge_id@,
{
    cat2("knowledge/", knowledge_id)
}

/// A revision of a note below its directory.
pub fn revision_path(knowledge_revision: &str) -> (path: String)
    ensures
        path@ == "revisions/"@ + without_colons(knowledge_revision@) + ".md"@,
{
    let name = replace_colons(knowledge_revision);
    cat3("revisions/", name.as_str(), ".md")
}

/// A judgment below the directory of its note.
pub fn judgment_path(id: &str) -> (path: String)
    ensures
        path@ == "judgments/"@ + id@ + ".md"@,
{
    cat3("judgments/", id, ".md")
}

/// The revision that a judgment is about holds what its name says.
pub fn check_judgment_revision(revision: &Vec<u8>, knowledge_revision: &str) -> (result: Result<
    (),
    MkoError,
>)
    ensures
        verdict(result) == (if digest_of(revision@) == knowledge_revision@ {
            Ok(())
        } else {
            Err(
                error(
                    "judgment_revision_invalid"@,
                    "the linked Knowledge revision bytes do not match their identity"@,
                ),
            )
        }),
{
    let actual = digest(revision.as_slice());
    if same(actual.as_str(), knowledge_revision) {
        Ok(())
    } else {
        Err(
            MkoError::new(
                "judgment_revision_invalid",
                "the linked Knowledge revision bytes do not match their identity",
            ),
        )
    }
}

/// A judgment that is there already must be the same.
pub fn check_existing_judgment(existing: &Vec<u8>, markdown: &Vec<u8>) -> (result: Result<
    (),
    MkoError,
>)
    ensures
        verdict(result) == (if existing@ == markdown@ {
            Ok(())
        } else {
            Err(
                error(
                    "judgment_annotation_conflict"@,
                    "the immutable judgment path contains different bytes"@,
                ),
            )
        }),
{
    if same_bytes(existing.as_slice(), markdown.as_slice()) {
        Ok(())
    } else {
        Err(
            MkoError::new(
                "judgment_annotation_conflict",
                "the immutable judgment path contains different bytes",
            ),
        )
    }
}

/// What the publication of a judgment comes to.
pub fn publish_judgment_v2(path: &str, written: Result<AtomicWriteResult, MkoError>) -> (result:
    Result<JudgmentPublicationV2, MkoError>)
    ensures
        outcome(result) == (match written {
            Ok(done) => Ok(
                JudgmentPublicationV2View {
                    path: path@,
                    outcome: match done {
                        AtomicWriteResult::Created => JudgmentPublicationOutcomeV2::Created,
                        AtomicWriteResult::Existing => JudgmentPublicationOutcomeV2::Existing,
                    },
                },
            ),
            Err(failure) => Err(
                error("judgment_publication_failed"@, failure.deep_view().message),
            ),
        }),
{
    match written {
        Ok(AtomicWriteResult::Created) => Ok(
            JudgmentPublicationV2 {
                path: path.to_owned(),
                outcome: JudgmentPublicationOutcomeV2::Created,
            },
        ),
        Ok(AtomicWriteResult::Existing) => Ok(
            JudgmentPublicationV2 {
                path: path.to_owned(),
                outcome: JudgmentPublicationOutcomeV2::Existing,
            },
        ),
        Err(failure) => Err(MkoError::new("judgment_publication_failed", failure.message())),
    }
}

/// A directory that judgments are kept in is a real one.
pub fn validate_real_directory(is_real_directory: bool) -> (result: Result<(), MkoError>)
    ensures
        verdict(result) == (if is_real_directory {
            Ok(())
        } else {
            Err(
                error(
                    "judgment_destination_invalid"@,
                    "managed judgment path must be a real non-symlink directory"@,
                ),
            )
        }),
{
    if is_real_directory {
        Ok(())
    } else {
        Err(
            MkoError::new(
                "judgment_destination_invalid",
                "managed judgment path must be a real non-symlink directory",
            ),
        )
    }
}

/// A file is read only where it is a regular one within the limit.
pub fn check_judgment_input(is_file: bool, len: u64, limit: u64, code: &str) -> (result: Result<
    (),
    MkoError,
>)
    ensures
        verdict(result) == (if is_file && len <= limit {
            Ok(())
        } else {
            Err(
                error(
                    code@,
                    "managed judgment input must be a bounded regular non-link file"@,
                ),
            )
        }),
{
    if is_file && len <= limit {
        Ok(())
    } else {
        Err(MkoError::new(code, "managed judgment input must be a bounded regular non-link file"))
    }
}

/// What was read of a file must be within the limit too.
pub fn check_judgment_bytes(read: u64, limit: u64, code: &str) -> (result: Result<(), MkoError>)
    ensures
        verdict(result) == (if read <= limit {
            Ok(())
        } else {
            Err(error(code@, "managed judgment input exceeds its byte limit"@))
        }),
{
    if read <= limit {
        Ok(())
    } else {
        Err(MkoError::new(code, "managed judgment input exceeds its byte limit"))
    }
}

/// A judgment that was accepted says something, within its bound, in text that cannot hide
/// anything; and what it says can be told from its identity, which holds the digest of it.
pub proof fn judgments_are_plain_text(
    knowledge_id: Seq<char>,
    knowledge_revision: Seq<char>,
    text: Seq<char>,
    authorship: JudgmentAuthorshipV2,
)
    ensures
        identity_of(knowledge_id, knowledge_revision, text, authorship) matches Ok(identity) ==> {
            &&& 0 < encode_utf8(identity.text).len() <= MAX_JUDGMENT_BYTES
            &&& forall|i: int|
                0 <= i < identity.text.len() ==> !is_disallowed(#[trigger] identity.text[i])
            &&& identity.text_digest == digest_of(encode_utf8(identity.text))
            &&& identity.text[0] != '\n'
            &&& identity.text.last() != '\n'
        },
{
    if identity_of(knowledge_id, knowledge_revision, text, authorship) is Ok {
        let normalized = nfc(line_feeds(text));
        let begun = without_first_line_feeds(normalized);
        let kept = without_last_line_feeds(begun);
        first_is_no_line_feed(normalized);
        last_is_no_line_feed(begun);
        assert(kept.len() > 0) by {
            if kept.len() == 0 {
                assert(kept == Seq::<char>::empty());
                vstd::utf8::encode_utf8_decode_utf8(kept);
                assert(encode_utf8(Seq::<char>::empty()).len() == 0);
            }
        }
    }
}

proof fn first_is_no_line_feed(text: Seq<char>)
    ensures
        without_first_line_feeds(text).len() > 0 ==> without_first_line_feeds(text)[0] != '\n',
    decreases text.len(),
{
    if text.len() > 0 && text[0] == '\n' {
        first_is_no_line_feed(text.skip(1));
    }
}

proof fn last_is_no_line_feed(text: Seq<char>)
    ensures
        without_last_line_feeds(text).len() > 0 ==> without_last_line_feeds(text).last() != '\n'
            && text.len() > 0 && without_last_line_feeds(text)[0] == text[0],
    decreases text.len(),
{
    if text.len() > 0 && text.last() == '\n' {
        last_is_no_line_feed(text.drop_last());
    }
}

} // verus!
