//! Knowledge notes: how a response is made canonical, how a note is named, written out and
//! bound to a revision, and when a record is in order.

use crate::asset_validation::{prefixed_hash, valid_prefixed_hash};
use crate::clock::{seoul_date, seoul_date_of};
use crate::digest::{sha256_hex, sha256_hex_of};
use crate::error::{error, outcome, verdict, ErrorView, MkoError};
use crate::front_matter::{line_feeds, line_feeds_only, line_feeds_stay, normalize_lf};
use crate::json_text::{json_items, json_option, json_text, json_texts, to_json_text};
use crate::model::{AssetRecord, AssetRecordView, Timestamp};
use crate::order::{dedup, remove_repeats, sort, stable_sort};
use crate::paths::{ascii_lowered, lowered_ascii};
use crate::slug::{slug_of, slugify, without_final_hyphens, without_last_hyphens};
use crate::text::{
    blank, byte_len, cat2, cat3, cat4, cat5, contains_char, copy_list, copy_option, decimal,
    decimal_digits, digits_value, is_blank, join, join_texts, lines, lines_of, replace_first, same,
    same_option, starts_with, to_chars, trim_end, trimmed_end, with_first_replaced,
};
use crate::unicode::{lowercase, lowered, nfc, to_nfc};
use vstd::prelude::*;
use vstd::utf8::encode_utf8;

verus! {

/// The largest response that is read.
pub const MAX_KNOWLEDGE_RESPONSE_BYTES: usize = 1_048_576;

/// The largest text of a note, and the largest of all its names or tags together.
pub const MAX_KNOWLEDGE_STRING_BYTES: usize = 65_536;

/// The longest slug in the name of a note.
pub const MAX_KNOWLEDGE_SLUG_BYTES: usize = 96;

/// The version of what makes notes.
pub const KNOWLEDGE_PROCESSOR_VERSION: &'static str = "knowledge-v1";

/// The version of the prompt that notes are made with.
pub const KNOWLEDGE_PROMPT_VERSION: &'static str = "codex-knowledge-v1";

#[derive(Clone, Copy, Debug, PartialEq, Eq, Structural)]
pub enum ConceptKind {
    Definition,
    Formula,
    Concept,
    Result,
    Theorem,
}

#[derive(Clone, Copy, Debug, PartialEq, Eq, Structural)]
pub enum ReviewState {
    Unreviewed,
    Reviewed,
}

/// One thing that a note explains.
#[derive(Clone, Debug, PartialEq, Eq)]
pub struct Concept {
    pub id: String,
    pub name: String,
    pub kind: ConceptKind,
    pub body: String,
    pub tags: Vec<String>,
    pub locator: Option<String>,
}

#[verifier::ext_equal]
pub struct ConceptView {
    pub id: Seq<char>,
    pub name: Seq<char>,
    pub kind: ConceptKind,
    pub body: Seq<char>,
    pub tags: Seq<Seq<char>>,
    pub locator: Option<Seq<char>>,
}

impl DeepView for Concept {
    type V = ConceptView;

    open spec fn deep_view(&self) -> ConceptView {
        ConceptView {
            id: self.id@,
            name: self.name@,
            kind: self.kind,
            body: self.body@,
            tags: self.tags.deep_view(),
            locator: self.locator.deep_view(),
        }
    }
}

impl Concept {
    /// A copy that holds the same.
    pub(crate) fn duplicate(&self) -> (copy: Self)
        ensures
            copy.deep_view() == self.deep_view(),
    {
        Concept {
            id: self.id.clone(),
            name: self.name.clone(),
            kind: self.kind,
            body: self.body.clone(),
            tags: copy_list(&self.tags),
            locator: copy_option(&self.locator),
        }
    }
}

/// A concept before it has an ID.
#[derive(Clone, Debug, PartialEq, Eq)]
pub struct ConceptInput {
    pub name: String,
    pub kind: ConceptKind,
    pub body: String,
    pub tags: Vec<String>,
    pub locator: Option<String>,
}

#[verifier::ext_equal]
pub struct ConceptInputView {
    pub name: Seq<char>,
    pub kind: ConceptKind,
    pub body: Seq<char>,
    pub tags: Seq<Seq<char>>,
    pub locator: Option<Seq<char>>,
}

impl DeepView for ConceptInput {
    type V = ConceptInputView;

    open spec fn deep_view(&self) -> ConceptInputView {
        ConceptInputView {
            name: self.name@,
            kind: self.kind,
            body: self.body@,
            tags: self.tags.deep_view(),
            locator: self.locator.deep_view(),
        }
    }
}

impl ConceptInput {
    /// A copy that holds the same.
    pub(crate) fn duplicate(&self) -> (copy: Self)
        ensures
            copy.deep_view() == self.deep_view(),
    {
        ConceptInput {
            name: self.name.clone(),
            kind: self.kind,
            body: self.body.clone(),
            tags: copy_list(&self.tags),
            locator: copy_option(&self.locator),
        }
    }
}

/// What a note is made of.
#[derive(Clone, Debug, PartialEq, Eq)]
pub struct KnowledgeResponse {
    pub synthesis: String,
    pub concepts: Vec<ConceptInput>,
}

#[verifier::ext_equal]
pub struct KnowledgeResponseView {
    pub synthesis: Seq<char>,
    pub concepts: Seq<ConceptInputView>,
}

impl DeepView for KnowledgeResponse {
    type V = KnowledgeResponseView;

    open spec fn deep_view(&self) -> KnowledgeResponseView {
        KnowledgeResponseView {
            synthesis: self.synthesis@,
            concepts: self.concepts.deep_view(),
        }
    }
}

#[derive(Clone, Debug, PartialEq, Eq)]
pub struct KnowledgeReview {
    pub status: ReviewState,
    pub reviewed_at: Option<Timestamp>,
}

#[verifier::ext_equal]
pub struct KnowledgeReviewView {
    pub status: ReviewState,
    pub reviewed_at: Option<Timestamp>,
}

impl DeepView for KnowledgeReview {
    type V = KnowledgeReviewView;

    open spec fn deep_view(&self) -> KnowledgeReviewView {
        KnowledgeReviewView {
            status: self.status,
            reviewed_at: self.reviewed_at,
        }
    }
}

impl KnowledgeReview {
    /// A copy that holds the same.
    pub(crate) fn duplicate(&self) -> (copy: Self)
        ensures
            copy.deep_view() == self.deep_view(),
    {
        KnowledgeReview {
            status: self.status,
            reviewed_at: self.reviewed_at,
        }
    }
}

#[derive(Clone, Debug, PartialEq, Eq)]
pub struct KnowledgeGeneration {
    pub processor_version: String,
    pub prompt_version: String,
    pub asset_fingerprint: String,
}

#[verifier::ext_equal]
pub struct KnowledgeGenerationView {
    pub processor_version: Seq<char>,
    pub prompt_version: Seq<char>,
    pub asset_fingerprint: Seq<char>,
}

impl DeepView for KnowledgeGeneration {
    type V = KnowledgeGenerationView;

    open spec fn deep_view(&self) -> KnowledgeGenerationView {
        KnowledgeGenerationView {
            processor_version: self.processor_version@,
            prompt_version: self.prompt_version@,
            asset_fingerprint: self.asset_fingerprint@,
        }
    }
}

impl KnowledgeGeneration {
    /// A copy that holds the same.
    pub(crate) fn duplicate(&self) -> (copy: Self)
        ensures
            copy.deep_view() == self.deep_view(),
    {
        KnowledgeGeneration {
            processor_version: self.processor_version.clone(),
            prompt_version: self.prompt_version.clone(),
            asset_fingerprint: self.asset_fingerprint.clone(),
        }
    }
}

/// The metadata of a note.
#[derive(Clone, Debug, PartialEq, Eq)]
pub struct KnowledgeRecord {
    pub id: String,
    pub record_type: String,
    pub schema_version: u32,
    pub asset_id: String,
    pub title: String,
    pub review: KnowledgeReview,
    pub content_revision: String,
    pub approved_revision: Option<String>,
    pub generation: KnowledgeGeneration,
    pub concepts: Vec<Concept>,
}

#[verifier::ext_equal]
pub struct KnowledgeRecordView {
    pub id: Seq<char>,
    pub record_type: Seq<char>,
    pub schema_version: u32,
    pub asset_id: Seq<char>,
    pub title: Seq<char>,
    pub review: KnowledgeReviewView,
    pub content_revision: Seq<char>,
    pub approved_revision: Option<Seq<char>>,
    pub generation: KnowledgeGenerationView,
    pub concepts: Seq<ConceptView>,
}

impl DeepView for KnowledgeRecord {
    type V = KnowledgeRecordView;

    open spec fn deep_view(&self) -> KnowledgeRecordView {
        KnowledgeRecordView {
            id: self.id@,
            record_type: self.record_type@,
            schema_version: self.schema_version,
            asset_id: self.asset_id@,
            title: self.title@,
            review: self.review.deep_view(),
            content_revision: self.content_revision@,
            approved_revision: self.approved_revision.deep_view(),
            generation: self.generation.deep_view(),
            concepts: self.concepts.deep_view(),
        }
    }
}

pub(crate) fn copy_concepts(concepts: &Vec<Concept>) -> (copy: Vec<Concept>)
    ensures
        copy.deep_view() == concepts.deep_view(),
{
    let ghost all = concepts.deep_view();
    let mut copy: Vec<Concept> = Vec::new();
    let mut i: usize = 0;
    assert(copy.deep_view() == all.take(0));
    while i < concepts.len()
        invariant
            i <= concepts.len(),
            all == concepts.deep_view(),
            copy.deep_view() == all.take(i as int),
        decreases concepts.len() - i,
    {
        let ghost before = copy.deep_view();
        let concept = concepts[i].duplicate();
        assert(all[i as int] == concept.deep_view());
        copy.push(concept);
        assert(copy.deep_view() == before.push(concept.deep_view()));
        assert(all.take(i + 1) == all.take(i as int).push(all[i as int]));
        i += 1;
    }
    assert(all.take(i as int) == all);
    copy
}

impl KnowledgeRecord {
    /// A copy that holds the same.
    pub(crate) fn duplicate(&self) -> (copy: Self)
        ensures
            copy.deep_view() == self.deep_view(),
    {
        KnowledgeRecord {
            id: self.id.clone(),
            record_type: self.record_type.clone(),
            schema_version: self.schema_version,
            asset_id: self.asset_id.clone(),
            title: self.title.clone(),
            review: self.review.duplicate(),
            content_revision: self.content_revision.clone(),
            approved_revision: copy_option(&self.approved_revision),
            generation: self.generation.duplicate(),
            concepts: copy_concepts(&self.concepts),
        }
    }
}

/// What a response is refused as.
pub open spec fn schema_failure(message: Seq<char>) -> ErrorView {
    error("semantic_schema_invalid"@, message)
}

fn schema_error(message: &str) -> (failure: MkoError)
    ensures
        failure.deep_view() == schema_failure(message@),
{
    MkoError::new("semantic_schema_invalid", message)
}

/// Refuses a response that is too large or could not be read; `parsed` is the response or
/// what its reader objected to.
pub fn parse_knowledge_response(len: usize, parsed: Result<KnowledgeResponse, String>) -> (result:
    Result<KnowledgeResponse, MkoError>)
    ensures
        outcome(result) == (if len > MAX_KNOWLEDGE_RESPONSE_BYTES {
            Err(schema_failure("knowledge response exceeds 1 MiB"@))
        } else {
            match parsed {
                Ok(response) => Ok(response.deep_view()),
                Err(detail) => Err(schema_failure("invalid knowledge response: "@ + detail@)),
            }
        }),
{
    if len > MAX_KNOWLEDGE_RESPONSE_BYTES {
        return Err(schema_error("knowledge response exceeds 1 MiB"));
    }
    match parsed {
        Ok(response) => Ok(response),
        Err(detail) => {
            let message = cat2("invalid knowledge response: ", detail.as_str());
            Err(schema_error(message.as_str()))
        },
    }
}

/// The canonical form of a text: line feeds for all line endings, and composed characters.
pub open spec fn canonical_text(text: Seq<char>) -> Seq<char> {
    nfc(line_feeds(text))
}

pub(crate) fn normalize_revision_string(text: &str) -> (normalized: String)
    ensures
        normalized@ == canonical_text(text@),
        canonical_text(normalized@) == normalized@,
{
    let fed = normalize_lf(text);
    let normalized = to_nfc(fed.as_str());
    proof {
        line_feeds_only(text@);
        line_feeds_stay(normalized@);
    }
    normalized
}

/// Too large for a note.
pub open spec fn is_oversized(text: Seq<char>) -> bool {
    encode_utf8(text).len() > MAX_KNOWLEDGE_STRING_BYTES
}

pub open spec fn oversized() -> ErrorView {
    schema_failure("normalized knowledge section exceeds 64 KiB"@)
}

fn validate_semantic_size(text: &str) -> (result: Result<(), MkoError>)
    ensures
        verdict(result) == (if is_oversized(text@) {
            Err(oversized())
        } else {
            Ok(())
        }),
{
    if byte_len(text) > MAX_KNOWLEDGE_STRING_BYTES {
        return Err(schema_error("normalized knowledge section exceeds 64 KiB"));
    }
    Ok(())
}

/// A text that is canonical and not too large.
pub open spec fn is_stable_text(text: Seq<char>) -> bool {
    canonical_text(text) == text && !is_oversized(text)
}

proof fn stable_tags_stay(tags: Seq<Seq<char>>, from: int)
    requires
        0 <= from <= tags.len(),
        forall|k: int| from <= k < tags.len() ==> is_stable_text(#[trigger] tags[k]),
    ensures
        canonical_tags(tags, from) == (tags, true),
    decreases tags.len() - from,
{
    if from < tags.len() {
        assert(is_stable_text(tags[from]));
        assert(tags.update(from, tags[from]) == tags);
        stable_tags_stay(tags, from + 1);
    }
}

/// A concept that is canonical as it stands.
pub open spec fn is_stable_concept(concept: ConceptInputView) -> bool {
    canonical_concept(concept) == (concept, Ok::<(), ErrorView>(()))
}

proof fn stable_concepts_stay(concepts: Seq<ConceptInputView>, from: int)
    requires
        0 <= from <= concepts.len(),
        forall|k: int| from <= k < concepts.len() ==> is_stable_concept(#[trigger] concepts[k]),
    ensures
        canonical_concepts(concepts, from) == (concepts, Ok::<(), ErrorView>(())),
    decreases concepts.len() - from,
{
    if from < concepts.len() {
        assert(is_stable_concept(concepts[from]));
        assert(concepts.update(from, concepts[from]) == concepts);
        stable_concepts_stay(concepts, from + 1);
    }
}

/// The tags from `from` on made canonical, up to the first that is too large.
pub open spec fn canonical_tags(tags: Seq<Seq<char>>, from: int) -> (Seq<Seq<char>>, bool)
    decreases tags.len() - from,
{
    if from >= tags.len() || from < 0 {
        (tags, true)
    } else {
        let tag = canonical_text(tags[from]);
        let updated = tags.update(from, tag);
        if is_oversized(tag) {
            (updated, false)
        } else {
            canonical_tags(updated, from + 1)
        }
    }
}

/// A concept made canonical, up to the first thing that is refused, and the refusal.
pub open spec fn canonical_concept(concept: ConceptInputView) -> (
    ConceptInputView,
    Result<(), ErrorView>,
) {
    let named = ConceptInputView { name: canonical_text(concept.name), ..concept };
    if is_oversized(named.name) {
        (named, Err(oversized()))
    } else if is_blank(named.name) || named.name.contains('\n') {
        (named, Err(schema_failure("concept name must be a non-empty single line"@)))
    } else {
        let bodied = ConceptInputView { body: canonical_text(concept.body), ..named };
        if is_oversized(bodied.body) {
            (bodied, Err(oversized()))
        } else if is_blank(bodied.body) {
            (bodied, Err(schema_failure("concept body must not be empty"@)))
        } else {
            let (tags, fits) = canonical_tags(concept.tags, 0);
            let tagged = ConceptInputView { tags, ..bodied };
            if !fits {
                (tagged, Err(oversized()))
            } else {
                match concept.locator {
                    None => (tagged, Ok(())),
                    Some(locator) => {
                        let located = ConceptInputView {
                            locator: Some(canonical_text(locator)),
                            ..tagged
                        };
                        if is_oversized(canonical_text(locator)) {
                            (located, Err(oversized()))
                        } else {
                            (located, Ok(()))
                        }
                    },
                }
            }
        }
    }
}

/// The concepts from `from` on made canonical, up to the first that is refused.
pub open spec fn canonical_concepts(concepts: Seq<ConceptInputView>, from: int) -> (
    Seq<ConceptInputView>,
    Result<(), ErrorView>,
)
    decreases concepts.len() - from,
{
    if from >= concepts.len() || from < 0 {
        (concepts, Ok(()))
    } else {
        let (concept, result) = canonical_concept(concepts[from]);
        let updated = concepts.update(from, concept);
        match result {
            Err(failure) => (updated, Err(failure)),
            Ok(_) => canonical_concepts(updated, from + 1),
        }
    }
}

/// The names of the concepts, one to a line.
pub open spec fn joined_names(concepts: Seq<ConceptInputView>) -> Seq<char> {
    join(concepts.map_values(|concept: ConceptInputView| concept.name), "\n"@)
}

/// All the tags of the concepts.
pub open spec fn all_tags(concepts: Seq<ConceptInputView>) -> Seq<Seq<char>>
    decreases concepts.len(),
{
    if concepts.len() == 0 {
        Seq::empty()
    } else {
        all_tags(concepts.drop_last()) + concepts.last().tags
    }
}

/// The bound on all the names and on all the tags together.
pub open spec fn totals_check(concepts: Seq<ConceptInputView>) -> Result<(), ErrorView> {
    if is_oversized(joined_names(concepts)) || is_oversized(join(all_tags(concepts), "\n"@)) {
        Err(oversized())
    } else {
        Ok(())
    }
}

/// Concepts made canonical, up to the first thing that is refused, and the refusal.
pub open spec fn checked_concepts(concepts: Seq<ConceptInputView>) -> (
    Seq<ConceptInputView>,
    Result<(), ErrorView>,
) {
    let (made, result) = canonical_concepts(concepts, 0);
    match result {
        Err(failure) => (made, Err(failure)),
        Ok(_) => (made, totals_check(made)),
    }
}

/// A response made canonical, up to the first thing that is refused, and the refusal.
pub open spec fn canonical_response(response: KnowledgeResponseView) -> (
    KnowledgeResponseView,
    Result<(), ErrorView>,
) {
    let told = KnowledgeResponseView { synthesis: canonical_text(response.synthesis), ..response };
    if is_oversized(told.synthesis) {
        (told, Err(oversized()))
    } else if is_blank(told.synthesis) {
        (told, Err(schema_failure("synthesis must not be empty"@)))
    } else {
        let (concepts, result) = checked_concepts(response.concepts);
        (KnowledgeResponseView { concepts, ..told }, result)
    }
}

fn normalize_tags(tags: &mut Vec<String>) -> (fits: bool)
    ensures
        (final(tags).deep_view(), fits) == canonical_tags(old(tags).deep_view(), 0),
        fits ==> canonical_tags(final(tags).deep_view(), 0) == (final(tags).deep_view(), true),
{
    let ghost start = tags.deep_view();
    let mut i: usize = 0;
    while i < tags.len()
        invariant
            i <= tags.len(),
            start == old(tags).deep_view(),
            canonical_tags(start, 0) == canonical_tags(tags.deep_view(), i as int),
            forall|k: int| 0 <= k < i ==> is_stable_text(#[trigger] tags.deep_view()[k]),
        decreases tags.len() - i,
    {
        let ghost before = tags.deep_view();
        let tag = normalize_revision_string(tags[i].as_str());
        assert(before[i as int] == tags@[i as int]@);
        let oversize = byte_len(tag.as_str()) > MAX_KNOWLEDGE_STRING_BYTES;
        let ghost told = tag@;
        tags.set(i, tag);
        assert(tags.deep_view() == before.update(i as int, told));
        if oversize {
            return false;
        }
        i += 1;
    }
    proof {
        stable_tags_stay(tags.deep_view(), 0);
    }
    true
}

fn normalize_concept(concept: &ConceptInput) -> (result: (ConceptInput, Result<(), MkoError>))
    ensures
        (result.0.deep_view(), verdict(result.1)) == canonical_concept(concept.deep_view()),
        result.1 is Ok ==> is_stable_concept(result.0.deep_view()),
{
    let mut told = concept.duplicate();
    told.name = normalize_revision_string(concept.name.as_str());
    match validate_semantic_size(told.name.as_str()) {
        Ok(_) => {},
        Err(failure) => {
            return (told, Err(failure));
        },
    }
    if blank(told.name.as_str()) || contains_char(told.name.as_str(), '\n') {
        return (told, Err(schema_error("concept name must be a non-empty single line")));
    }
    told.body = normalize_revision_string(concept.body.as_str());
    match validate_semantic_size(told.body.as_str()) {
        Ok(_) => {},
        Err(failure) => {
            return (told, Err(failure));
        },
    }
    if blank(told.body.as_str()) {
        return (told, Err(schema_error("concept body must not be empty")));
    }
    let mut tags = copy_list(&concept.tags);
    let fits = normalize_tags(&mut tags);
    told.tags = tags;
    if !fits {
        return (told, Err(schema_error("normalized knowledge section exceeds 64 KiB")));
    }
    match &concept.locator {
        None => (told, Ok(())),
        Some(locator) => {
            let located = normalize_revision_string(locator.as_str());
            let size = validate_semantic_size(located.as_str());
            told.locator = Some(located);
            (told, size)
        },
    }
}

fn tags_of(concepts: &Vec<ConceptInput>) -> (tags: Vec<String>)
    ensures
        tags.deep_view() == all_tags(concepts.deep_view()),
{
    let ghost all = concepts.deep_view();
    let mut tags: Vec<String> = Vec::new();
    let mut i: usize = 0;
    assert(tags.deep_view() == all_tags(all.take(0)));
    while i < concepts.len()
        invariant
            i <= concepts.len(),
            all == concepts.deep_view(),
            tags.deep_view() == all_tags(all.take(i as int)),
        decreases concepts.len() - i,
    {
        let ghost before = tags.deep_view();
        assert(all.take(i + 1).drop_last() == all.take(i as int));
        assert(all.take(i + 1).last() == concepts@[i as int].deep_view());
        let more = &concepts[i].tags;
        let ghost found = more.deep_view();
        let mut k: usize = 0;
        assert(before + found.take(0) == before);
        while k < more.len()
            invariant
                k <= more.len(),
                found == more.deep_view(),
                tags.deep_view() == before + found.take(k as int),
            decreases more.len() - k,
        {
            let ghost earlier = tags.deep_view();
            tags.push(more[k].clone());
            assert(found[k as int] == more@[k as int]@);
            assert(tags.deep_view() == earlier.push(found[k as int]));
            assert(found.take(k + 1) == found.take(k as int).push(found[k as int]));
            k += 1;
        }
        assert(found.take(k as int) == found);
        i += 1;
    }
    assert(all.take(i as int) == all);
    tags
}

fn names_of_concepts(concepts: &Vec<ConceptInput>) -> (names: Vec<String>)
    ensures
        names.deep_view() == concepts.deep_view().map_values(
            |concept: ConceptInputView| concept.name,
        ),
{
    let ghost all = concepts.deep_view();
    let ghost named = all.map_values(|concept: ConceptInputView| concept.name);
    let mut names: Vec<String> = Vec::new();
    let mut i: usize = 0;
    assert(names.deep_view() == named.take(0));
    while i < concepts.len()
        invariant
            i <= concepts.len(),
            all == concepts.deep_view(),
            named == all.map_values(|concept: ConceptInputView| concept.name),
            names.deep_view() == named.take(i as int),
        decreases concepts.len() - i,
    {
        let ghost before = names.deep_view();
        names.push(concepts[i].name.clone());
        assert(all[i as int] == concepts@[i as int].deep_view());
        assert(names.deep_view() == before.push(named[i as int]));
        assert(named.take(i + 1) == named.take(i as int).push(named[i as int]));
        i += 1;
    }
    assert(named.take(i as int) == named);
    names
}

fn validate_aggregate_knowledge_limits(concepts: &Vec<ConceptInput>) -> (result: Result<(), MkoError>)
    ensures
        verdict(result) == totals_check(concepts.deep_view()),
{
    let names = names_of_concepts(concepts);
    let names_joined = join_texts(&names, "\n");
    match validate_semantic_size(names_joined.as_str()) {
        Ok(_) => {},
        Err(failure) => {
            return Err(failure);
        },
    }
    let tags = tags_of(concepts);
    let tags_joined = join_texts(&tags, "\n");
    validate_semantic_size(tags_joined.as_str())
}

fn normalize_concepts(concepts: &mut Vec<ConceptInput>) -> (result: Result<(), MkoError>)
    ensures
        (final(concepts).deep_view(), verdict(result)) == checked_concepts(
            old(concepts).deep_view(),
        ),
        result is Ok ==> checked_concepts(final(concepts).deep_view()) == (
            final(concepts).deep_view(),
            Ok::<(), ErrorView>(()),
        ),
{
    let ghost start = concepts.deep_view();
    let mut i: usize = 0;
    while i < concepts.len()
        invariant
            i <= concepts.len(),
            start == old(concepts).deep_view(),
            forall|k: int| 0 <= k < i ==> is_stable_concept(#[trigger] concepts.deep_view()[k]),
            canonical_concepts(start, 0) == canonical_concepts(concepts.deep_view(), i as int),
        decreases concepts.len() - i,
    {
        let ghost before = concepts.deep_view();
        let (concept, result) = normalize_concept(&concepts[i]);
        assert(before[i as int] == concepts@[i as int].deep_view());
        let ghost made = concept.deep_view();
        concepts.set(i, concept);
        assert(concepts.deep_view() == before.update(i as int, made));
        match result {
            Ok(_) => {},
            Err(failure) => {
                return Err(failure);
            },
        }
        i += 1;
    }
    proof {
        stable_concepts_stay(concepts.deep_view(), 0);
    }
    validate_aggregate_knowledge_limits(concepts)
}

/// Makes a response canonical. What is refused stays as far as it was made canonical, and
/// what is accepted stays as it is when it is made canonical again.
pub fn normalize_and_validate_knowledge(response: &mut KnowledgeResponse) -> (result: Result<
    (),
    MkoError,
>)
    ensures
        (final(response).deep_view(), verdict(result)) == canonical_response(
            old(response).deep_view(),
        ),
        result is Ok ==> canonical_response(final(response).deep_view()) == (
            final(response).deep_view(),
            Ok::<(), ErrorView>(()),
        ),
{
    let synthesis = normalize_revision_string(response.synthesis.as_str());
    let size = validate_semantic_size(synthesis.as_str());
    let empty = blank(synthesis.as_str());
    response.synthesis = synthesis;
    match size {
        Ok(_) => {},
        Err(failure) => {
            return Err(failure);
        },
    }
    if empty {
        return Err(schema_error("synthesis must not be empty"));
    }
    normalize_concepts(&mut response.concepts)
}

/// The `number`-th name that a concept may take: the slug of its name, then the slug with a
/// number behind it, from two on.
pub open spec fn id_candidate(base: Seq<char>, number: nat) -> Seq<char> {
    if number == 0 {
        base
    } else {
        base + "-"@ + decimal_digits(number + 1)
    }
}

/// The first name that is not taken.
pub open spec fn is_first_free(used: Seq<Seq<char>>, base: Seq<char>, number: nat) -> bool {
    &&& !used.contains(id_candidate(base, number))
    &&& forall|k: nat| k < number ==> used.contains(#[trigger] id_candidate(base, k))
}

/// The slug of a concept whose name is in lowercase.
pub open spec fn lowercase_slug(name: Seq<char>) -> Seq<char> {
    let slug = slug_of(name);
    if slug.len() == 0 {
        "concept"@
    } else {
        slug
    }
}

/// The slug of a concept.
pub open spec fn concept_slug(name: Seq<char>) -> Seq<char> {
    lowercase_slug(lowercase(name))
}

/// The IDs of concepts with these names: of each the first that no earlier one has.
pub open spec fn concept_ids(names: Seq<Seq<char>>) -> Seq<Seq<char>>
    decreases names.len(),
{
    if names.len() == 0 {
        Seq::empty()
    } else {
        let used = concept_ids(names.drop_last());
        let base = concept_slug(names.last());
        used.push(id_candidate(base, choose|number: nat| is_first_free(used, base, number)))
    }
}

/// A concept with its ID.
pub open spec fn identified(input: ConceptInputView, id: Seq<char>) -> ConceptView {
    ConceptView {
        id,
        name: input.name,
        kind: input.kind,
        body: input.body,
        tags: input.tags,
        locator: input.locator,
    }
}

/// The names of inputs.
pub open spec fn input_names(inputs: Seq<ConceptInputView>) -> Seq<Seq<char>> {
    inputs.map_values(|input: ConceptInputView| input.name)
}

/// The concepts of a note.
pub open spec fn identified_concepts(inputs: Seq<ConceptInputView>) -> Seq<ConceptView> {
    Seq::new(
        inputs.len(),
        |i: int| identified(inputs[i], concept_ids(input_names(inputs))[i]),
    )
}

fn slugify_concept(name: &str) -> (slug: String)
    ensures
        slug@ == concept_slug(name@),
{
    slug_of_lowercase(lowered(name).as_str())
}

/// The slug of a concept whose name is in lowercase.
pub fn slug_of_lowercase(name: &str) -> (slug: String)
    ensures
        slug@ == lowercase_slug(name@),
{
    let slug = slugify(name);
    if slug.as_str().is_empty() {
        "concept".to_owned()
    } else {
        slug
    }
}

proof fn digit_value(digit: int)
    requires
        0 <= digit < 10,
    ensures
        (('0' as u32 + digit) as char) as u32 - '0' as u32 == digit,
{
}

/// The digits of a number have its value.
pub proof fn value_of_digits(n: nat)
    ensures
        digits_value(decimal_digits(n)) == n,
    decreases n,
{
    let digit = ('0' as u32 + n % 10) as char;
    digit_value((n % 10) as int);
    if n < 10 {
        assert(decimal_digits(n) == seq![digit]);
        assert(seq![digit].drop_last() == Seq::<char>::empty());
        assert(digits_value(seq![digit].drop_last()) == 0);
    } else {
        value_of_digits(n / 10);
        assert(decimal_digits(n) == decimal_digits(n / 10).push(digit));
        assert(decimal_digits(n).drop_last() == decimal_digits(n / 10));
    }
}

proof fn candidates_differ(base: Seq<char>, j: nat, k: nat)
    requires
        j != k,
    ensures
        id_candidate(base, j) != id_candidate(base, k),
{
    reveal_strlit("-");
    if j != 0 && k != 0 {
        value_of_digits(j + 1);
        value_of_digits(k + 1);
        let front = base + "-"@;
        if id_candidate(base, j) == id_candidate(base, k) {
            assert((front + decimal_digits(j + 1)).skip(front.len() as int) == decimal_digits(
                j + 1,
            ));
            assert((front + decimal_digits(k + 1)).skip(front.len() as int) == decimal_digits(
                k + 1,
            ));
            assert(false);
        }
    } else {
        let number = if j == 0 { k } else { j };
        assert(id_candidate(base, number).len() > base.len());
    }
}

/// Taken names run out: among the first so many candidates one is free.
proof fn taken_candidates_are_few(used: Seq<Seq<char>>, base: Seq<char>, number: nat)
    requires
        forall|k: nat| k < number ==> used.contains(#[trigger] id_candidate(base, k)),
    ensures
        number <= used.len(),
{
    let taken = Seq::new(number, |k: int| id_candidate(base, k as nat));
    assert(taken.no_duplicates()) by {
        assert forall|i: int, j: int|
            0 <= i < taken.len() && 0 <= j < taken.len() && i != j implies taken[i] != taken[j] by {
            candidates_differ(base, i as nat, j as nat);
        }
    }
    taken.unique_seq_to_set();
    used.lemma_cardinality_of_set();
    assert(taken.to_set().subset_of(used.to_set())) by {
        assert forall|id: Seq<char>| taken.to_set().contains(id) implies used.to_set().contains(
            id,
        ) by {
            let k = choose|k: int| 0 <= k < taken.len() && taken[k] == id;
            assert(used.contains(id_candidate(base, k as nat)));
        }
    }
    vstd::set_lib::lemma_len_subset(taken.to_set(), used.to_set());
}

proof fn first_free_is_unique(used: Seq<Seq<char>>, base: Seq<char>, number: nat)
    requires
        is_first_free(used, base, number),
    ensures
        number == choose|k: nat| is_first_free(used, base, k),
{
    let picked = choose|k: nat| is_first_free(used, base, k);
    if picked < number {
        assert(used.contains(id_candidate(base, picked)));
    } else if number < picked {
        assert(used.contains(id_candidate(base, number)));
    }
}

fn is_used(used: &Vec<String>, id: &str) -> (found: bool)
    ensures
        found == used.deep_view().contains(id@),
{
    let ghost all = used.deep_view();
    let mut i: usize = 0;
    while i < used.len()
        invariant
            i <= used.len(),
            all == used.deep_view(),
            forall|k: int| 0 <= k < i ==> all[k] != id@,
        decreases used.len() - i,
    {
        assert(all[i as int] == used@[i as int]@);
        if same(used[i].as_str(), id) {
            return true;
        }
        i += 1;
    }
    false
}

fn free_id(used: &Vec<String>, base: &str) -> (id: String)
    requires
        used@.len() < usize::MAX,
    ensures
        id@ == id_candidate(
            base@,
            choose|number: nat| is_first_free(used.deep_view(), base@, number),
        ),
{
    let ghost all = used.deep_view();
    let mut candidate = base.to_owned();
    let mut number: u64 = 0;
    while is_used(used, candidate.as_str())
        invariant
            all == used.deep_view(),
            used@.len() < usize::MAX,
            candidate@ == id_candidate(base@, number as nat),
            number <= used.len(),
            forall|k: nat| k < number ==> all.contains(#[trigger] id_candidate(base@, k)),
        decreases used.len() - number,
    {
        proof {
            taken_candidates_are_few(all, base@, (number + 1) as nat);
        }
        number = number + 1;
        let digits = decimal(number + 1);
        candidate = cat3(base, "-", digits.as_str());
    }
    proof {
        first_free_is_unique(all, base@, number as nat);
    }
    candidate
}

pub(crate) fn assign_concept_ids(inputs: &Vec<ConceptInput>) -> (concepts: Vec<Concept>)
    ensures
        concepts.deep_view() == identified_concepts(inputs.deep_view()),
{
    let ghost all = inputs.deep_view();
    let ghost names = input_names(all);
    let ghost ids = concept_ids(names);
    let ghost wanted = identified_concepts(all);
    let mut used: Vec<String> = Vec::new();
    let mut concepts: Vec<Concept> = Vec::new();
    let mut i: usize = 0;
    assert(names.take(0) == Seq::<Seq<char>>::empty());
    assert(used.deep_view() == Seq::<Seq<char>>::empty());
    assert(concepts.deep_view() == wanted.take(0));
    while i < inputs.len()
        invariant
            i <= inputs.len(),
            all == inputs.deep_view(),
            names == input_names(all),
            ids == concept_ids(names),
            wanted == identified_concepts(all),
            used.deep_view() == concept_ids(names.take(i as int)),
            concepts.deep_view() == wanted.take(i as int),
        decreases inputs.len() - i,
    {
        let ghost before = concepts.deep_view();
        let ghost taken = used.deep_view();
        proof {
            ids_have_names(names.take(i as int));
        }
        let input = &inputs[i];
        assert(all[i as int] == input.deep_view());
        assert(names.take(i + 1).drop_last() == names.take(i as int));
        assert(names.take(i + 1).last() == input.name@);
        let base = slugify_concept(input.name.as_str());
        let id = free_id(&used, base.as_str());
        let ghost picked = id@;
        let concept = Concept {
            id: id.clone(),
            name: input.name.clone(),
            kind: input.kind,
            body: input.body.clone(),
            tags: copy_list(&input.tags),
            locator: copy_option(&input.locator),
        };
        used.push(id);
        proof {
            assert(used.deep_view() == taken.push(picked));
            ids_grow(names, i + 1);
            ids_have_names(names.take(i + 1));
            ids_have_names(names);
            assert(ids[i as int] == concept_ids(names.take(i + 1))[i as int]);
            assert(concept.deep_view() == wanted[i as int]);
        }
        concepts.push(concept);
        assert(concepts.deep_view() == before.push(concept.deep_view()));
        assert(wanted.take(i + 1) == wanted.take(i as int).push(wanted[i as int]));
        i += 1;
    }
    assert(wanted.take(i as int) == wanted);
    concepts
}

proof fn ids_have_names(names: Seq<Seq<char>>)
    ensures
        concept_ids(names).len() == names.len(),
    decreases names.len(),
{
    if names.len() > 0 {
        ids_have_names(names.drop_last());
    }
}

proof fn ids_grow(names: Seq<Seq<char>>, n: int)
    requires
        0 <= n <= names.len(),
    ensures
        concept_ids(names.take(n)) == concept_ids(names).take(n),
    decreases names.len(),
{
    ids_have_names(names);
    if n == names.len() {
        assert(names.take(n) == names);
        assert(concept_ids(names).take(n) == concept_ids(names));
    } else {
        ids_grow(names.drop_last(), n);
        ids_have_names(names.drop_last());
        assert(names.drop_last().take(n) == names.take(n));
        assert(concept_ids(names).take(n) == concept_ids(names.drop_last()).take(n));
    }
}

/// Some candidate is always free.
pub(crate) proof fn a_candidate_is_free(used: Seq<Seq<char>>, base: Seq<char>, number: nat)
    requires
        forall|k: nat| k < number ==> used.contains(#[trigger] id_candidate(base, k)),
    ensures
        exists|k: nat| is_first_free(used, base, k),
    decreases used.len() + 1 - number,
{
    taken_candidates_are_few(used, base, number);
    if used.contains(id_candidate(base, number)) {
        taken_candidates_are_few(used, base, number + 1);
        a_candidate_is_free(used, base, number + 1);
    } else {
        assert(is_first_free(used, base, number));
    }
}

/// No two concepts of a note share an ID.
pub proof fn concept_ids_are_unique(names: Seq<Seq<char>>)
    ensures
        concept_ids(names).len() == names.len(),
        concept_ids(names).no_duplicates(),
    decreases names.len(),
{
    ids_have_names(names);
    if names.len() > 0 {
        let used = concept_ids(names.drop_last());
        let base = concept_slug(names.last());
        concept_ids_are_unique(names.drop_last());
        a_candidate_is_free(used, base, 0);
        let number = choose|number: nat| is_first_free(used, base, number);
        assert(is_first_free(used, base, number));
        let ids = concept_ids(names);
        assert forall|i: int, j: int|
            0 <= i < ids.len() && 0 <= j < ids.len() && i != j implies ids[i] != ids[j] by {
            if i < used.len() && j < used.len() {
            } else if i < used.len() {
                assert(used.contains(used[i]));
            } else {
                assert(used.contains(used[j]));
            }
        }
    }
}

/// A space or a tab.
pub open spec fn is_pad(c: char) -> bool {
    c == ' ' || c == '\t'
}

/// How many spaces and tabs a line starts with.
pub open spec fn indent_of(line: Seq<char>) -> nat
    decreases line.len(),
{
    if line.len() > 0 && is_pad(line[0]) {
        1 + indent_of(line.drop_first())
    } else {
        0
    }
}

/// The text without the spaces and tabs at its end.
pub open spec fn without_final_pad(text: Seq<char>) -> Seq<char>
    decreases text.len(),
{
    if text.len() > 0 && is_pad(text.last()) {
        without_final_pad(text.drop_last())
    } else {
        text
    }
}

/// A text of this one character.
pub open spec fn is_all(text: Seq<char>, c: char) -> bool {
    forall|i: int| 0 <= i < text.len() ==> #[trigger] text[i] == c
}

/// What Markdown would read as structure: a heading, a fence or a rule.
pub open spec fn is_structure(text: Seq<char>) -> bool {
    &&& text.len() > 0
    &&& text[0] == '#' || "```"@.is_prefix_of(text) || "~~~"@.is_prefix_of(text) || is_all(
        text,
        '=',
    ) || is_all(text, '-')
}

/// A line of a section: what would be structure is escaped behind its indent.
pub open spec fn section_line(line: Seq<char>) -> Seq<char> {
    let indent = indent_of(line) as int;
    let content = line.skip(indent);
    if is_structure(without_final_pad(content)) {
        line.take(indent) + "\\"@ + content
    } else {
        line
    }
}

/// A text as it stands in a section.
pub open spec fn section_text(text: Seq<char>) -> Seq<char> {
    join(lines(text).map_values(|line: Seq<char>| section_line(line)), "\n"@)
}

proof fn indent_in_line(line: Seq<char>)
    ensures
        indent_of(line) <= line.len(),
    decreases line.len(),
{
    if line.len() > 0 && is_pad(line[0]) {
        indent_in_line(line.drop_first());
    }
}

fn indent_len(line: &str) -> (indent: usize)
    ensures
        indent == indent_of(line@),
        indent <= line@.len(),
{
    let chars = to_chars(line);
    let mut i: usize = 0;
    assert(chars@.skip(0) == line@);
    while i < chars.len() && (chars[i] == ' ' || chars[i] == '\t')
        invariant
            i <= chars.len(),
            chars@ == line@,
            indent_of(line@) == i + indent_of(chars@.skip(i as int)),
        decreases chars.len() - i,
    {
        assert(chars@.skip(i as int)[0] == chars@[i as int]);
        assert(chars@.skip(i as int).drop_first() == chars@.skip(i + 1));
        i += 1;
    }
    assert(i < chars.len() ==> chars@.skip(i as int)[0] == chars@[i as int]);
    i
}

fn trim_pad<'a>(text: &'a str) -> (rest: &'a str)
    ensures
        rest@ == without_final_pad(text@),
{
    let mut end: usize = text.unicode_len();
    assert(text@.take(end as int) == text@);
    while end > 0 && (text.get_char(end - 1) == ' ' || text.get_char(end - 1) == '\t')
        invariant
            end <= text@.len(),
            without_final_pad(text@) == without_final_pad(text@.take(end as int)),
        decreases end,
    {
        assert(text@.take(end as int).drop_last() == text@.take(end - 1));
        end -= 1;
    }
    let rest = text.substring_char(0, end);
    assert(rest@ == text@.take(end as int));
    rest
}

fn has_only(text: &str, wanted: char) -> (result: bool)
    ensures
        result == is_all(text@, wanted),
{
    let chars = to_chars(text);
    let mut i: usize = 0;
    while i < chars.len()
        invariant
            i <= chars.len(),
            chars@ == text@,
            forall|k: int| 0 <= k < i ==> #[trigger] text@[k] == wanted,
        decreases chars.len() - i,
    {
        if chars[i] != wanted {
            assert(text@[i as int] != wanted);
            return false;
        }
        i += 1;
    }
    true
}

fn canonical_section_line(line: &str) -> (result: String)
    ensures
        result@ == section_line(line@),
{
    let indent = indent_len(line);
    let len: usize = line.unicode_len();
    let content = line.substring_char(indent, len);
    assert(content@ == line@.skip(indent as int));
    let structural = trim_pad(content);
    let is_structural = !structural.is_empty() && (structural.get_char(0) == '#' || starts_with(
        structural,
        "```",
    ) || starts_with(structural, "~~~") || has_only(structural, '=') || has_only(structural, '-'));
    if is_structural {
        let front = line.substring_char(0, indent);
        assert(front@ == line@.take(indent as int));
        cat3(front, "\\", content)
    } else {
        line.to_owned()
    }
}

pub(crate) fn canonical_section_text(text: &str) -> (result: String)
    ensures
        result@ == section_text(text@),
{
    let all = lines_of(text);
    let ghost views = all.deep_view();
    let ghost told = views.map_values(|line: Seq<char>| section_line(line));
    let mut made: Vec<String> = Vec::new();
    let mut i: usize = 0;
    assert(made.deep_view() == told.take(0));
    while i < all.len()
        invariant
            i <= all.len(),
            views == all.deep_view(),
            told == views.map_values(|line: Seq<char>| section_line(line)),
            made.deep_view() == told.take(i as int),
        decreases all.len() - i,
    {
        let ghost before = made.deep_view();
        let line = canonical_section_line(all[i].as_str());
        assert(views[i as int] == all@[i as int]@);
        made.push(line);
        assert(made.deep_view() == before.push(told[i as int]));
        assert(told.take(i + 1) == told.take(i as int).push(told[i as int]));
        i += 1;
    }
    assert(told.take(i as int) == told);
    join_texts(&made, "\n")
}

/// What a kind is called.
pub open spec fn kind_label(kind: ConceptKind) -> Seq<char> {
    match kind {
        ConceptKind::Definition => "definition"@,
        ConceptKind::Formula => "formula"@,
        ConceptKind::Concept => "concept"@,
        ConceptKind::Result => "result"@,
        ConceptKind::Theorem => "theorem"@,
    }
}

pub(crate) fn concept_kind_label(kind: ConceptKind) -> (label: &'static str)
    ensures
        label@ == kind_label(kind),
{
    match kind {
        ConceptKind::Definition => "definition",
        ConceptKind::Formula => "formula",
        ConceptKind::Concept => "concept",
        ConceptKind::Result => "result",
        ConceptKind::Theorem => "theorem",
    }
}

/// A concept in the body of a note.
pub open spec fn concept_section(concept: ConceptInputView) -> Seq<char> {
    "### "@ + section_text(concept.name) + "  \u{b7}  "@ + kind_label(concept.kind) + (
    match concept.locator {
        Some(locator) => "  \u{b7}  "@ + section_text(locator),
        None => Seq::empty(),
    }) + "\n"@ + section_text(concept.body) + "\n"@
}

/// The concepts in the body of a note, with an empty line between them.
pub open spec fn concept_sections(concepts: Seq<ConceptInputView>) -> Seq<char>
    decreases concepts.len(),
{
    if concepts.len() == 0 {
        Seq::empty()
    } else if concepts.len() == 1 {
        concept_section(concepts[0])
    } else {
        concept_sections(concepts.drop_last()) + "\n"@ + concept_section(concepts.last())
    }
}

/// The body of a note.
pub open spec fn note_body(title: Seq<char>, response: KnowledgeResponseView) -> Seq<char> {
    canonical_text(
        "# "@ + section_text(title) + " \u{2014} Knowledge\n\n## Synthesis\n"@ + section_text(
            response.synthesis,
        ) + "\n\n## Concepts\n"@ + (if response.concepts.len() == 0 {
            "_No concepts extracted._\n"@
        } else {
            concept_sections(response.concepts)
        }),
    )
}

fn render_concept(concept: &ConceptInput) -> (text: String)
    ensures
        text@ == concept_section(concept.deep_view()),
{
    let name = canonical_section_text(concept.name.as_str());
    let body = canonical_section_text(concept.body.as_str());
    let locator = match &concept.locator {
        Some(locator) => {
            let told = canonical_section_text(locator.as_str());
            cat2("  \u{b7}  ", told.as_str())
        },
        None => String::new(),
    };
    assert(locator@ == (match concept.deep_view().locator {
        Some(locator) => "  \u{b7}  "@ + section_text(locator),
        None => Seq::empty(),
    }));
    let head = cat5(
        "### ",
        name.as_str(),
        "  \u{b7}  ",
        concept_kind_label(concept.kind),
        locator.as_str(),
    );
    cat4(head.as_str(), "\n", body.as_str(), "\n")
}

fn render_concepts(concepts: &Vec<ConceptInput>) -> (text: String)
    ensures
        text@ == concept_sections(concepts.deep_view()),
{
    let ghost all = concepts.deep_view();
    let mut text = String::new();
    let mut i: usize = 0;
    assert(all.take(0) == Seq::<ConceptInputView>::empty());
    while i < concepts.len()
        invariant
            i <= concepts.len(),
            all == concepts.deep_view(),
            text@ == concept_sections(all.take(i as int)),
        decreases concepts.len() - i,
    {
        assert(all.take(i + 1).drop_last() == all.take(i as int));
        assert(all.take(i + 1).last() == concepts@[i as int].deep_view());
        let section = render_concept(&concepts[i]);
        if i > 0 {
            text = cat3(text.as_str(), "\n", section.as_str());
        } else {
            text = section;
        }
        i += 1;
    }
    assert(all.take(i as int) == all);
    text
}

pub(crate) fn render_knowledge_body(title: &str, response: &KnowledgeResponse) -> (body: String)
    ensures
        body@ == note_body(title@, response.deep_view()),
{
    let concepts = if response.concepts.len() == 0 {
        "_No concepts extracted._\n".to_owned()
    } else {
        render_concepts(&response.concepts)
    };
    let heading = canonical_section_text(title);
    let synthesis = canonical_section_text(response.synthesis.as_str());
    let head = cat4(
        "# ",
        heading.as_str(),
        " \u{2014} Knowledge\n\n## Synthesis\n",
        synthesis.as_str(),
    );
    let whole = cat3(head.as_str(), "\n\n## Concepts\n", concepts.as_str());
    normalize_revision_string(whole.as_str())
}

/// The lines without the empty ones at the end.
pub open spec fn without_final_empty(all: Seq<Seq<char>>) -> Seq<Seq<char>>
    decreases all.len(),
{
    if all.len() > 0 && all.last().len() == 0 {
        without_final_empty(all.drop_last())
    } else {
        all
    }
}

/// The body as a revision sees it: without white space at the end of lines, and without
/// empty lines at the end.
pub open spec fn revision_body(body: Seq<char>) -> Seq<char> {
    let kept = without_final_empty(
        lines(line_feeds(body)).map_values(|line: Seq<char>| trim_end(line)),
    );
    if kept.len() == 0 {
        Seq::empty()
    } else {
        nfc(join(kept, "\n"@) + "\n"@)
    }
}

pub(crate) fn normalize_revision_body(body: &str) -> (normalized: String)
    ensures
        normalized@ == revision_body(body@),
{
    let fed = normalize_lf(body);
    let all = lines_of(fed.as_str());
    let ghost views = all.deep_view();
    let ghost ended = views.map_values(|line: Seq<char>| trim_end(line));
    let mut kept: Vec<String> = Vec::new();
    let mut i: usize = 0;
    assert(kept.deep_view() == ended.take(0));
    while i < all.len()
        invariant
            i <= all.len(),
            views == all.deep_view(),
            ended == views.map_values(|line: Seq<char>| trim_end(line)),
            kept.deep_view() == ended.take(i as int),
        decreases all.len() - i,
    {
        let ghost before = kept.deep_view();
        let line = trimmed_end(all[i].as_str()).to_owned();
        assert(views[i as int] == all@[i as int]@);
        kept.push(line);
        assert(kept.deep_view() == before.push(ended[i as int]));
        assert(ended.take(i + 1) == ended.take(i as int).push(ended[i as int]));
        i += 1;
    }
    assert(ended.take(i as int) == ended);
    while kept.len() > 0 && kept[kept.len() - 1].as_str().is_empty()
        invariant
            without_final_empty(ended) == without_final_empty(kept.deep_view()),
        decreases kept.len(),
    {
        let ghost before = kept.deep_view();
        assert(before.last() == kept@[kept.len() - 1]@);
        let _ = kept.pop();
        assert(kept.deep_view() == before.drop_last());
    }
    assert(kept.len() > 0 ==> kept.deep_view().last() == kept@[kept.len() - 1]@);
    if kept.len() == 0 {
        return String::new();
    }
    let joined = join_texts(&kept, "\n");
    let whole = cat2(joined.as_str(), "\n");
    to_nfc(whole.as_str())
}

/// The tags as a revision sees them: canonical, in order, each once.
pub open spec fn revision_tags(tags: Seq<Seq<char>>) -> Seq<Seq<char>> {
    dedup(stable_sort::<String>(tags.map_values(|tag: Seq<char>| canonical_text(tag))))
}

/// A concept as a revision sees it.
pub open spec fn concept_json(concept: ConceptView) -> Seq<char> {
    "{\"id\":"@ + json_text(concept.id) + ",\"name\":"@ + json_text(canonical_text(concept.name))
        + ",\"kind\":\""@ + kind_label(concept.kind) + "\",\"body\":"@ + json_text(
        canonical_text(concept.body),
    ) + ",\"tags\":"@ + json_texts(revision_tags(concept.tags)) + ",\"locator\":"@ + json_option(
        match concept.locator {
            Some(locator) => Some(canonical_text(locator)),
            None => None,
        },
    ) + "}"@
}

/// The concepts as a revision sees them.
pub open spec fn concepts_json(concepts: Seq<ConceptView>) -> Seq<char>
    decreases concepts.len(),
{
    if concepts.len() == 0 {
        Seq::empty()
    } else if concepts.len() == 1 {
        concept_json(concepts[0])
    } else {
        concepts_json(concepts.drop_last()) + ","@ + concept_json(concepts.last())
    }
}

/// The content of a note as a revision sees it.
pub open spec fn note_json(record: KnowledgeRecordView, body: Seq<char>) -> Seq<char> {
    "{\"title\":"@ + json_text(canonical_text(record.title)) + ",\"asset_id\":"@ + json_text(
        canonical_text(record.asset_id),
    ) + ",\"concepts\":["@ + concepts_json(record.concepts) + "],\"body\":"@ + json_text(
        revision_body(body),
    ) + "}"@
}

/// The revision of a note: the digest of its content.
pub open spec fn note_revision(record: KnowledgeRecordView, body: Seq<char>) -> Seq<char> {
    "sha256:"@ + sha256_hex(encode_utf8(note_json(record, body)))
}

fn json_of(text: &str) -> (result: Result<String, MkoError>)
    ensures
        outcome(result) == Ok::<Seq<char>, ErrorView>(json_text(text@)),
{
    match to_json_text(text) {
        Ok(written) => Ok(written),
        Err(detail) => Err(MkoError::new("revision_invalid", detail.as_str())),
    }
}

fn tags_json(tags: &Vec<String>) -> (result: Result<String, MkoError>)
    ensures
        outcome(result) == Ok::<Seq<char>, ErrorView>(json_texts(tags.deep_view())),
{
    let ghost all = tags.deep_view();
    let mut text = String::new();
    let mut i: usize = 0;
    assert(all.take(0) == Seq::<Seq<char>>::empty());
    while i < tags.len()
        invariant
            i <= tags.len(),
            all == tags.deep_view(),
            text@ == json_items(all.take(i as int)),
        decreases tags.len() - i,
    {
        assert(all.take(i + 1).drop_last() == all.take(i as int));
        assert(all.take(i + 1).last() == tags@[i as int]@);
        let item = json_of(tags[i].as_str())?;
        if i > 0 {
            text.push(',');
            text = cat2(text.as_str(), item.as_str());
        } else {
            text = item;
        }
        i += 1;
    }
    assert(all.take(i as int) == all);
    let whole = cat3("[", text.as_str(), "]");
    proof {
        reveal_strlit("[");
        reveal_strlit("]");
        assert("["@ == seq!['[']);
        assert("]"@ == seq![']']);
    }
    Ok(whole)
}

fn canonical_tag_list(tags: &Vec<String>) -> (list: Vec<String>)
    ensures
        list.deep_view() == revision_tags(tags.deep_view()),
{
    let ghost all = tags.deep_view();
    let ghost told = all.map_values(|tag: Seq<char>| canonical_text(tag));
    let mut list: Vec<String> = Vec::new();
    let mut i: usize = 0;
    assert(list.deep_view() == told.take(0));
    while i < tags.len()
        invariant
            i <= tags.len(),
            all == tags.deep_view(),
            told == all.map_values(|tag: Seq<char>| canonical_text(tag)),
            list.deep_view() == told.take(i as int),
        decreases tags.len() - i,
    {
        let ghost before = list.deep_view();
        let tag = normalize_revision_string(tags[i].as_str());
        assert(all[i as int] == tags@[i as int]@);
        list.push(tag);
        assert(list.deep_view() == before.push(told[i as int]));
        assert(told.take(i + 1) == told.take(i as int).push(told[i as int]));
        i += 1;
    }
    assert(told.take(i as int) == told);
    let sorted = sort(list);
    remove_repeats(sorted)
}

fn write_concept_json(concept: &Concept) -> (result: Result<String, MkoError>)
    ensures
        outcome(result) == Ok::<Seq<char>, ErrorView>(concept_json(concept.deep_view())),
{
    let id = json_of(concept.id.as_str())?;
    let canonical_name = normalize_revision_string(concept.name.as_str());
    let name = json_of(canonical_name.as_str())?;
    let canonical_body = normalize_revision_string(concept.body.as_str());
    let body = json_of(canonical_body.as_str())?;
    let list = canonical_tag_list(&concept.tags);
    let tags = tags_json(&list)?;
    let locator = match &concept.locator {
        Some(locator) => {
            let canonical_locator = normalize_revision_string(locator.as_str());
            json_of(canonical_locator.as_str())?
        },
        None => "null".to_owned(),
    };
    let head = cat4("{\"id\":", id.as_str(), ",\"name\":", name.as_str());
    let middle = cat5(
        head.as_str(),
        ",\"kind\":\"",
        concept_kind_label(concept.kind),
        "\",\"body\":",
        body.as_str(),
    );
    let tail = cat5(
        middle.as_str(),
        ",\"tags\":",
        tags.as_str(),
        ",\"locator\":",
        locator.as_str(),
    );
    Ok(cat2(tail.as_str(), "}"))
}

fn write_concepts_json(concepts: &Vec<Concept>) -> (result: Result<String, MkoError>)
    ensures
        outcome(result) == Ok::<Seq<char>, ErrorView>(concepts_json(concepts.deep_view())),
{
    let ghost all = concepts.deep_view();
    let mut text = String::new();
    let mut i: usize = 0;
    assert(all.take(0) == Seq::<ConceptView>::empty());
    while i < concepts.len()
        invariant
            i <= concepts.len(),
            all == concepts.deep_view(),
            text@ == concepts_json(all.take(i as int)),
        decreases concepts.len() - i,
    {
        assert(all.take(i + 1).drop_last() == all.take(i as int));
        assert(all.take(i + 1).last() == concepts@[i as int].deep_view());
        let item = write_concept_json(&concepts[i])?;
        if i > 0 {
            text = cat3(text.as_str(), ",", item.as_str());
        } else {
            text = item;
        }
        i += 1;
    }
    assert(all.take(i as int) == all);
    Ok(text)
}

/// The revision that the content of a note has.
pub fn calculate_knowledge_revision(record: &KnowledgeRecord, body: &str) -> (result: Result<
    String,
    MkoError,
>)
    ensures
        outcome(result) == Ok::<Seq<char>, ErrorView>(note_revision(record.deep_view(), body@)),
{
    let canonical_title = normalize_revision_string(record.title.as_str());
    let title = json_of(canonical_title.as_str())?;
    let canonical_asset = normalize_revision_string(record.asset_id.as_str());
    let asset_id = json_of(canonical_asset.as_str())?;
    let concepts = write_concepts_json(&record.concepts)?;
    let canonical_body = normalize_revision_body(body);
    let body_json = json_of(canonical_body.as_str())?;
    let head = cat4("{\"title\":", title.as_str(), ",\"asset_id\":", asset_id.as_str());
    let middle = cat5(
        head.as_str(),
        ",\"concepts\":[",
        concepts.as_str(),
        "],\"body\":",
        body_json.as_str(),
    );
    let whole = cat2(middle.as_str(), "}");
    let digest = sha256_hex_of(whole.as_str().as_bytes());
    Ok(cat2("sha256:", digest.as_str()))
}

/// The slug in the name of a note: at most so many characters of the slug of its title.
pub open spec fn title_slug(title: Seq<char>) -> Seq<char> {
    let slug = slug_of(ascii_lowered(title));
    let kept = without_final_hyphens(
        if slug.len() > MAX_KNOWLEDGE_SLUG_BYTES {
            slug.take(MAX_KNOWLEDGE_SLUG_BYTES as int)
        } else {
            slug
        },
    );
    if kept.len() == 0 {
        "document"@
    } else {
        kept
    }
}

/// The name of the file of a note on an Asset that was registered on a day: the day, the
/// slug of its title and the first digits of its hash.
pub open spec fn filename_on(
    date: Option<Seq<char>>,
    title: Seq<char>,
    knowledge_id: Seq<char>,
) -> Result<Seq<char>, ErrorView> {
    match prefixed_hash(knowledge_id, "personal-knowledge-"@) {
        None => Err(error("knowledge_id_invalid"@, "invalid content-addressed knowledge ID"@)),
        Some(hash) => match date {
            None => Err(error("schema_invalid"@, "record time is outside the calendar"@)),
            Some(date) => Ok(
                date + "-"@ + title_slug(title) + "-"@ + hash.take(12) + ".md"@,
            ),
        },
    }
}

/// The name of the file of a note: the day is the one in Seoul.
pub open spec fn note_filename(created_at: i64, title: Seq<char>, knowledge_id: Seq<char>) -> Result<
    Seq<char>,
    ErrorView,
> {
    filename_on(seoul_date(created_at), title, knowledge_id)
}

fn slugify_title(title: &str) -> (slug: String)
    ensures
        slug@ == title_slug(title@),
{
    let lowered = lowered_ascii(title);
    let slug = slugify(lowered.as_str());
    let len: usize = slug.as_str().unicode_len();
    let cut = if len > MAX_KNOWLEDGE_SLUG_BYTES {
        slug.as_str().substring_char(0, MAX_KNOWLEDGE_SLUG_BYTES)
    } else {
        slug.as_str()
    };
    assert(len > MAX_KNOWLEDGE_SLUG_BYTES ==> cut@ == slug@.take(MAX_KNOWLEDGE_SLUG_BYTES as int));
    let kept = without_last_hyphens(cut);
    if kept.is_empty() {
        "document".to_owned()
    } else {
        kept.to_owned()
    }
}

pub(crate) fn knowledge_filename(created_at: i64, title: &str, knowledge_id: &str) -> (result: Result<
    String,
    MkoError,
>)
    ensures
        outcome(result) == note_filename(created_at, title@, knowledge_id@),
{
    note_filename_on(seoul_date_of(created_at), title, knowledge_id)
}

/// The name of the file of a note on an Asset that was registered on a day.
pub fn note_filename_on(date: Option<String>, title: &str, knowledge_id: &str) -> (result: Result<
    String,
    MkoError,
>)
    ensures
        outcome(result) == filename_on(date.deep_view(), title@, knowledge_id@),
{
    let hash = match valid_prefixed_hash(knowledge_id, "personal-knowledge-") {
        Some(hash) => hash,
        None => {
            return Err(
                MkoError::new("knowledge_id_invalid", "invalid content-addressed knowledge ID"),
            );
        },
    };
    let date = match date {
        Some(date) => date,
        None => {
            return Err(MkoError::new("schema_invalid", "record time is outside the calendar"));
        },
    };
    let slug = slugify_title(title);
    let digits = hash.substring_char(0, 12);
    assert(digits@ == hash@.take(12));
    let front = cat4(date.as_str(), "-", slug.as_str(), "-");
    Ok(cat3(front.as_str(), digits, ".md"))
}

#[derive(Clone, Debug, PartialEq, Eq)]
pub struct KnowledgeValidationIssue {
    pub code: String,
    pub path: String,
    pub message: String,
}

#[verifier::ext_equal]
pub struct KnowledgeValidationIssueView {
    pub code: Seq<char>,
    pub path: Seq<char>,
    pub message: Seq<char>,
}

impl DeepView for KnowledgeValidationIssue {
    type V = KnowledgeValidationIssueView;

    open spec fn deep_view(&self) -> KnowledgeValidationIssueView {
        KnowledgeValidationIssueView { code: self.code@, path: self.path@, message: self.message@ }
    }
}

/// The issue of a note, where it was found.
pub open spec fn note_issue(found: bool, code: Seq<char>, path: Seq<char>, message: Seq<char>) -> Seq<
    KnowledgeValidationIssueView,
> {
    if found {
        seq![KnowledgeValidationIssueView { code, path, message }]
    } else {
        Seq::empty()
    }
}

fn report_note(
    issues: &mut Vec<KnowledgeValidationIssue>,
    found: bool,
    code: &str,
    path: &str,
    message: &str,
)
    ensures
        final(issues).deep_view() == old(issues).deep_view() + note_issue(
            found,
            code@,
            path@,
            message@,
        ),
{
    let ghost before = issues.deep_view();
    if found {
        let issue = KnowledgeValidationIssue {
            code: code.to_owned(),
            path: path.to_owned(),
            message: message.to_owned(),
        };
        issues.push(issue);
        assert(issues.deep_view() == before.push(issue.deep_view()));
    }
}

/// A note whose ID and fingerprint are those of its Asset, made by the current versions.
pub open spec fn is_canonical_note(record: KnowledgeRecordView) -> bool {
    &&& record.record_type == "knowledge"@
    &&& record.schema_version == 1
    &&& prefixed_hash(record.asset_id, "personal-asset-"@) matches Some(hash) && record.id
        == "personal-knowledge-"@ + hash && record.generation.asset_fingerprint == "sha256:"@ + hash
    &&& record.generation.processor_version == KNOWLEDGE_PROCESSOR_VERSION@
    &&& record.generation.prompt_version == KNOWLEDGE_PROMPT_VERSION@
}

fn canonical_note(record: &KnowledgeRecord) -> (result: bool)
    ensures
        result == is_canonical_note(record.deep_view()),
{
    let identity_valid = match valid_prefixed_hash(record.asset_id.as_str(), "personal-asset-") {
        Some(hash) => {
            let id = cat2("personal-knowledge-", hash);
            let fingerprint = cat2("sha256:", hash);
            same(record.id.as_str(), id.as_str()) && same(
                record.generation.asset_fingerprint.as_str(),
                fingerprint.as_str(),
            )
        },
        None => false,
    };
    same(record.record_type.as_str(), "knowledge") && record.schema_version == 1 && identity_valid
        && same(record.generation.processor_version.as_str(), KNOWLEDGE_PROCESSOR_VERSION) && same(
        record.generation.prompt_version.as_str(),
        KNOWLEDGE_PROMPT_VERSION,
    )
}

/// A revision is a full digest.
pub open spec fn is_revision_text(text: Seq<char>) -> bool {
    prefixed_hash(text, "sha256:"@) is Some
}

/// The review of a note fits its content. A note that is not reviewed may remember the
/// revision that was approved before.
pub open spec fn note_review_fits(record: KnowledgeRecordView, actual: Seq<char>) -> bool {
    match record.review.status {
        ReviewState::Unreviewed => record.review.reviewed_at is None && (record.approved_revision
            matches Some(revision) ==> is_revision_text(revision)),
        ReviewState::Reviewed => record.approved_revision == Some(actual)
            && record.review.reviewed_at is Some,
    }
}

fn note_review_is_fitting(record: &KnowledgeRecord, actual: &str) -> (result: bool)
    ensures
        result == note_review_fits(record.deep_view(), actual@),
{
    match record.review.status {
        ReviewState::Unreviewed => record.review.reviewed_at.is_none()
            && match &record.approved_revision {
            Some(revision) => valid_prefixed_hash(revision.as_str(), "sha256:").is_some(),
            None => true,
        },
        ReviewState::Reviewed => record.review.reviewed_at.is_some()
            && match &record.approved_revision {
            Some(revision) => same(revision.as_str(), actual),
            None => false,
        },
    }
}

/// A concept without its ID.
pub open spec fn without_id(concept: ConceptView) -> ConceptInputView {
    ConceptInputView {
        name: concept.name,
        kind: concept.kind,
        body: concept.body,
        tags: concept.tags,
        locator: concept.locator,
    }
}

/// The concepts of a record as a response would have them.
pub open spec fn concept_inputs(concepts: Seq<ConceptView>) -> Seq<ConceptInputView> {
    concepts.map_values(|concept: ConceptView| without_id(concept))
}

/// The concepts of a record are canonical as they stand.
pub open spec fn concepts_are_canonical(concepts: Seq<ConceptView>) -> bool {
    checked_concepts(concept_inputs(concepts)) == (concept_inputs(concepts), Ok::<(), ErrorView>(()))
}

/// The IDs of the concepts are those that their canonical names give them.
pub open spec fn ids_are_canonical(concepts: Seq<ConceptView>) -> bool {
    concepts.map_values(|concept: ConceptView| concept.id) == concept_ids(
        input_names(checked_concepts(concept_inputs(concepts)).0),
    )
}

/// All that is wrong with the record of a note by itself.
pub open spec fn note_issues(path: Seq<char>, record: KnowledgeRecordView, body: Seq<char>) -> Seq<
    KnowledgeValidationIssueView,
> {
    let actual = note_revision(record, body);
    note_issue(
        !is_canonical_note(record),
        "knowledge_invalid"@,
        path,
        "knowledge identity, schema, generation, or fingerprint is not canonical"@,
    ) + note_issue(
        record.content_revision != actual,
        "revision_mismatch"@,
        path,
        "stored content_revision does not match recomputed knowledge content"@,
    ) + note_issue(
        !note_review_fits(record, actual),
        "review_invalid"@,
        path,
        "knowledge review status and approved_revision/reviewed_at are inconsistent"@,
    ) + note_issue(
        !concepts_are_canonical(record.concepts),
        "concept_invalid"@,
        path,
        "knowledge concepts must satisfy the canonical durable constraints"@,
    ) + note_issue(
        !ids_are_canonical(record.concepts),
        "concept_id_invalid"@,
        path,
        "knowledge concept IDs must be canonical and unique within the note"@,
    )
}

fn inputs_of(concepts: &Vec<Concept>) -> (inputs: Vec<ConceptInput>)
    ensures
        inputs.deep_view() == concept_inputs(concepts.deep_view()),
{
    let ghost all = concepts.deep_view();
    let ghost told = concept_inputs(all);
    let mut inputs: Vec<ConceptInput> = Vec::new();
    let mut i: usize = 0;
    assert(inputs.deep_view() == told.take(0));
    while i < concepts.len()
        invariant
            i <= concepts.len(),
            all == concepts.deep_view(),
            told == concept_inputs(all),
            inputs.deep_view() == told.take(i as int),
        decreases concepts.len() - i,
    {
        let ghost before = inputs.deep_view();
        let concept = &concepts[i];
        assert(all[i as int] == concept.deep_view());
        let input = ConceptInput {
            name: concept.name.clone(),
            kind: concept.kind,
            body: concept.body.clone(),
            tags: copy_list(&concept.tags),
            locator: copy_option(&concept.locator),
        };
        assert(input.deep_view() == told[i as int]);
        inputs.push(input);
        assert(inputs.deep_view() == before.push(input.deep_view()));
        assert(told.take(i + 1) == told.take(i as int).push(told[i as int]));
        i += 1;
    }
    assert(told.take(i as int) == told);
    inputs
}

fn same_input(left: &ConceptInput, right: &ConceptInput) -> (equal: bool)
    ensures
        equal == (left.deep_view() == right.deep_view()),
{
    same(left.name.as_str(), right.name.as_str()) && left.kind == right.kind && same(
        left.body.as_str(),
        right.body.as_str(),
    ) && crate::canonical_source::same_list(&left.tags, &right.tags) && same_option(
        &left.locator,
        &right.locator,
    )
}

fn same_inputs(left: &Vec<ConceptInput>, right: &Vec<ConceptInput>) -> (equal: bool)
    ensures
        equal == (left.deep_view() == right.deep_view()),
{
    let ghost a = left.deep_view();
    let ghost b = right.deep_view();
    if left.len() != right.len() {
        assert(a.len() != b.len());
        return false;
    }
    let mut i: usize = 0;
    while i < left.len()
        invariant
            i <= left.len(),
            left.len() == right.len(),
            a == left.deep_view(),
            b == right.deep_view(),
            forall|k: int| 0 <= k < i ==> a[k] == b[k],
        decreases left.len() - i,
    {
        assert(a[i as int] == left@[i as int].deep_view());
        assert(b[i as int] == right@[i as int].deep_view());
        if !same_input(&left[i], &right[i]) {
            return false;
        }
        i += 1;
    }
    assert(a == b);
    true
}

fn ids_match(concepts: &Vec<Concept>, expected: &Vec<Concept>) -> (result: bool)
    ensures
        result == (concepts.deep_view().map_values(|concept: ConceptView| concept.id)
            == expected.deep_view().map_values(|concept: ConceptView| concept.id)),
{
    let ghost a = concepts.deep_view().map_values(|concept: ConceptView| concept.id);
    let ghost b = expected.deep_view().map_values(|concept: ConceptView| concept.id);
    if concepts.len() != expected.len() {
        assert(a.len() != b.len());
        return false;
    }
    let mut i: usize = 0;
    while i < concepts.len()
        invariant
            i <= concepts.len(),
            concepts.len() == expected.len(),
            a == concepts.deep_view().map_values(|concept: ConceptView| concept.id),
            b == expected.deep_view().map_values(|concept: ConceptView| concept.id),
            forall|k: int| 0 <= k < i ==> a[k] == b[k],
        decreases concepts.len() - i,
    {
        assert(a[i as int] == concepts@[i as int].id@);
        assert(b[i as int] == expected@[i as int].id@);
        if !same(concepts[i].id.as_str(), expected[i].id.as_str()) {
            return false;
        }
        i += 1;
    }
    assert(a == b);
    true
}

/// Checks the record of a note by itself: its shape, its revision, its review and its
/// concepts. Whether its Asset exists is not checked here.
pub fn validate_knowledge_record(path: &str, record: &KnowledgeRecord, body: &str) -> (issues: Vec<
    KnowledgeValidationIssue,
>)
    ensures
        issues.deep_view() == note_issues(path@, record.deep_view(), body@),
{
    let mut issues: Vec<KnowledgeValidationIssue> = Vec::new();
    let ghost none = Seq::<KnowledgeValidationIssueView>::empty();
    assert(issues.deep_view() == none);
    let canonical = canonical_note(record);
    report_note(
        &mut issues,
        !canonical,
        "knowledge_invalid",
        path,
        "knowledge identity, schema, generation, or fingerprint is not canonical",
    );
    let actual = match calculate_knowledge_revision(record, body) {
        Ok(actual) => actual,
        Err(failure) => {
            report_note(&mut issues, true, failure.code(), path, failure.message());
            return issues;
        },
    };
    let current = same(record.content_revision.as_str(), actual.as_str());
    report_note(
        &mut issues,
        !current,
        "revision_mismatch",
        path,
        "stored content_revision does not match recomputed knowledge content",
    );
    let reviewed = note_review_is_fitting(record, actual.as_str());
    report_note(
        &mut issues,
        !reviewed,
        "review_invalid",
        path,
        "knowledge review status and approved_revision/reviewed_at are inconsistent",
    );
    let original_inputs = inputs_of(&record.concepts);
    let mut inputs = inputs_of(&record.concepts);
    let in_order = normalize_concepts(&mut inputs).is_ok();
    let unchanged = same_inputs(&inputs, &original_inputs);
    report_note(
        &mut issues,
        !(in_order && unchanged),
        "concept_invalid",
        path,
        "knowledge concepts must satisfy the canonical durable constraints",
    );
    let expected = assign_concept_ids(&inputs);
    let ids_valid = ids_match(&record.concepts, &expected);
    proof {
        ids_have_names(input_names(inputs.deep_view()));
        assert(expected.deep_view().map_values(|concept: ConceptView| concept.id) == concept_ids(
            input_names(inputs.deep_view()),
        ));
    }
    report_note(
        &mut issues,
        !ids_valid,
        "concept_id_invalid",
        path,
        "knowledge concept IDs must be canonical and unique within the note",
    );
    assert(none + note_issue(
        !canonical,
        "knowledge_invalid"@,
        path@,
        "knowledge identity, schema, generation, or fingerprint is not canonical"@,
    ) == note_issue(
        !canonical,
        "knowledge_invalid"@,
        path@,
        "knowledge identity, schema, generation, or fingerprint is not canonical"@,
    ));
    issues
}

/// A note is the one of its Asset, at its place.
pub open spec fn is_note_of(path: Seq<char>, record: KnowledgeRecordView, asset: AssetRecordView) -> bool {
    let expected_id = replace_first(asset.id, "personal-asset-"@, "personal-knowledge-"@);
    &&& record.id == expected_id
    &&& record.asset_id == asset.id
    &&& record.title == asset.title
    &&& record.generation.asset_fingerprint == asset.fingerprint.value
    &&& note_filename(asset.created_at.seconds, asset.title, expected_id) matches Ok(name) && path
        == "knowledge/"@ + name
}

pub fn validate_knowledge_asset_contract(path: &str, record: &KnowledgeRecord, asset: &AssetRecord) -> (issues:
    Vec<KnowledgeValidationIssue>)
    ensures
        issues.deep_view() == note_issue(
            !is_note_of(path@, record.deep_view(), asset.deep_view()),
            "knowledge_invalid"@,
            path@,
            "knowledge ID, path, title, or Asset fingerprint link is not canonical"@,
        ),
{
    let expected_id = with_first_replaced(
        asset.id.as_str(),
        "personal-asset-",
        "personal-knowledge-",
    );
    let placed = match knowledge_filename(
        asset.created_at.seconds,
        asset.title.as_str(),
        expected_id.as_str(),
    ) {
        Ok(filename) => {
            let expected_path = cat2("knowledge/", filename.as_str());
            same(path, expected_path.as_str())
        },
        Err(_) => false,
    };
    let linked = same(record.id.as_str(), expected_id.as_str()) && same(
        record.asset_id.as_str(),
        asset.id.as_str(),
    ) && same(record.title.as_str(), asset.title.as_str()) && same(
        record.generation.asset_fingerprint.as_str(),
        asset.fingerprint.value.as_str(),
    ) && placed;
    let mut issues: Vec<KnowledgeValidationIssue> = Vec::new();
    assert(issues.deep_view() == Seq::<KnowledgeValidationIssueView>::empty());
    report_note(
        &mut issues,
        !linked,
        "knowledge_invalid",
        path,
        "knowledge ID, path, title, or Asset fingerprint link is not canonical",
    );
    issues
}

/// A section begins with a heading of the third level that names the concept and its kind,
/// and the place in the source where there is one; the text of the concept follows on a line
/// of its own.
pub proof fn sections_tell_their_concept(concept: ConceptInputView, locator: Seq<char>)
    ensures
        concept.locator is None && concept.kind == ConceptKind::Definition ==> concept_section(
            concept,
        ) == "### "@ + section_text(concept.name) + "  \u{b7}  "@ + "definition"@ + "\n"@
            + section_text(concept.body) + "\n"@,
        concept.locator == Some(locator) && concept.kind == ConceptKind::Theorem
            ==> concept_section(concept) == "### "@ + section_text(concept.name) + "  \u{b7}  "@
            + "theorem"@ + "  \u{b7}  "@ + section_text(locator) + "\n"@ + section_text(
            concept.body,
        ) + "\n"@,
        concept.locator == Some(locator) ==> concept_section(concept) == "### "@ + section_text(
            concept.name,
        ) + "  \u{b7}  "@ + kind_label(concept.kind) + "  \u{b7}  "@ + section_text(locator)
            + "\n"@ + section_text(concept.body) + "\n"@,
        concept.locator is None ==> concept_section(concept) == "### "@ + section_text(
            concept.name,
        ) + "  \u{b7}  "@ + kind_label(concept.kind) + "\n"@ + section_text(concept.body) + "\n"@,
        kind_label(ConceptKind::Definition) == "definition"@,
        kind_label(ConceptKind::Formula) == "formula"@,
        kind_label(ConceptKind::Concept) == "concept"@,
        kind_label(ConceptKind::Result) == "result"@,
        kind_label(ConceptKind::Theorem) == "theorem"@,
{
    if concept.locator is None {
        assert(concept_section(concept) =~= "### "@ + section_text(concept.name) + "  \u{b7}  "@
            + kind_label(concept.kind) + "\n"@ + section_text(concept.body) + "\n"@);
    }
    if concept.locator == Some(locator) {
        assert(concept_section(concept) =~= "### "@ + section_text(concept.name) + "  \u{b7}  "@
            + kind_label(concept.kind) + "  \u{b7}  "@ + section_text(locator) + "\n"@
            + section_text(concept.body) + "\n"@);
    }
}

/// The concepts of a note are written out one after another, each once and in their order:
/// what stands for two runs of concepts is what stands for the first, an empty line, and
/// what stands for the second. A concept by itself is its section.
pub proof fn sections_follow_one_another(
    front: Seq<ConceptInputView>,
    concept: ConceptInputView,
    back: Seq<ConceptInputView>,
)
    requires
        front.len() > 0,
        back.len() > 0,
    ensures
        concept_sections(seq![concept]) == concept_section(concept),
        concept_sections(front.push(concept)) == concept_sections(front) + "\n"@
            + concept_section(concept),
        concept_sections(front + back) == concept_sections(front) + "\n"@ + concept_sections(back),
    decreases back.len(),
{
    assert(front.push(concept).drop_last() == front);
    if back.len() == 1 {
        assert((front + back).drop_last() == front);
    } else {
        sections_follow_one_another(front, concept, back.drop_last());
        assert((front + back).drop_last() == front + back.drop_last());
        assert(concept_sections(front + back) =~= concept_sections(front) + "\n"@
            + concept_sections(back));
    }
}

/// Every concept of a response has its section in what is written of the concepts: between
/// what is written of those before it and of those behind it.
pub proof fn every_concept_has_its_section(concepts: Seq<ConceptInputView>, i: int)
    requires
        0 <= i < concepts.len(),
    ensures
        concept_sections(concepts) == (if i == 0 {
            Seq::empty()
        } else {
            concept_sections(concepts.take(i)) + "\n"@
        }) + concept_section(concepts[i]) + (if i == concepts.len() - 1 {
            Seq::empty()
        } else {
            "\n"@ + concept_sections(concepts.skip(i + 1))
        }),
{
    let front = concepts.take(i);
    let one = seq![concepts[i]];
    let back = concepts.skip(i + 1);
    assert(concepts == front + one + back);
    if i > 0 {
        sections_follow_one_another(front, concepts[i], one);
    } else {
        assert(front + one == one);
    }
    if i < concepts.len() - 1 {
        sections_follow_one_another(front + one, concepts[i], back);
    } else {
        assert(front + one + back == front + one);
    }
    assert(concept_sections(one) == concept_section(concepts[i]));
    assert(concept_sections(concepts) =~= (if i == 0 {
        Seq::empty()
    } else {
        concept_sections(front) + "\n"@
    }) + concept_section(concepts[i]) + (if i == concepts.len() - 1 {
        Seq::empty()
    } else {
        "\n"@ + concept_sections(back)
    }));
}

/// The body of a note is the title as its heading, the synthesis, and the concepts, or a
/// line that says that there are none, with line feeds alone and in composed form.
pub proof fn bodies_hold_the_response(title: Seq<char>, response: KnowledgeResponseView)
    ensures
        response.concepts.len() > 0 ==> note_body(title, response) == nfc(
            line_feeds(
                "# "@ + section_text(title) + " \u{2014} Knowledge\n\n## Synthesis\n"@
                    + section_text(response.synthesis) + "\n\n## Concepts\n"@ + concept_sections(
                    response.concepts,
                ),
            ),
        ),
        response.concepts.len() == 0 ==> note_body(title, response) == nfc(
            line_feeds(
                "# "@ + section_text(title) + " \u{2014} Knowledge\n\n## Synthesis\n"@
                    + section_text(response.synthesis)
                    + "\n\n## Concepts\n_No concepts extracted._\n"@,
            ),
        ),
{
    reveal_strlit("\n\n## Concepts\n");
    reveal_strlit("_No concepts extracted._\n");
    reveal_strlit("\n\n## Concepts\n_No concepts extracted._\n");
    let head = "# "@ + section_text(title) + " \u{2014} Knowledge\n\n## Synthesis\n"@
        + section_text(response.synthesis);
    assert("\n\n## Concepts\n"@ + "_No concepts extracted._\n"@
        =~= "\n\n## Concepts\n_No concepts extracted._\n"@);
    assert(head + "\n\n## Concepts\n"@ + "_No concepts extracted._\n"@ =~= head + (
    "\n\n## Concepts\n"@ + "_No concepts extracted._\n"@));
}

/// What a response says cannot be taken for the structure of a note: behind its indent no
/// line of a section is a heading, opens or closes a block of code, or underlines one. A line
/// that would be is changed by a single backslash behind the indent, and any other line by
/// nothing.
pub proof fn sections_hold_no_structure(line: Seq<char>)
    ensures
        ({
            let made = section_line(line);
            let content = made.skip(indent_of(made) as int);
            let visible = without_final_pad(content);
            &&& visible.len() > 0 ==> visible[0] != '#' && !"```"@.is_prefix_of(visible)
                && !"~~~"@.is_prefix_of(visible) && !is_all(visible, '=') && !is_all(visible, '-')
            &&& made == line || made == line.take(indent_of(line) as int) + seq!['\\']
                + line.skip(indent_of(line) as int)
        }),
{
    reveal_strlit("\\");
    reveal_strlit("```");
    reveal_strlit("~~~");
    let indent = indent_of(line) as int;
    indent_in_line(line);
    let made = section_line(line);
    if made != line {
        assert("\\"@ =~= seq!['\\']);
        let rest = line.skip(indent);
        assert(made =~= line.take(indent) + seq!['\\'] + rest);
        indent_before_content(line, seq!['\\'] + rest);
        assert(line.take(indent) + (seq!['\\'] + rest) =~= made);
        let content = made.skip(indent);
        assert(content =~= seq!['\\'] + rest);
        assert(content[0] == '\\');
        visible_start_stays(content);
        let visible = without_final_pad(content);
        assert(made.skip(indent_of(made) as int) == content);
        assert(visible[0] == '\\');
        assert("```"@[0] == '`' && "~~~"@[0] == '~');
        assert(!is_all(visible, '=') && !is_all(visible, '-'));
    }
}

proof fn indent_before_content(line: Seq<char>, rest: Seq<char>)
    requires
        rest.len() > 0,
        !is_pad(rest[0]),
    ensures
        indent_of(line.take(indent_of(line) as int) + rest) == indent_of(line),
    decreases line.len(),
{
    indent_in_line(line);
    let whole = line.take(indent_of(line) as int) + rest;
    if line.len() > 0 && is_pad(line[0]) {
        indent_before_content(line.drop_first(), rest);
        indent_in_line(line.drop_first());
        assert(whole.drop_first() =~= line.drop_first().take(
            indent_of(line.drop_first()) as int,
        ) + rest);
    } else {
        assert(whole =~= rest);
    }
}

proof fn visible_start_stays(text: Seq<char>)
    requires
        text.len() > 0,
        !is_pad(text[0]),
    ensures
        without_final_pad(text).len() > 0,
        without_final_pad(text)[0] == text[0],
    decreases text.len(),
{
    if is_pad(text.last()) {
        visible_start_stays(text.drop_last());
    }
}

proof fn canonical_tags_are_canonical(tags: Seq<Seq<char>>, from: int)
    requires
        0 <= from <= tags.len(),
    ensures
        canonical_tags(tags, from).0.len() == tags.len(),
        forall|j: int|
            0 <= j < from ==> #[trigger] canonical_tags(tags, from).0[j] == tags[j],
        canonical_tags(tags, from).1 ==> forall|j: int|
            from <= j < tags.len() ==> #[trigger] canonical_tags(tags, from).0[j] == canonical_text(
                tags[j],
            ),
        canonical_tags(tags, from).1 <==> forall|j: int|
            from <= j < tags.len() ==> encode_utf8(canonical_text(#[trigger] tags[j])).len()
                <= 65_536,
    decreases tags.len() - from,
{
    if from < tags.len() {
        let tag = canonical_text(tags[from]);
        let updated = tags.update(from, tag);
        if !is_oversized(tag) {
            canonical_tags_are_canonical(updated, from + 1);
            assert forall|j: int| from <= j < tags.len() implies (
            #[trigger] canonical_tags(tags, from).1 ==> canonical_tags(tags, from).0[j]
                == canonical_text(tags[j])) by {
                if j > from {
                    assert(updated[j] == tags[j]);
                }
            }
            if forall|j: int|
                from <= j < tags.len() ==> encode_utf8(canonical_text(#[trigger] tags[j])).len()
                    <= 65_536 {
                assert forall|j: int| from + 1 <= j < updated.len() implies encode_utf8(
                    canonical_text(#[trigger] updated[j]),
                ).len() <= 65_536 by {
                    assert(updated[j] == tags[j]);
                }
            }
            if canonical_tags(tags, from).1 {
                assert forall|j: int| from <= j < tags.len() implies encode_utf8(
                    canonical_text(#[trigger] tags[j]),
                ).len() <= 65_536 by {
                    if j > from {
                        assert(updated[j] == tags[j]);
                    }
                }
            }
        } else {
            assert(encode_utf8(canonical_text(tags[from])).len() > 65_536);
        }
    }
}

/// A concept is accepted exactly where its name is a single line that is not blank, its text
/// is not blank, and its name, its text, its tags and its place each take at most 64 KiB. An
/// accepted concept says what was given: each of its texts in composed form and with line
/// feeds alone, and nothing else about it is changed.
pub proof fn accepted_concepts_say_what_was_given(concept: ConceptInputView)
    ensures
        ({
            let (made, result) = canonical_concept(concept);
            let name = nfc(line_feeds(concept.name));
            let body = nfc(line_feeds(concept.body));
            &&& result is Ok <==> {
                &&& !is_blank(name)
                &&& !name.contains('\n')
                &&& !is_blank(body)
                &&& encode_utf8(name).len() <= 65_536
                &&& encode_utf8(body).len() <= 65_536
                &&& forall|j: int|
                    0 <= j < concept.tags.len() ==> encode_utf8(
                        canonical_text(#[trigger] concept.tags[j]),
                    ).len() <= 65_536
                &&& concept.locator is Some ==> encode_utf8(
                    nfc(line_feeds(concept.locator->0)),
                ).len() <= 65_536
            }
            &&& result is Ok ==> {
                &&& made.name == name
                &&& made.kind == concept.kind
                &&& made.body == body
                &&& made.tags.len() == concept.tags.len()
                &&& forall|j: int|
                    0 <= j < concept.tags.len() ==> #[trigger] made.tags[j] == nfc(
                        line_feeds(concept.tags[j]),
                    )
                &&& made.locator is Some <==> concept.locator is Some
                &&& concept.locator is Some ==> made.locator == Some(
                    nfc(line_feeds(concept.locator->0)),
                )
            }
        }),
{
    canonical_tags_are_canonical(concept.tags, 0);
}

proof fn accepted_concepts_are_canonical(concepts: Seq<ConceptInputView>, from: int)
    requires
        0 <= from <= concepts.len(),
    ensures
        canonical_concepts(concepts, from).0.len() == concepts.len(),
        forall|j: int|
            0 <= j < from ==> #[trigger] canonical_concepts(concepts, from).0[j] == concepts[j],
        canonical_concepts(concepts, from).1 is Ok ==> forall|j: int|
            from <= j < concepts.len() ==> #[trigger] canonical_concepts(concepts, from).0[j]
                == canonical_concept(concepts[j]).0,
        canonical_concepts(concepts, from).1 is Ok <==> forall|j: int|
            from <= j < concepts.len() ==> (#[trigger] canonical_concept(concepts[j])).1 is Ok,
    decreases concepts.len() - from,
{
    if from < concepts.len() {
        let (concept, result) = canonical_concept(concepts[from]);
        let updated = concepts.update(from, concept);
        assert(canonical_concept(concepts[from]).1 == result);
        if result is Ok {
            accepted_concepts_are_canonical(updated, from + 1);
            assert forall|j: int| from + 1 <= j < concepts.len() implies #[trigger] updated[j]
                == concepts[j] by {}
            if forall|j: int|
                from <= j < concepts.len() ==> (#[trigger] canonical_concept(concepts[j])).1 is Ok {
                assert forall|j: int| from + 1 <= j < updated.len() implies (
                #[trigger] canonical_concept(updated[j])).1 is Ok by {
                    assert(updated[j] == concepts[j]);
                    assert(canonical_concept(concepts[j]).1 is Ok);
                }
            }
            if canonical_concepts(concepts, from).1 is Ok {
                assert forall|j: int| from <= j < concepts.len() implies (
                #[trigger] canonical_concept(concepts[j])).1 is Ok && canonical_concepts(
                    concepts,
                    from,
                ).0[j] == canonical_concept(concepts[j]).0 by {
                    if j > from {
                        assert(updated[j] == concepts[j]);
                        assert(canonical_concept(updated[j]).1 is Ok);
                    }
                }
            }
        }
    }
}

/// An accepted response keeps every concept, in its order and as the concept itself is
/// accepted, and its synthesis, in composed form and with line feeds alone. A blank or
/// oversized synthesis is refused, and so is a response with a concept that is refused.
pub proof fn accepted_responses_keep_every_concept(response: KnowledgeResponseView)
    ensures
        ({
            let (made, result) = canonical_response(response);
            let synthesis = nfc(line_feeds(response.synthesis));
            &&& result is Ok ==> {
                &&& !is_blank(synthesis)
                &&& encode_utf8(synthesis).len() <= 65_536
                &&& made.synthesis == synthesis
                &&& made.concepts.len() == response.concepts.len()
                &&& forall|j: int|
                    0 <= j < response.concepts.len() ==> (#[trigger] canonical_concept(
                        response.concepts[j],
                    )).1 is Ok && made.concepts[j] == canonical_concept(response.concepts[j]).0
                &&& encode_utf8(
                    join(made.concepts.map_values(|concept: ConceptInputView| concept.name), "\n"@),
                ).len() <= 65_536
            }
            &&& (!is_blank(synthesis) && encode_utf8(synthesis).len() <= 65_536 && (forall|j: int|
                0 <= j < response.concepts.len() ==> (#[trigger] canonical_concept(
                    response.concepts[j],
                )).1 is Ok)) ==> (result is Ok <==> encode_utf8(
                join(made.concepts.map_values(|concept: ConceptInputView| concept.name), "\n"@),
            ).len() <= 65_536 && encode_utf8(join(all_tags(made.concepts), "\n"@)).len() <= 65_536)
        }),
{
    accepted_concepts_are_canonical(response.concepts, 0);
}

/// A concept of a note is the concept of the response, under its own ID. The ID is the slug
/// of the name, with a number behind it where an earlier concept has that slug already.
pub proof fn identified_concepts_are_the_given_ones(inputs: Seq<ConceptInputView>, i: int)
    requires
        0 <= i < inputs.len(),
    ensures
        ({
            let concepts = identified_concepts(inputs);
            let ids = concept_ids(input_names(inputs));
            &&& concepts.len() == inputs.len()
            &&& concepts[i].name == inputs[i].name
            &&& concepts[i].kind == inputs[i].kind
            &&& concepts[i].body == inputs[i].body
            &&& concepts[i].tags == inputs[i].tags
            &&& concepts[i].locator == inputs[i].locator
            &&& concepts[i].id == concept_slug(inputs[i].name) || concept_slug(
                inputs[i].name,
            ).is_prefix_of(concepts[i].id)
            &&& concept_slug(inputs[i].name).len() > 0
            &&& (forall|j: int| 0 <= j < i ==> #[trigger] concepts[j].id != concept_slug(inputs[i].name))
                ==> concepts[i].id == concept_slug(inputs[i].name)
        }),
{
    let names = input_names(inputs);
    let ids = concept_ids(names);
    let concepts = identified_concepts(inputs);
    reveal_strlit("concept");
    ids_have_names(names);
    ids_grow(names, i + 1);
    let upto = names.take(i + 1);
    ids_have_names(upto);
    assert(upto.drop_last() == names.take(i));
    ids_grow(names, i);
    let used = concept_ids(names.take(i));
    ids_have_names(names.take(i));
    let base = concept_slug(names[i]);
    a_candidate_is_free(used, base, 0);
    let number = choose|number: nat| is_first_free(used, base, number);
    assert(is_first_free(used, base, number));
    assert(concept_ids(upto)[i] == id_candidate(base, number));
    assert(ids[i] == concept_ids(upto)[i]);
    if forall|j: int| 0 <= j < i ==> #[trigger] concepts[j].id != base {
        if used.contains(base) {
            let j = choose|j: int| 0 <= j < used.len() && used[j] == base;
            assert(ids[j] == used[j]);
            assert(concepts[j].id == base);
        }
        if number > 0 {
            assert(used.contains(id_candidate(base, 0)));
        }
    }
}

/// The name of a note is the day in Seoul on which the Asset was made, the slug of the title
/// and the first twelve digits of the hash; a note whose ID is no content address has none.
pub proof fn filenames_tell_day_title_and_hash(
    day: Seq<char>,
    title: Seq<char>,
    hash: Seq<char>,
    knowledge_id: Seq<char>,
)
    ensures
        prefixed_hash(knowledge_id, "personal-knowledge-"@) == Some(hash) ==> filename_on(
            Some(day),
            title,
            knowledge_id,
        ) == Ok::<Seq<char>, ErrorView>(
            day + "-"@ + title_slug(title) + "-"@ + hash.take(12) + ".md"@,
        ),
        prefixed_hash(knowledge_id, "personal-knowledge-"@) is None ==> filename_on(
            Some(day),
            title,
            knowledge_id,
        ) is Err,
        title_slug(title).len() > 0,
        filename_on(None, title, knowledge_id) is Err,
{
    reveal_strlit("document");
}

/// A note has no issue exactly where its identity, its schema, its generation, its revision,
/// its review and its concepts are in order. A review is in order where an unreviewed note
/// has no time of review, and where a reviewed one has a time and approves the content that
/// it has.
pub proof fn notes_in_order_have_no_issue(
    path: Seq<char>,
    record: KnowledgeRecordView,
    body: Seq<char>,
)
    ensures
        note_issues(path, record, body).len() == 0 <==> {
            let actual = note_revision(record, body);
            &&& record.record_type == "knowledge"@
            &&& record.schema_version == 1
            &&& prefixed_hash(record.asset_id, "personal-asset-"@) matches Some(hash) && record.id
                == "personal-knowledge-"@ + hash && record.generation.asset_fingerprint
                == "sha256:"@ + hash
            &&& record.generation.processor_version == "knowledge-v1"@
            &&& record.generation.prompt_version == "codex-knowledge-v1"@
            &&& record.content_revision == actual
            &&& record.review.status == ReviewState::Unreviewed ==> record.review.reviewed_at
                is None
            &&& record.review.status == ReviewState::Unreviewed && record.approved_revision is Some
                ==> prefixed_hash(record.approved_revision->0, "sha256:"@) is Some
            &&& record.review.status == ReviewState::Reviewed ==> record.review.reviewed_at is Some
                && record.approved_revision == Some(actual)
            &&& concepts_are_canonical(record.concepts)
            &&& ids_are_canonical(record.concepts)
        },
        record.content_revision != note_revision(record, body) ==> exists|i: int|
            0 <= i < note_issues(path, record, body).len() && (#[trigger] note_issues(
                path,
                record,
                body,
            )[i]).code == "revision_mismatch"@,
{
    let actual = note_revision(record, body);
    let identity = note_issue(
        !is_canonical_note(record),
        "knowledge_invalid"@,
        path,
        "knowledge identity, schema, generation, or fingerprint is not canonical"@,
    );
    if record.content_revision != actual {
        assert(note_issues(path, record, body)[identity.len() as int].code
            == "revision_mismatch"@);
    }
}

/// A note belongs to an Asset exactly where it has the ID that the Asset calls for, names the
/// Asset, its title and its fingerprint, and lies under the name that they call for.
pub proof fn notes_belong_to_one_asset(
    path: Seq<char>,
    record: KnowledgeRecordView,
    asset: AssetRecordView,
    name: Seq<char>,
)
    requires
        note_filename(asset.created_at.seconds, asset.title, record.id) == Ok::<
            Seq<char>,
            ErrorView,
        >(name),
    ensures
        is_note_of(path, record, asset) <==> record.asset_id == asset.id && record.title
            == asset.title && record.generation.asset_fingerprint == asset.fingerprint.value
            && record.id == replace_first(asset.id, "personal-asset-"@, "personal-knowledge-"@)
            && path == "knowledge/"@ + name,
{
}

/// The revision of a note is a digest of its title, its Asset, its concepts and its body, and
/// of nothing else.
pub proof fn revisions_cover_the_content(
    record: KnowledgeRecordView,
    other: KnowledgeRecordView,
    body: Seq<char>,
)
    ensures
        note_revision(record, body) == "sha256:"@ + sha256_hex(
            encode_utf8(
                "{\"title\":"@ + json_text(nfc(line_feeds(record.title))) + ",\"asset_id\":"@
                    + json_text(nfc(line_feeds(record.asset_id))) + ",\"concepts\":["@
                    + concepts_json(record.concepts) + "],\"body\":"@ + json_text(
                    revision_body(body),
                ) + "}"@,
            ),
        ),
        other.title == record.title && other.asset_id == record.asset_id && other.concepts
            == record.concepts ==> note_revision(other, body) == note_revision(record, body),
{
}

/// In the text of which a revision is made every concept stands once and in its order, with
/// its ID, its name, its kind, its text, its tags and its place.
pub proof fn revisions_cover_every_concept(
    front: Seq<ConceptView>,
    concept: ConceptView,
)
    ensures
        concepts_json(seq![concept]) == concept_json(concept),
        front.len() > 0 ==> concepts_json(front.push(concept)) == concepts_json(front) + ","@
            + concept_json(concept),
        concept.locator is None ==> concept_json(concept) == "{\"id\":"@ + json_text(concept.id)
            + ",\"name\":"@ + json_text(nfc(line_feeds(concept.name))) + ",\"kind\":\""@
            + kind_label(concept.kind) + "\",\"body\":"@ + json_text(nfc(line_feeds(concept.body)))
            + ",\"tags\":"@ + json_texts(revision_tags(concept.tags)) + ",\"locator\":"@
            + json_option(None) + "}"@,
        concept.locator is Some ==> concept_json(concept) == "{\"id\":"@ + json_text(concept.id)
            + ",\"name\":"@ + json_text(nfc(line_feeds(concept.name))) + ",\"kind\":\""@
            + kind_label(concept.kind) + "\",\"body\":"@ + json_text(nfc(line_feeds(concept.body)))
            + ",\"tags\":"@ + json_texts(revision_tags(concept.tags)) + ",\"locator\":"@
            + json_option(Some(nfc(line_feeds(concept.locator->0)))) + "}"@,
{
    assert(front.push(concept).drop_last() == front);
}

} // verus!
