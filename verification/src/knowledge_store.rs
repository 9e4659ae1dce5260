//! The notes of a repository: how they are found, written, approved, listed and searched.

use crate::asset_validation::is_canonical_asset;
use crate::atomic::AtomicWriteResult;
use crate::error::{error, outcome, verdict, ErrorView, MkoError};
use crate::fingerprint::same_fingerprint;
use crate::knowledge::{
    assign_concept_ids, calculate_knowledge_revision, canonical_response, concept_ids,
    concept_ids_are_unique, concept_inputs, concept_kind_label, copy_concepts, identified_concepts,
    input_names, is_note_of, is_revision_text, kind_label, knowledge_filename,
    normalize_and_validate_knowledge, note_body, note_filename, note_issues, note_review_fits,
    note_revision, render_knowledge_body, Concept, ConceptKind, ConceptView, KnowledgeGeneration,
    KnowledgeGenerationView, KnowledgeRecord, KnowledgeRecordView, KnowledgeResponse,
    KnowledgeResponseView, KnowledgeReview, KnowledgeReviewView, KnowledgeValidationIssueView,
    ReviewState, KNOWLEDGE_PROCESSOR_VERSION, KNOWLEDGE_PROMPT_VERSION,
};
use crate::model::{AssetRecord, AssetRecordView, Timestamp};
use crate::order::{
    lists_text, sort, sorting_follows_the_items, sorting_keeps_items, sorting_keeps_parts_in_order,
    stable_sort, text_total, text_transitive, Ranked,
};
use crate::paths::{ascii_lowered, extension_of, name_extension};
use crate::prepare::{PreparedSourceBundle, PreparedSourceBundleView};
use crate::provider_scan::ScanLimits;
use crate::text::{
    ascii_upper, after_prefix, cat2, cat3, cat5, contains_text, copy_option, find_from,
    found_text_stands_there, has_text, join, join_texts, not_after, replace_first, same, same_bytes,
    strip_prefix, text_at_most, text_order_is_antisymmetric, to_chars, with_first_replaced,
};
use crate::unicode::{ascii_case_is_dropped, collision_key, collision_key_of, lowercase, lowered};
use vstd::prelude::*;
use vstd::utf8::{encode_utf8, is_ascii_chars};

verus! {

/// The most notes of a repository.
pub const MAX_KNOWLEDGE_ENTRIES: u64 = 1024;

/// The most bytes that a scan of the notes reads.
pub const MAX_KNOWLEDGE_SCAN_BYTES: u64 = 8_388_608;

/// The longest that a scan of the notes takes.
pub const MAX_KNOWLEDGE_SCAN_ELAPSED_MS: u64 = 5_000;

/// How much of a note is read at once.
pub const KNOWLEDGE_READ_CHUNK_BYTES: u64 = 65_536;

/// What a note is written from.
#[derive(Clone, Debug, PartialEq, Eq)]
pub struct WriteKnowledgeRequest {
    repository_root: String,
    bundle_path: Option<String>,
    asset_id: String,
    response: Vec<u8>,
    replace: bool,
}

#[verifier::ext_equal]
pub struct WriteKnowledgeRequestView {
    pub repository_root: Seq<char>,
    pub bundle_path: Option<Seq<char>>,
    pub asset_id: Seq<char>,
    pub response: Seq<u8>,
    pub replace: bool,
}

impl DeepView for WriteKnowledgeRequest {
    type V = WriteKnowledgeRequestView;

    closed spec fn deep_view(&self) -> WriteKnowledgeRequestView {
        WriteKnowledgeRequestView {
            repository_root: self.repository_root@,
            bundle_path: self.bundle_path.deep_view(),
            asset_id: self.asset_id@,
            response: self.response@,
            replace: self.replace,
        }
    }
}

impl WriteKnowledgeRequest {
    pub fn new(repository_root: &str, asset_id: &str, response: Vec<u8>) -> (request: Self)
        ensures
            request.deep_view() == (WriteKnowledgeRequestView {
                repository_root: repository_root@,
                bundle_path: None,
                asset_id: asset_id@,
                response: response@,
                replace: false,
            }),
    {
        WriteKnowledgeRequest {
            repository_root: repository_root.to_owned(),
            bundle_path: None,
            asset_id: asset_id.to_owned(),
            response,
            replace: false,
        }
    }

    pub fn with_bundle(self, bundle_path: &str) -> (request: Self)
        ensures
            request.deep_view() == (WriteKnowledgeRequestView {
                bundle_path: Some(bundle_path@),
                ..self.deep_view()
            }),
    {
        WriteKnowledgeRequest {
            repository_root: self.repository_root,
            bundle_path: Some(bundle_path.to_owned()),
            asset_id: self.asset_id,
            response: self.response,
            replace: self.replace,
        }
    }

    pub fn with_replace(self, replace: bool) -> (request: Self)
        ensures
            request.deep_view() == (WriteKnowledgeRequestView { replace, ..self.deep_view() }),
    {
        WriteKnowledgeRequest {
            repository_root: self.repository_root,
            bundle_path: self.bundle_path,
            asset_id: self.asset_id,
            response: self.response,
            replace,
        }
    }

    pub fn repository_root(&self) -> (path: &str)
        ensures
            path@ == self.deep_view().repository_root,
    {
        self.repository_root.as_str()
    }

    pub fn bundle_path(&self) -> (path: &Option<String>)
        ensures
            path.deep_view() == self.deep_view().bundle_path,
    {
        &self.bundle_path
    }

    pub fn asset_id(&self) -> (id: &str)
        ensures
            id@ == self.deep_view().asset_id,
    {
        self.asset_id.as_str()
    }

    pub fn response(&self) -> (bytes: &Vec<u8>)
        ensures
            bytes@ == self.deep_view().response,
    {
        &self.response
    }

    pub fn replace(&self) -> (replace: bool)
        ensures
            replace == self.deep_view().replace,
    {
        self.replace
    }
}

/// The bounds of a scan of the notes.
pub fn default_knowledge_scan_limits() -> (limits: ScanLimits)
    ensures
        limits == (ScanLimits {
            max_entries: MAX_KNOWLEDGE_ENTRIES,
            max_total_bytes: MAX_KNOWLEDGE_SCAN_BYTES,
            max_elapsed_ms: MAX_KNOWLEDGE_SCAN_ELAPSED_MS,
            max_depth: 1,
            max_batch_items: MAX_KNOWLEDGE_ENTRIES,
        }),
{
    ScanLimits {
        max_entries: MAX_KNOWLEDGE_ENTRIES,
        max_total_bytes: MAX_KNOWLEDGE_SCAN_BYTES,
        max_elapsed_ms: MAX_KNOWLEDGE_SCAN_ELAPSED_MS,
        max_depth: 1,
        max_batch_items: MAX_KNOWLEDGE_ENTRIES,
    }
}

#[derive(Clone, Debug, PartialEq, Eq)]
pub struct WriteKnowledgeResult {
    pub result: String,
    pub knowledge_id: String,
    pub knowledge_path: String,
    pub content_revision: String,
}

#[verifier::ext_equal]
pub struct WriteKnowledgeResultView {
    pub result: Seq<char>,
    pub knowledge_id: Seq<char>,
    pub knowledge_path: Seq<char>,
    pub content_revision: Seq<char>,
}

impl DeepView for WriteKnowledgeResult {
    type V = WriteKnowledgeResultView;

    open spec fn deep_view(&self) -> WriteKnowledgeResultView {
        WriteKnowledgeResultView {
            result: self.result@,
            knowledge_id: self.knowledge_id@,
            knowledge_path: self.knowledge_path@,
            content_revision: self.content_revision@,
        }
    }
}

/// A note of the repository: its file holds `text`.
#[derive(Clone, Debug, PartialEq, Eq)]
pub struct KnowledgeDocument {
    pub record: KnowledgeRecord,
    pub body: String,
    pub filename: String,
    pub text: String,
}

#[verifier::ext_equal]
pub struct KnowledgeDocumentView {
    pub record: KnowledgeRecordView,
    pub body: Seq<char>,
    pub filename: Seq<char>,
    pub text: Seq<char>,
}

impl DeepView for KnowledgeDocument {
    type V = KnowledgeDocumentView;

    open spec fn deep_view(&self) -> KnowledgeDocumentView {
        KnowledgeDocumentView {
            record: self.record.deep_view(),
            body: self.body@,
            filename: self.filename@,
            text: self.text@,
        }
    }
}

/// A note that awaits review.
#[derive(Clone, Debug, PartialEq, Eq)]
pub struct PendingKnowledge {
    pub knowledge_id: String,
    pub asset_id: String,
    pub title: String,
    pub knowledge_path: String,
    pub content_revision: String,
    pub rendered_markdown: String,
}

#[verifier::ext_equal]
pub struct PendingKnowledgeView {
    pub knowledge_id: Seq<char>,
    pub asset_id: Seq<char>,
    pub title: Seq<char>,
    pub knowledge_path: Seq<char>,
    pub content_revision: Seq<char>,
    pub rendered_markdown: Seq<char>,
}

impl DeepView for PendingKnowledge {
    type V = PendingKnowledgeView;

    open spec fn deep_view(&self) -> PendingKnowledgeView {
        PendingKnowledgeView {
            knowledge_id: self.knowledge_id@,
            asset_id: self.asset_id@,
            title: self.title@,
            knowledge_path: self.knowledge_path@,
            content_revision: self.content_revision@,
            rendered_markdown: self.rendered_markdown@,
        }
    }
}

#[derive(Clone, Debug, PartialEq, Eq)]
pub struct KnowledgeNote {
    pub knowledge_id: String,
    pub asset_id: String,
    pub title: String,
    pub knowledge_path: String,
    pub content_revision: String,
    pub review_status: ReviewState,
    pub concepts: Vec<Concept>,
}

#[verifier::ext_equal]
pub struct KnowledgeNoteView {
    pub knowledge_id: Seq<char>,
    pub asset_id: Seq<char>,
    pub title: Seq<char>,
    pub knowledge_path: Seq<char>,
    pub content_revision: Seq<char>,
    pub review_status: ReviewState,
    pub concepts: Seq<ConceptView>,
}

impl DeepView for KnowledgeNote {
    type V = KnowledgeNoteView;

    open spec fn deep_view(&self) -> KnowledgeNoteView {
        KnowledgeNoteView {
            knowledge_id: self.knowledge_id@,
            asset_id: self.asset_id@,
            title: self.title@,
            knowledge_path: self.knowledge_path@,
            content_revision: self.content_revision@,
            review_status: self.review_status,
            concepts: self.concepts.deep_view(),
        }
    }
}

/// A concept that a search found.
#[derive(Clone, Debug, PartialEq, Eq)]
pub struct ConceptMatch {
    pub asset_id: String,
    pub title: String,
    pub name: String,
    pub kind: ConceptKind,
    pub locator: Option<String>,
    pub knowledge_path: String,
}

#[verifier::ext_equal]
pub struct ConceptMatchView {
    pub asset_id: Seq<char>,
    pub title: Seq<char>,
    pub name: Seq<char>,
    pub kind: ConceptKind,
    pub locator: Option<Seq<char>>,
    pub knowledge_path: Seq<char>,
}

impl DeepView for ConceptMatch {
    type V = ConceptMatchView;

    open spec fn deep_view(&self) -> ConceptMatchView {
        ConceptMatchView {
            asset_id: self.asset_id@,
            title: self.title@,
            name: self.name@,
            kind: self.kind,
            locator: self.locator.deep_view(),
            knowledge_path: self.knowledge_path@,
        }
    }
}

#[derive(Clone, Debug, PartialEq, Eq)]
pub struct KnowledgeSearchQuery {
    pub term: String,
    pub kind: Option<ConceptKind>,
    pub tag: Option<String>,
}

#[verifier::ext_equal]
pub struct KnowledgeSearchQueryView {
    pub term: Seq<char>,
    pub kind: Option<ConceptKind>,
    pub tag: Option<Seq<char>>,
}

impl DeepView for KnowledgeSearchQuery {
    type V = KnowledgeSearchQueryView;

    open spec fn deep_view(&self) -> KnowledgeSearchQueryView {
        KnowledgeSearchQueryView {
            term: self.term@,
            kind: self.kind,
            tag: self.tag.deep_view(),
        }
    }
}

pub open spec fn path_failure() -> ErrorView {
    error(
        "knowledge_path_invalid"@,
        "knowledge path must remain in a real knowledge directory"@,
    )
}

fn knowledge_path_error() -> (failure: MkoError)
    ensures
        failure.deep_view() == path_failure(),
{
    MkoError::new(
        "knowledge_path_invalid",
        "knowledge path must remain in a real knowledge directory",
    )
}

pub open spec fn scan_failure() -> ErrorView {
    error(
        "knowledge_scan_limit"@,
        "knowledge discovery exceeded a bounded or regular-file input limit"@,
    )
}

fn knowledge_scan_error() -> (failure: MkoError)
    ensures
        failure.deep_view() == scan_failure(),
{
    MkoError::new(
        "knowledge_scan_limit",
        "knowledge discovery exceeded a bounded or regular-file input limit",
    )
}

pub open spec fn changed_failure() -> ErrorView {
    error(
        "knowledge_revision_mismatch"@,
        "knowledge note changed after selection; nothing was published"@,
    )
}

fn knowledge_changed_error() -> (failure: MkoError)
    ensures
        failure.deep_view() == changed_failure(),
{
    MkoError::new(
        "knowledge_revision_mismatch",
        "knowledge note changed after selection; nothing was published",
    )
}

pub open spec fn publication_failure() -> ErrorView {
    error(
        "knowledge_publication_invalid"@,
        "public knowledge entry does not match the committed knowledge publication"@,
    )
}

fn knowledge_publication_error() -> (failure: MkoError)
    ensures
        failure.deep_view() == publication_failure(),
{
    MkoError::new(
        "knowledge_publication_invalid",
        "public knowledge entry does not match the committed knowledge publication",
    )
}

/// The text with forward slashes.
pub open spec fn forward_slashes(text: Seq<char>) -> Seq<char> {
    text.map_values(
        |c: char|
            if c == '\\' {
                '/'
            } else {
                c
            },
    )
}

/// The path of a note below the repository.
pub open spec fn note_path(filename: Seq<char>) -> Seq<char> {
    forward_slashes("knowledge/"@ + filename)
}

fn repository_relative(filename: &str) -> (path: String)
    ensures
        path@ == note_path(filename@),
{
    let whole = cat2("knowledge/", filename);
    let chars = to_chars(whole.as_str());
    let ghost told = forward_slashes(whole@);
    let mut path = String::new();
    let mut i: usize = 0;
    assert(path@ == told.take(0));
    while i < chars.len()
        invariant
            i <= chars.len(),
            chars@ == whole@,
            told == forward_slashes(whole@),
            path@ == told.take(i as int),
        decreases chars.len() - i,
    {
        let c = if chars[i] == '\\' {
            '/'
        } else {
            chars[i]
        };
        path.push(c);
        assert(told.take(i + 1) == told.take(i as int).push(told[i as int]));
        i += 1;
    }
    assert(told.take(i as int) == told);
    path
}

/// An entry of the directory of notes: its name, where it is UTF-8.
#[derive(Clone, Debug, PartialEq, Eq)]
pub struct KnowledgeEntry {
    pub is_symlink: bool,
    pub name: Option<String>,
}

#[verifier::ext_equal]
pub struct KnowledgeEntryView {
    pub is_symlink: bool,
    pub name: Option<Seq<char>>,
}

impl DeepView for KnowledgeEntry {
    type V = KnowledgeEntryView;

    open spec fn deep_view(&self) -> KnowledgeEntryView {
        KnowledgeEntryView { is_symlink: self.is_symlink, name: self.name.deep_view() }
    }
}

/// Some earlier entry has a name that collides with that of entry `i`.
pub open spec fn name_collides(entries: Seq<KnowledgeEntryView>, i: int) -> bool {
    exists|k: int|
        0 <= k < i && collision_key(#[trigger] entries[k].name->0) == collision_key(
            entries[i].name->0,
        )
}

/// What is wrong with entry `i`, if those before it are in order.
pub open spec fn entry_check(entries: Seq<KnowledgeEntryView>, max_entries: u64, i: int) -> Result<
    (),
    ErrorView,
> {
    if i >= max_entries {
        Err(scan_failure())
    } else if entries[i].is_symlink || entries[i].name is None {
        Err(path_failure())
    } else if name_collides(entries, i) {
        Err(
            error(
                "path_collision"@,
                "knowledge contains a case or Unicode-normalization collision"@,
            ),
        )
    } else {
        Ok(())
    }
}

/// The first thing that is wrong with the entries from `from` on.
pub open spec fn entries_check(entries: Seq<KnowledgeEntryView>, max_entries: u64, from: int) -> Result<
    (),
    ErrorView,
>
    decreases entries.len() - from,
{
    if from >= entries.len() {
        Ok(())
    } else {
        match entry_check(entries, max_entries, from) {
            Err(failure) => Err(failure),
            Ok(_) => entries_check(entries, max_entries, from + 1),
        }
    }
}

/// The notes of a directory, in the order of their names.
pub open spec fn note_names(entries: Seq<KnowledgeEntryView>, max_entries: u64) -> Result<
    Seq<Seq<char>>,
    ErrorView,
> {
    match entries_check(entries, max_entries, 0) {
        Err(failure) => Err(failure),
        Ok(_) => Ok(
            stable_sort::<String>(
                entries.map_values(|entry: KnowledgeEntryView| entry.name->0),
            ).filter(|name: Seq<char>| name_extension(name) == Some("md"@)),
        ),
    }
}

#[verifier::loop_isolation(false)]
fn notes_among(names: &Vec<String>) -> (notes: Vec<String>)
    ensures
        notes.deep_view() == names.deep_view().filter(
            |name: Seq<char>| name_extension(name) == Some("md"@),
        ),
{
    let ghost all = names.deep_view();
    let ghost keep = |name: Seq<char>| name_extension(name) == Some("md"@);
    let mut notes: Vec<String> = Vec::new();
    let mut i: usize = 0;
    proof {
        reveal(Seq::filter);
        assert(all.take(0).filter(keep) == Seq::<Seq<char>>::empty());
        assert(notes.deep_view() == Seq::<Seq<char>>::empty());
    }
    while i < names.len()
        invariant
            i <= names.len(),
            notes.deep_view() == all.take(i as int).filter(keep),
        decreases names.len() - i,
    {
        proof {
            reveal(Seq::filter);
            assert(all.take(i + 1).drop_last() == all.take(i as int));
            assert(all.take(i + 1).last() == names@[i as int]@);
        }
        let is_note = match extension_of(names[i].as_str()) {
            Some(extension) => same(extension.as_str(), "md"),
            None => false,
        };
        if is_note {
            let ghost before = notes.deep_view();
            notes.push(names[i].clone());
            assert(notes.deep_view() == before.push(names@[i as int]@));
        }
        i += 1;
    }
    assert(all.take(i as int) == all);
    notes
}

/// The notes that a scan reads.
#[verifier::loop_isolation(false)]
pub fn list_note_names(entries: &Vec<KnowledgeEntry>, max_entries: u64) -> (result: Result<
    Vec<String>,
    MkoError,
>)
    ensures
        outcome(result) == note_names(entries.deep_view(), max_entries),
{
    let ghost all = entries.deep_view();
    let ghost named = all.map_values(|entry: KnowledgeEntryView| entry.name->0);
    let mut names: Vec<String> = Vec::new();
    let mut keys: Vec<String> = Vec::new();
    let mut i: usize = 0;
    assert(names.deep_view() == named.take(0));
    while i < entries.len()
        invariant
            i <= entries.len(),
            names.deep_view() == named.take(i as int),
            keys.deep_view().len() == i,
            forall|k: int|
                0 <= k < i ==> #[trigger] keys.deep_view()[k] == collision_key(all[k].name->0),
            entries_check(all, max_entries, 0) == entries_check(all, max_entries, i as int),
        decreases entries.len() - i,
    {
        let entry = &entries[i];
        assert(all[i as int] == entry.deep_view());
        if i as u64 >= max_entries {
            return Err(knowledge_scan_error());
        }
        if entry.is_symlink {
            return Err(knowledge_path_error());
        }
        let name = match &entry.name {
            Some(name) => name,
            None => {
                return Err(knowledge_path_error());
            },
        };
        let key = collision_key_of(name.as_str());
        let ghost known = keys.deep_view();
        let collides = lists_text(&keys, key.as_str());
        proof {
            if collides {
                let k = choose|k: int| 0 <= k < known.len() && known[k] == key@;
                assert(collision_key(all[k].name->0) == collision_key(all[i as int].name->0));
                assert(name_collides(all, i as int));
            } else if name_collides(all, i as int) {
                let k = choose|k: int|
                    0 <= k < i && collision_key(#[trigger] all[k].name->0) == collision_key(
                        all[i as int].name->0,
                    );
                assert(known[k] == key@);
                assert(known.contains(key@));
            }
        }
        if collides {
            return Err(
                MkoError::new(
                    "path_collision",
                    "knowledge contains a case or Unicode-normalization collision",
                ),
            );
        }
        let ghost before = names.deep_view();
        let ghost told = key@;
        keys.push(key);
        assert(keys.deep_view() == known.push(told));
        names.push(name.clone());
        assert(names.deep_view() == before.push(name@));
        assert(named.take(i + 1) == named.take(i as int).push(named[i as int]));
        i += 1;
    }
    assert(named.take(i as int) == named);
    let sorted = sort(names);
    Ok(notes_among(&sorted))
}

/// How much of a scan is left.
pub fn remaining_scan_bytes(total: u64, max_total_bytes: u64) -> (result: Result<u64, MkoError>)
    ensures
        match result {
            Ok(left) => total <= max_total_bytes && left == max_total_bytes - total,
            Err(failure) => total > max_total_bytes && failure.deep_view() == scan_failure(),
        },
{
    if total > max_total_bytes {
        return Err(knowledge_scan_error());
    }
    Ok(max_total_bytes - total)
}

/// A note must be a regular file within what is left.
pub fn check_note_file(is_file: bool, is_symlink: bool, len: u64, max_bytes: u64) -> (result: Result<
    (),
    MkoError,
>)
    ensures
        verdict(result) == (if is_file && !is_symlink && len <= max_bytes {
            Ok(())
        } else {
            Err(scan_failure())
        }),
{
    if !is_file || is_symlink || len > max_bytes {
        return Err(knowledge_scan_error());
    }
    Ok(())
}

/// How much is read next: one byte more than the bound tells that it was passed.
pub fn next_chunk(read: u64, max_bytes: u64) -> (result: Result<u64, MkoError>)
    ensures
        match result {
            Ok(size) => {
                let left = if max_bytes == u64::MAX {
                    max_bytes - read
                } else {
                    max_bytes + 1 - read
                };
                left > 0 && size == (if left < KNOWLEDGE_READ_CHUNK_BYTES {
                    left
                } else {
                    KNOWLEDGE_READ_CHUNK_BYTES as int
                })
            },
            Err(failure) => (read > max_bytes || (max_bytes == u64::MAX && read == max_bytes))
                && failure.deep_view() == scan_failure(),
        },
{
    let bound = max_bytes.saturating_add(1);
    if read >= bound {
        return Err(knowledge_scan_error());
    }
    let left: u64 = bound - read;
    Ok(
        if left < KNOWLEDGE_READ_CHUNK_BYTES {
            left
        } else {
            KNOWLEDGE_READ_CHUNK_BYTES
        },
    )
}

/// Refuses what was read beyond the bound.
pub fn check_note_read(read: u64, max_bytes: u64) -> (result: Result<(), MkoError>)
    ensures
        verdict(result) == (if read <= max_bytes {
            Ok(())
        } else {
            Err(scan_failure())
        }),
{
    if read > max_bytes {
        return Err(knowledge_scan_error());
    }
    Ok(())
}

/// The bytes that a scan has read with one more note.
pub fn scanned_total(total: u64, len: u64, max_total_bytes: u64) -> (result: Result<u64, MkoError>)
    ensures
        match result {
            Ok(sum) => sum == total + len && sum <= max_total_bytes,
            Err(failure) => total + len > max_total_bytes && failure.deep_view() == scan_failure(),
        },
{
    match total.checked_add(len) {
        Some(sum) => if sum <= max_total_bytes {
            Ok(sum)
        } else {
            Err(knowledge_scan_error())
        },
        None => Err(knowledge_scan_error()),
    }
}

/// A note that could not be read as one is reported as an invalid existing note.
pub fn existing_knowledge_error(failure: MkoError) -> (told: MkoError)
    ensures
        told.deep_view() == error("existing_knowledge_invalid"@, failure.deep_view().message),
{
    MkoError::new("existing_knowledge_invalid", failure.message())
}

/// The places of the first `n` documents that have the ID.
pub open spec fn with_knowledge_id(documents: Seq<KnowledgeDocumentView>, id: Seq<char>, n: int) -> Seq<
    int,
>
    decreases n,
{
    if n <= 0 {
        Seq::empty()
    } else if documents[n - 1].record.id == id {
        with_knowledge_id(documents, id, n - 1).push(n - 1)
    } else {
        with_knowledge_id(documents, id, n - 1)
    }
}

/// The one note with the ID, if there is one.
pub open spec fn found_note(documents: Seq<KnowledgeDocumentView>, id: Seq<char>) -> Result<
    Option<int>,
    ErrorView,
> {
    let found = with_knowledge_id(documents, id, documents.len() as int);
    if found.len() == 0 {
        Ok(None)
    } else if found.len() == 1 {
        Ok(Some(found[0]))
    } else {
        Err(error("knowledge_conflict"@, "multiple knowledge notes use the same ID"@))
    }
}

/// Finds the note with the ID.
#[verifier::loop_isolation(false)]
pub fn find_knowledge(documents: &Vec<KnowledgeDocument>, knowledge_id: &str) -> (result: Result<
    Option<usize>,
    MkoError,
>)
    ensures
        match result {
            Ok(Some(at)) => at < documents@.len() && found_note(
                documents.deep_view(),
                knowledge_id@,
            ) == Ok::<Option<int>, ErrorView>(Some(at as int)),
            Ok(None) => found_note(documents.deep_view(), knowledge_id@) == Ok::<
                Option<int>,
                ErrorView,
            >(None),
            Err(failure) => found_note(documents.deep_view(), knowledge_id@) == Err::<
                Option<int>,
                ErrorView,
            >(failure.deep_view()),
        },
{
    let ghost all = documents.deep_view();
    let mut found: usize = 0;
    let mut first: usize = 0;
    let mut i: usize = 0;
    while i < documents.len()
        invariant
            i <= documents.len(),
            found <= i,
            found == with_knowledge_id(all, knowledge_id@, i as int).len(),
            found > 0 ==> first < i && with_knowledge_id(all, knowledge_id@, i as int)[0] == first,
        decreases documents.len() - i,
    {
        assert(all[i as int] == documents@[i as int].deep_view());
        if same(documents[i].record.id.as_str(), knowledge_id) {
            if found == 0 {
                first = i;
            }
            found = found + 1;
        }
        i += 1;
    }
    if found == 0 {
        Ok(None)
    } else if found == 1 {
        Ok(Some(first))
    } else {
        Err(MkoError::new("knowledge_conflict", "multiple knowledge notes use the same ID"))
    }
}

/// The bundle was prepared from the Asset that is asked for.
pub open spec fn is_bundle_for(
    bundle: PreparedSourceBundleView,
    asset: AssetRecordView,
    requested: Seq<char>,
) -> bool {
    &&& bundle.asset_id == requested
    &&& bundle.asset_id == asset.id
    &&& bundle.source_id == replace_first(asset.id, "asset"@, "source"@)
    &&& bundle.fingerprint == asset.fingerprint
    &&& bundle.title_hint == asset.title
    &&& bundle.logical_path == asset.provider.locator
}

fn bundle_is_for(bundle: &PreparedSourceBundle, asset: &AssetRecord, requested: &str) -> (result: bool)
    ensures
        result == is_bundle_for(bundle.deep_view(), asset.deep_view(), requested@),
{
    let source_id = with_first_replaced(asset.id.as_str(), "asset", "source");
    same(bundle.asset_id.as_str(), requested) && same(bundle.asset_id.as_str(), asset.id.as_str())
        && same(bundle.source_id.as_str(), source_id.as_str()) && same_fingerprint(
        &bundle.fingerprint,
        &asset.fingerprint,
    ) && same(bundle.title_hint.as_str(), asset.title.as_str()) && same(
        bundle.logical_path.as_str(),
        asset.provider.locator.as_str(),
    )
}

/// What a note is made of: the canonical response, the Asset, and the ID of the note.
#[derive(Debug)]
pub struct KnowledgeBasis {
    response: KnowledgeResponse,
    asset: AssetRecord,
    knowledge_id: String,
}

#[verifier::ext_equal]
pub struct KnowledgeBasisView {
    pub response: KnowledgeResponseView,
    pub asset: AssetRecordView,
    pub knowledge_id: Seq<char>,
}

impl DeepView for KnowledgeBasis {
    type V = KnowledgeBasisView;

    closed spec fn deep_view(&self) -> KnowledgeBasisView {
        KnowledgeBasisView {
            response: self.response.deep_view(),
            asset: self.asset.deep_view(),
            knowledge_id: self.knowledge_id@,
        }
    }
}

/// The rules on what a note is made of. `bundle` is nothing where none was named.
pub open spec fn basis_of(
    requested: Seq<char>,
    response: Result<KnowledgeResponseView, ErrorView>,
    asset: Result<AssetRecordView, ErrorView>,
    bundle: Option<Result<PreparedSourceBundleView, ErrorView>>,
) -> Result<KnowledgeBasisView, ErrorView> {
    match response {
        Err(failure) => Err(failure),
        Ok(given) => match canonical_response(given) {
            (_, Err(failure)) => Err(failure),
            (canonical, Ok(_)) => match asset {
                Err(failure) => Err(error("asset_not_found"@, failure.message)),
                Ok(asset) => match bundle {
                    None => Err(
                        error(
                            "bundle_required"@,
                            "writing knowledge requires a prepared Source bundle"@,
                        ),
                    ),
                    Some(Err(failure)) => Err(failure),
                    Some(Ok(bundle)) => if !is_bundle_for(bundle, asset, requested) {
                        Err(
                            error(
                                "bundle_invalid"@,
                                "prepared Source bundle does not match the requested Asset Registry record"@,
                            ),
                        )
                    } else {
                        match after_prefix(asset.id, "personal-asset-"@) {
                            None => Err(
                                error(
                                    "asset_id_invalid"@,
                                    "asset ID must be a content-addressed asset ID"@,
                                ),
                            ),
                            Some(hash) => Ok(
                                KnowledgeBasisView {
                                    response: canonical,
                                    asset,
                                    knowledge_id: "personal-knowledge-"@ + hash,
                                },
                            ),
                        }
                    },
                },
            },
        },
    }
}

/// What the bundle says, where one was named.
pub open spec fn bundle_outcome(bundle: Option<Result<PreparedSourceBundle, MkoError>>) -> Option<
    Result<PreparedSourceBundleView, ErrorView>,
> {
    match bundle {
        Some(loaded) => Some(outcome(loaded)),
        None => None,
    }
}

/// Brings together what a note is made of.
pub fn begin_knowledge(
    requested: &str,
    response: Result<KnowledgeResponse, MkoError>,
    asset: Result<AssetRecord, MkoError>,
    bundle: Option<Result<PreparedSourceBundle, MkoError>>,
) -> (result: Result<KnowledgeBasis, MkoError>)
    ensures
        outcome(result) == basis_of(
            requested@,
            outcome(response),
            outcome(asset),
            bundle_outcome(bundle),
        ),
        result matches Ok(basis) ==> canonical_response(basis.deep_view().response) == (
            basis.deep_view().response,
            Ok::<(), ErrorView>(()),
        ),
{
    let mut response = match response {
        Ok(response) => response,
        Err(failure) => {
            return Err(failure);
        },
    };
    match normalize_and_validate_knowledge(&mut response) {
        Ok(_) => {},
        Err(failure) => {
            return Err(failure);
        },
    }
    let asset = match asset {
        Ok(asset) => asset,
        Err(failure) => {
            return Err(MkoError::new("asset_not_found", failure.message()));
        },
    };
    let bundle = match bundle {
        Some(Ok(bundle)) => bundle,
        Some(Err(failure)) => {
            return Err(failure);
        },
        None => {
            return Err(
                MkoError::new(
                    "bundle_required",
                    "writing knowledge requires a prepared Source bundle",
                ),
            );
        },
    };
    if !bundle_is_for(&bundle, &asset, requested) {
        return Err(
            MkoError::new(
                "bundle_invalid",
                "prepared Source bundle does not match the requested Asset Registry record",
            ),
        );
    }
    let knowledge_id = match strip_prefix(asset.id.as_str(), "personal-asset-") {
        Some(hash) => cat2("personal-knowledge-", hash),
        None => {
            return Err(
                MkoError::new(
                    "asset_id_invalid",
                    "asset ID must be a content-addressed asset ID",
                ),
            );
        },
    };
    Ok(KnowledgeBasis { response, asset, knowledge_id })
}

impl KnowledgeBasis {
    /// The ID of the note.
    pub fn knowledge_id(&self) -> (id: &str)
        ensures
            id@ == self.deep_view().knowledge_id,
    {
        self.knowledge_id.as_str()
    }
}

/// The record of a new note before it is bound to its revision. It remembers what was
/// approved before.
pub open spec fn unbound_record(basis: KnowledgeBasisView, approved: Option<Seq<char>>) -> KnowledgeRecordView {
    KnowledgeRecordView {
        id: basis.knowledge_id,
        record_type: "knowledge"@,
        schema_version: 1,
        asset_id: basis.asset.id,
        title: basis.asset.title,
        review: KnowledgeReviewView { status: ReviewState::Unreviewed, reviewed_at: None },
        content_revision: Seq::empty(),
        approved_revision: approved,
        generation: KnowledgeGenerationView {
            processor_version: KNOWLEDGE_PROCESSOR_VERSION@,
            prompt_version: KNOWLEDGE_PROMPT_VERSION@,
            asset_fingerprint: basis.asset.fingerprint.value,
        },
        concepts: identified_concepts(basis.response.concepts),
    }
}

/// The body of a new note.
pub open spec fn drafted_body(basis: KnowledgeBasisView) -> Seq<char> {
    note_body(basis.asset.title, basis.response)
}

/// The record of a new note.
pub open spec fn drafted_record(basis: KnowledgeBasisView, approved: Option<Seq<char>>) -> KnowledgeRecordView {
    let unbound = unbound_record(basis, approved);
    KnowledgeRecordView { content_revision: note_revision(unbound, drafted_body(basis)), ..unbound }
}

/// What is written: nothing, in place of a note, or a new note.
#[derive(Debug)]
pub enum KnowledgePlan {
    Keep { result: WriteKnowledgeResult },
    Replace { filename: String, record: KnowledgeRecord, body: String, result: WriteKnowledgeResult },
    Create { filename: String, record: KnowledgeRecord, body: String },
}

pub enum KnowledgePlanView {
    Keep { result: WriteKnowledgeResultView },
    Replace {
        filename: Seq<char>,
        record: KnowledgeRecordView,
        body: Seq<char>,
        result: WriteKnowledgeResultView,
    },
    Create { filename: Seq<char>, record: KnowledgeRecordView, body: Seq<char> },
}

impl DeepView for KnowledgePlan {
    type V = KnowledgePlanView;

    open spec fn deep_view(&self) -> KnowledgePlanView {
        match self {
            KnowledgePlan::Keep { result } => KnowledgePlanView::Keep {
                result: result.deep_view(),
            },
            KnowledgePlan::Replace { filename, record, body, result } => KnowledgePlanView::Replace {
                filename: filename@,
                record: record.deep_view(),
                body: body@,
                result: result.deep_view(),
            },
            KnowledgePlan::Create { filename, record, body } => KnowledgePlanView::Create {
                filename: filename@,
                record: record.deep_view(),
                body: body@,
            },
        }
    }
}

/// The content of a document is that of the revision it names, and of the expected one.
pub open spec fn holds_revision(document: KnowledgeDocumentView, expected: Seq<char>) -> bool {
    let actual = note_revision(document.record, document.body);
    document.record.content_revision == actual && actual == expected
}

fn validate_document_revision(document: &KnowledgeDocument, expected: &str) -> (result: Result<
    (),
    MkoError,
>)
    ensures
        verdict(result) == (if holds_revision(document.deep_view(), expected@) {
            Ok(())
        } else {
            Err(changed_failure())
        }),
{
    match calculate_knowledge_revision(&document.record, document.body.as_str()) {
        Ok(actual) => {
            if !same(document.record.content_revision.as_str(), actual.as_str()) || !same(
                actual.as_str(),
                expected,
            ) {
                return Err(knowledge_changed_error());
            }
            Ok(())
        },
        Err(failure) => Err(failure),
    }
}

/// What is done for a note. The same content is kept, other content is replaced only on
/// demand.
pub open spec fn plan_of(
    basis: KnowledgeBasisView,
    existing: Option<KnowledgeDocumentView>,
    replace: bool,
) -> Result<KnowledgePlanView, ErrorView> {
    match existing {
        Some(document) => {
            let record = drafted_record(basis, document.record.approved_revision);
            if !holds_revision(document, document.record.content_revision) {
                Err(changed_failure())
            } else if record.content_revision == document.record.content_revision {
                Ok(
                    KnowledgePlanView::Keep {
                        result: WriteKnowledgeResultView {
                            result: "existing"@,
                            knowledge_id: document.record.id,
                            knowledge_path: note_path(document.filename),
                            content_revision: document.record.content_revision,
                        },
                    },
                )
            } else if !replace {
                Err(
                    error(
                        "replace_required"@,
                        "regenerating an existing knowledge note requires --replace"@,
                    ),
                )
            } else {
                Ok(
                    KnowledgePlanView::Replace {
                        filename: document.filename,
                        record,
                        body: drafted_body(basis),
                        result: WriteKnowledgeResultView {
                            result: "replaced"@,
                            knowledge_id: record.id,
                            knowledge_path: note_path(document.filename),
                            content_revision: record.content_revision,
                        },
                    },
                )
            }
        },
        None => match note_filename(
            basis.asset.created_at.seconds,
            basis.asset.title,
            basis.knowledge_id,
        ) {
            Err(failure) => Err(failure),
            Ok(filename) => Ok(
                KnowledgePlanView::Create {
                    filename,
                    record: drafted_record(basis, None),
                    body: drafted_body(basis),
                },
            ),
        },
    }
}

/// Decides what is written for a note, beside the one that exists.
pub fn plan_knowledge(
    basis: &KnowledgeBasis,
    existing: &Option<KnowledgeDocument>,
    replace: bool,
) -> (result: Result<KnowledgePlan, MkoError>)
    ensures
        outcome(result) == plan_of(basis.deep_view(), existing.deep_view(), replace),
{
    let approved_revision = match existing {
        Some(document) => copy_option(&document.record.approved_revision),
        None => None,
    };
    let ghost approved = approved_revision.deep_view();
    let body = render_knowledge_body(basis.asset.title.as_str(), &basis.response);
    let mut record = KnowledgeRecord {
        id: basis.knowledge_id.clone(),
        record_type: "knowledge".to_owned(),
        schema_version: 1,
        asset_id: basis.asset.id.clone(),
        title: basis.asset.title.clone(),
        review: KnowledgeReview { status: ReviewState::Unreviewed, reviewed_at: None },
        content_revision: String::new(),
        approved_revision,
        generation: KnowledgeGeneration {
            processor_version: KNOWLEDGE_PROCESSOR_VERSION.to_owned(),
            prompt_version: KNOWLEDGE_PROMPT_VERSION.to_owned(),
            asset_fingerprint: basis.asset.fingerprint.value.clone(),
        },
        concepts: assign_concept_ids(&basis.response.concepts),
    };
    assert(record.deep_view() == unbound_record(basis.deep_view(), approved));
    match calculate_knowledge_revision(&record, body.as_str()) {
        Ok(revision) => {
            record.content_revision = revision;
        },
        Err(failure) => {
            return Err(failure);
        },
    }
    assert(record.deep_view() == drafted_record(basis.deep_view(), approved));
    match existing {
        Some(document) => {
            match validate_document_revision(
                document,
                document.record.content_revision.as_str(),
            ) {
                Ok(_) => {},
                Err(failure) => {
                    return Err(failure);
                },
            }
            let knowledge_path = repository_relative(document.filename.as_str());
            if same(
                record.content_revision.as_str(),
                document.record.content_revision.as_str(),
            ) {
                return Ok(
                    KnowledgePlan::Keep {
                        result: WriteKnowledgeResult {
                            result: "existing".to_owned(),
                            knowledge_id: document.record.id.clone(),
                            knowledge_path,
                            content_revision: document.record.content_revision.clone(),
                        },
                    },
                );
            }
            if !replace {
                return Err(
                    MkoError::new(
                        "replace_required",
                        "regenerating an existing knowledge note requires --replace",
                    ),
                );
            }
            let result = WriteKnowledgeResult {
                result: "replaced".to_owned(),
                knowledge_id: record.id.clone(),
                knowledge_path,
                content_revision: record.content_revision.clone(),
            };
            Ok(
                KnowledgePlan::Replace {
                    filename: document.filename.clone(),
                    record,
                    body,
                    result,
                },
            )
        },
        None => match knowledge_filename(
            basis.asset.created_at.seconds,
            basis.asset.title.as_str(),
            basis.knowledge_id.as_str(),
        ) {
            Ok(filename) => Ok(KnowledgePlan::Create { filename, record, body }),
            Err(failure) => Err(failure),
        },
    }
}

/// What the creation of a note reports.
pub open spec fn creation_of(
    filename: Seq<char>,
    record: KnowledgeRecordView,
    written: AtomicWriteResult,
) -> WriteKnowledgeResultView {
    WriteKnowledgeResultView {
        result: match written {
            AtomicWriteResult::Created => "created"@,
            AtomicWriteResult::Existing => "existing"@,
        },
        knowledge_id: record.id,
        knowledge_path: note_path(filename),
        content_revision: record.content_revision,
    }
}

pub fn finish_creation(filename: &str, record: &KnowledgeRecord, written: AtomicWriteResult) -> (result:
    WriteKnowledgeResult)
    ensures
        result.deep_view() == creation_of(filename@, record.deep_view(), written),
{
    let told = match written {
        AtomicWriteResult::Created => "created",
        AtomicWriteResult::Existing => "existing",
    };
    WriteKnowledgeResult {
        result: told.to_owned(),
        knowledge_id: record.id.clone(),
        knowledge_path: repository_relative(filename),
        content_revision: record.content_revision.clone(),
    }
}

/// What stands at the place of a new note is the same note.
pub open spec fn is_same_note(
    existing: KnowledgeRecordView,
    existing_body: Seq<char>,
    expected: KnowledgeRecordView,
    expected_body: Seq<char>,
) -> bool {
    &&& existing.id == expected.id
    &&& existing.content_revision == expected.content_revision
    &&& note_revision(existing, existing_body) == expected.content_revision
    &&& note_revision(expected, expected_body) == expected.content_revision
}

/// Refuses another note at the place of a new one.
pub fn validate_existing_knowledge(
    existing: &KnowledgeRecord,
    existing_body: &str,
    expected: &KnowledgeRecord,
    expected_body: &str,
) -> (result: Result<(), MkoError>)
    ensures
        verdict(result) == (if is_same_note(
            existing.deep_view(),
            existing_body@,
            expected.deep_view(),
            expected_body@,
        ) {
            Ok(())
        } else {
            Err(
                error(
                    "knowledge_conflict"@,
                    "deterministic knowledge path contains different content"@,
                ),
            )
        }),
{
    let found = match calculate_knowledge_revision(existing, existing_body) {
        Ok(found) => found,
        Err(failure) => {
            return Err(failure);
        },
    };
    let wanted = match calculate_knowledge_revision(expected, expected_body) {
        Ok(wanted) => wanted,
        Err(failure) => {
            return Err(failure);
        },
    };
    if !same(existing.id.as_str(), expected.id.as_str()) || !same(
        existing.content_revision.as_str(),
        expected.content_revision.as_str(),
    ) || !same(found.as_str(), expected.content_revision.as_str()) || !same(
        wanted.as_str(),
        expected.content_revision.as_str(),
    ) {
        return Err(
            MkoError::new(
                "knowledge_conflict",
                "deterministic knowledge path contains different content",
            ),
        );
    }
    Ok(())
}

/// What stands at the place of a note is still what was selected.
pub open spec fn still_selected(
    expected: Seq<char>,
    revision: Seq<char>,
    current: Option<Seq<u8>>,
    document: Option<KnowledgeDocumentView>,
) -> bool {
    &&& current == Some(encode_utf8(expected))
    &&& document matches Some(read) && holds_revision(read, revision)
}

/// Refuses to replace a note that has changed since it was selected: `current` is what
/// stands at its place, and `document` the note in it.
pub fn validate_expected_knowledge_snapshot(
    expected: &str,
    revision: &str,
    current: &Option<Vec<u8>>,
    document: &Option<KnowledgeDocument>,
) -> (result: Result<(), MkoError>)
    ensures
        verdict(result) == (if still_selected(
            expected@,
            revision@,
            match current {
                Some(bytes) => Some(bytes@),
                None => None,
            },
            document.deep_view(),
        ) {
            Ok(())
        } else {
            Err(changed_failure())
        }),
{
    match current {
        Some(bytes) => {
            if !same_bytes(bytes.as_slice(), expected.as_bytes()) {
                return Err(knowledge_changed_error());
            }
        },
        None => {
            return Err(knowledge_changed_error());
        },
    }
    match document {
        Some(read) => validate_document_revision(read, revision),
        None => Err(knowledge_changed_error()),
    }
}

/// A destination that is not what was selected has changed.
pub fn map_knowledge_publication_error(failure: MkoError) -> (told: MkoError)
    ensures
        told.deep_view() == (if failure.deep_view().code == "registry_destination_invalid"@
            || failure.deep_view().code == "registry_not_found"@ || failure.deep_view().code
            == "registry_snapshot_changed"@ {
            changed_failure()
        } else {
            failure.deep_view()
        }),
{
    if same(failure.code(), "registry_destination_invalid") || same(
        failure.code(),
        "registry_not_found",
    ) || same(failure.code(), "registry_snapshot_changed") {
        knowledge_changed_error()
    } else {
        failure
    }
}

/// Which directory a handle is for.
#[derive(Clone, Copy, Debug, PartialEq, Eq, Structural)]
pub struct DirectoryIdentity {
    pub device: u64,
    pub inode: u64,
}

/// Refuses a directory of notes that is not real, or not the one that its name leads to.
/// An identity is nothing where no real directory was found.
pub fn check_knowledge_directory(
    opened: Option<DirectoryIdentity>,
    public: Option<DirectoryIdentity>,
) -> (result: Result<DirectoryIdentity, MkoError>)
    ensures
        match result {
            Ok(identity) => opened == Some(identity) && public == Some(identity),
            Err(failure) => (opened is None || public != opened) && failure.deep_view()
                == path_failure(),
        },
{
    match (opened, public) {
        (Some(identity), Some(again)) => {
            if identity == again {
                Ok(identity)
            } else {
                Err(knowledge_path_error())
            }
        },
        _ => Err(knowledge_path_error()),
    }
}

/// Refuses a publication that the name of the note does not lead to.
pub fn verify_public_knowledge_publication(
    expected: DirectoryIdentity,
    found: Option<DirectoryIdentity>,
    published: &Option<Vec<u8>>,
    document: &str,
) -> (result: Result<(), MkoError>)
    ensures
        verdict(result) == (if found == Some(expected) && (published matches Some(bytes)
            && bytes@ == encode_utf8(document@)) {
            Ok(())
        } else {
            Err(publication_failure())
        }),
{
    match found {
        Some(identity) => {
            if identity != expected {
                return Err(knowledge_publication_error());
            }
        },
        None => {
            return Err(knowledge_publication_error());
        },
    }
    match published {
        Some(bytes) => {
            if same_bytes(bytes.as_slice(), document.as_bytes()) {
                Ok(())
            } else {
                Err(knowledge_publication_error())
            }
        },
        None => Err(knowledge_publication_error()),
    }
}

/// The record of a note that a person has reviewed.
pub open spec fn reviewed_record(
    record: KnowledgeRecordView,
    revision: Seq<char>,
    reviewed_at: Timestamp,
) -> KnowledgeRecordView {
    KnowledgeRecordView {
        review: KnowledgeReviewView {
            status: ReviewState::Reviewed,
            reviewed_at: Some(reviewed_at),
        },
        approved_revision: Some(revision),
        ..record
    }
}

/// The approval of a note: it must exist and hold the revision that is approved.
pub open spec fn approval_of(
    document: Option<KnowledgeDocumentView>,
    revision: Seq<char>,
    reviewed_at: Timestamp,
) -> Result<KnowledgeRecordView, ErrorView> {
    match document {
        None => Err(error("knowledge_not_found"@, "no knowledge note has this ID"@)),
        Some(found) => if holds_revision(found, revision) {
            Ok(reviewed_record(found.record, revision, reviewed_at))
        } else {
            Err(changed_failure())
        },
    }
}

/// Approves a note at a revision.
pub fn approve_knowledge(
    document: &Option<KnowledgeDocument>,
    content_revision: &str,
    reviewed_at: Timestamp,
) -> (result: Result<KnowledgeRecord, MkoError>)
    ensures
        outcome(result) == approval_of(document.deep_view(), content_revision@, reviewed_at),
{
    let found = match document {
        Some(found) => found,
        None => {
            return Err(MkoError::new("knowledge_not_found", "no knowledge note has this ID"));
        },
    };
    match validate_document_revision(found, content_revision) {
        Ok(_) => {},
        Err(failure) => {
            return Err(failure);
        },
    }
    let mut record = found.record.duplicate();
    record.review =
    KnowledgeReview { status: ReviewState::Reviewed, reviewed_at: Some(reviewed_at) };
    record.approved_revision = Some(content_revision.to_owned());
    Ok(record)
}

impl Ranked for KnowledgeNote {
    open spec fn leq(left: KnowledgeNoteView, right: KnowledgeNoteView) -> bool {
        title_at_most(left.title, left.knowledge_id, right.title, right.knowledge_id)
    }

    proof fn leq_total(left: KnowledgeNoteView, right: KnowledgeNoteView) {
        text_total(left.title, right.title);
        text_total(left.knowledge_id, right.knowledge_id);
    }

    proof fn leq_transitive(a: KnowledgeNoteView, b: KnowledgeNoteView, c: KnowledgeNoteView) {
        titles_are_transitive(
            a.title,
            a.knowledge_id,
            b.title,
            b.knowledge_id,
            c.title,
            c.knowledge_id,
        );
    }

    fn ranks_at_most(&self, other: &Self) -> (result: bool) {
        title_not_after(
            self.title.as_str(),
            self.knowledge_id.as_str(),
            other.title.as_str(),
            other.knowledge_id.as_str(),
        )
    }
}

impl Ranked for PendingKnowledge {
    open spec fn leq(left: PendingKnowledgeView, right: PendingKnowledgeView) -> bool {
        title_at_most(left.title, left.knowledge_id, right.title, right.knowledge_id)
    }

    proof fn leq_total(left: PendingKnowledgeView, right: PendingKnowledgeView) {
        text_total(left.title, right.title);
        text_total(left.knowledge_id, right.knowledge_id);
    }

    proof fn leq_transitive(
        a: PendingKnowledgeView,
        b: PendingKnowledgeView,
        c: PendingKnowledgeView,
    ) {
        titles_are_transitive(
            a.title,
            a.knowledge_id,
            b.title,
            b.knowledge_id,
            c.title,
            c.knowledge_id,
        );
    }

    fn ranks_at_most(&self, other: &Self) -> (result: bool) {
        title_not_after(
            self.title.as_str(),
            self.knowledge_id.as_str(),
            other.title.as_str(),
            other.knowledge_id.as_str(),
        )
    }
}

impl Ranked for KnowledgeDocument {
    open spec fn leq(left: KnowledgeDocumentView, right: KnowledgeDocumentView) -> bool {
        title_at_most(left.record.title, left.record.id, right.record.title, right.record.id)
    }

    proof fn leq_total(left: KnowledgeDocumentView, right: KnowledgeDocumentView) {
        text_total(left.record.title, right.record.title);
        text_total(left.record.id, right.record.id);
    }

    proof fn leq_transitive(
        a: KnowledgeDocumentView,
        b: KnowledgeDocumentView,
        c: KnowledgeDocumentView,
    ) {
        titles_are_transitive(
            a.record.title,
            a.record.id,
            b.record.title,
            b.record.id,
            c.record.title,
            c.record.id,
        );
    }

    fn ranks_at_most(&self, other: &Self) -> (result: bool) {
        title_not_after(
            self.record.title.as_str(),
            self.record.id.as_str(),
            other.record.title.as_str(),
            other.record.id.as_str(),
        )
    }
}

/// The order of titles, and of IDs under the same title.
pub open spec fn title_at_most(
    left_title: Seq<char>,
    left_id: Seq<char>,
    right_title: Seq<char>,
    right_id: Seq<char>,
) -> bool {
    if left_title != right_title {
        text_at_most(left_title, right_title)
    } else {
        text_at_most(left_id, right_id)
    }
}

proof fn titles_are_transitive(
    a_title: Seq<char>,
    a_id: Seq<char>,
    b_title: Seq<char>,
    b_id: Seq<char>,
    c_title: Seq<char>,
    c_id: Seq<char>,
)
    requires
        title_at_most(a_title, a_id, b_title, b_id),
        title_at_most(b_title, b_id, c_title, c_id),
    ensures
        title_at_most(a_title, a_id, c_title, c_id),
{
    if a_title == b_title && b_title == c_title {
        text_transitive(a_id, b_id, c_id);
    } else if a_title == c_title {
        text_order_is_antisymmetric(a_title, b_title);
    } else if a_title != b_title && b_title != c_title {
        text_transitive(a_title, b_title, c_title);
    }
}

fn title_not_after(left_title: &str, left_id: &str, right_title: &str, right_id: &str) -> (result: bool)
    ensures
        result == title_at_most(left_title@, left_id@, right_title@, right_id@),
{
    if !same(left_title, right_title) {
        not_after(left_title, right_title)
    } else {
        not_after(left_id, right_id)
    }
}

/// A document as a list shows it.
pub open spec fn listed_note(document: KnowledgeDocumentView) -> KnowledgeNoteView {
    KnowledgeNoteView {
        knowledge_id: document.record.id,
        asset_id: document.record.asset_id,
        title: document.record.title,
        knowledge_path: note_path(document.filename),
        content_revision: document.record.content_revision,
        review_status: document.record.review.status,
        concepts: document.record.concepts,
    }
}

/// The notes of a repository, by title.
pub fn list_knowledge(documents: &Vec<KnowledgeDocument>) -> (notes: Vec<KnowledgeNote>)
    ensures
        notes.deep_view() == stable_sort::<KnowledgeNote>(
            documents.deep_view().map_values(
                |document: KnowledgeDocumentView| listed_note(document),
            ),
        ),
{
    let ghost all = documents.deep_view();
    let ghost told = all.map_values(|document: KnowledgeDocumentView| listed_note(document));
    let mut notes: Vec<KnowledgeNote> = Vec::new();
    let mut i: usize = 0;
    assert(notes.deep_view() == told.take(0));
    while i < documents.len()
        invariant
            i <= documents.len(),
            all == documents.deep_view(),
            told == all.map_values(|document: KnowledgeDocumentView| listed_note(document)),
            notes.deep_view() == told.take(i as int),
        decreases documents.len() - i,
    {
        let ghost before = notes.deep_view();
        let document = &documents[i];
        assert(all[i as int] == document.deep_view());
        let note = KnowledgeNote {
            knowledge_id: document.record.id.clone(),
            asset_id: document.record.asset_id.clone(),
            title: document.record.title.clone(),
            knowledge_path: repository_relative(document.filename.as_str()),
            content_revision: document.record.content_revision.clone(),
            review_status: document.record.review.status,
            concepts: copy_concepts(&document.record.concepts),
        };
        assert(note.deep_view() == told[i as int]);
        notes.push(note);
        assert(notes.deep_view() == before.push(note.deep_view()));
        assert(told.take(i + 1) == told.take(i as int).push(told[i as int]));
        i += 1;
    }
    assert(told.take(i as int) == told);
    sort(notes)
}

/// A document as it is shown for review.
pub open spec fn pending_note(document: KnowledgeDocumentView) -> PendingKnowledgeView {
    PendingKnowledgeView {
        knowledge_id: document.record.id,
        asset_id: document.record.asset_id,
        title: document.record.title,
        knowledge_path: note_path(document.filename),
        content_revision: document.record.content_revision,
        rendered_markdown: document.text,
    }
}

/// The notes that await review, in the order of the documents.
pub open spec fn pending_notes(documents: Seq<KnowledgeDocumentView>) -> Seq<PendingKnowledgeView>
    decreases documents.len(),
{
    if documents.len() == 0 {
        Seq::empty()
    } else {
        let front = pending_notes(documents.drop_last());
        if documents.last().record.review.status == ReviewState::Unreviewed {
            front.push(pending_note(documents.last()))
        } else {
            front
        }
    }
}

/// The notes that await review, by title.
pub fn list_unreviewed_knowledge(documents: &Vec<KnowledgeDocument>) -> (pending: Vec<
    PendingKnowledge,
>)
    ensures
        pending.deep_view() == stable_sort::<PendingKnowledge>(
            pending_notes(documents.deep_view()),
        ),
{
    let ghost all = documents.deep_view();
    let mut pending: Vec<PendingKnowledge> = Vec::new();
    let mut i: usize = 0;
    assert(all.take(0) == Seq::<KnowledgeDocumentView>::empty());
    assert(pending.deep_view() == Seq::<PendingKnowledgeView>::empty());
    while i < documents.len()
        invariant
            i <= documents.len(),
            all == documents.deep_view(),
            pending.deep_view() == pending_notes(all.take(i as int)),
        decreases documents.len() - i,
    {
        let ghost before = pending.deep_view();
        let document = &documents[i];
        assert(all.take(i + 1).drop_last() == all.take(i as int));
        assert(all.take(i + 1).last() == document.deep_view());
        if document.record.review.status == ReviewState::Unreviewed {
            let note = PendingKnowledge {
                knowledge_id: document.record.id.clone(),
                asset_id: document.record.asset_id.clone(),
                title: document.record.title.clone(),
                knowledge_path: repository_relative(document.filename.as_str()),
                content_revision: document.record.content_revision.clone(),
                rendered_markdown: document.text.clone(),
            };
            pending.push(note);
            assert(pending.deep_view() == before.push(note.deep_view()));
        }
        i += 1;
    }
    assert(all.take(i as int) == all);
    sort(pending)
}

/// What both lists tell of a note.
#[verifier::ext_equal]
pub struct ListedNoteView {
    pub knowledge_id: Seq<char>,
    pub asset_id: Seq<char>,
    pub title: Seq<char>,
    pub knowledge_path: Seq<char>,
    pub content_revision: Seq<char>,
}

/// What the list of all notes tells of one.
pub open spec fn told_of_note(note: KnowledgeNoteView) -> ListedNoteView {
    ListedNoteView {
        knowledge_id: note.knowledge_id,
        asset_id: note.asset_id,
        title: note.title,
        knowledge_path: note.knowledge_path,
        content_revision: note.content_revision,
    }
}

/// What the list of the notes that await review tells of one.
pub open spec fn told_of_pending(note: PendingKnowledgeView) -> ListedNoteView {
    ListedNoteView {
        knowledge_id: note.knowledge_id,
        asset_id: note.asset_id,
        title: note.title,
        knowledge_path: note.knowledge_path,
        content_revision: note.content_revision,
    }
}

/// No review of the document has been recorded.
pub open spec fn is_unreviewed(document: KnowledgeDocumentView) -> bool {
    document.record.review.status == ReviewState::Unreviewed
}

proof fn pending_notes_are_unreviewed(documents: Seq<KnowledgeDocumentView>)
    ensures
        pending_notes(documents) == documents.filter(
            |document: KnowledgeDocumentView| is_unreviewed(document),
        ).map_values(|document: KnowledgeDocumentView| pending_note(document)),
    decreases documents.len(),
{
    let keep = |document: KnowledgeDocumentView| is_unreviewed(document);
    let told = |document: KnowledgeDocumentView| pending_note(document);
    if documents.len() == 0 {
        reveal(Seq::filter);
        assert(documents.filter(keep).map_values(told) == Seq::<PendingKnowledgeView>::empty());
    } else {
        let front = documents.drop_last();
        pending_notes_are_unreviewed(front);
        assert(documents == front.push(documents.last()));
        front.lemma_filter_push(documents.last(), keep);
        if keep(documents.last()) {
            assert(documents.filter(keep).map_values(told) == front.filter(keep).map_values(
                told,
            ).push(told(documents.last())));
        }
    }
}

proof fn unreviewed_parts_agree(documents: Seq<KnowledgeDocumentView>)
    ensures
        documents.map_values(|document: KnowledgeDocumentView| listed_note(document)).filter(
            |note: KnowledgeNoteView| note.review_status == ReviewState::Unreviewed,
        ).map_values(|note: KnowledgeNoteView| told_of_note(note)) == documents.filter(
            |document: KnowledgeDocumentView| is_unreviewed(document),
        ).map_values(|document: KnowledgeDocumentView| pending_note(document)).map_values(
            |note: PendingKnowledgeView| told_of_pending(note),
        ),
    decreases documents.len(),
{
    let keep = |document: KnowledgeDocumentView| is_unreviewed(document);
    let listed = |document: KnowledgeDocumentView| listed_note(document);
    let pending = |document: KnowledgeDocumentView| pending_note(document);
    let awaits = |note: KnowledgeNoteView| note.review_status == ReviewState::Unreviewed;
    let told = |note: KnowledgeNoteView| told_of_note(note);
    let shown = |note: PendingKnowledgeView| told_of_pending(note);
    if documents.len() == 0 {
        reveal(Seq::filter);
        assert(documents.map_values(listed).filter(awaits).map_values(told) == Seq::<
            ListedNoteView,
        >::empty());
        assert(documents.filter(keep).map_values(pending).map_values(shown) == Seq::<
            ListedNoteView,
        >::empty());
    } else {
        let front = documents.drop_last();
        let last = documents.last();
        unreviewed_parts_agree(front);
        assert(documents == front.push(last));
        front.lemma_filter_push(last, keep);
        assert(documents.map_values(listed) == front.map_values(listed).push(listed(last)));
        front.map_values(listed).lemma_filter_push(listed(last), awaits);
        if keep(last) {
            let a = front.map_values(listed).filter(awaits);
            let b = front.filter(keep);
            assert(a.push(listed(last)).map_values(told) == a.map_values(told).push(
                told(listed(last)),
            ));
            assert(b.push(last).map_values(pending).map_values(shown) == b.map_values(
                pending,
            ).map_values(shown).push(shown(pending(last))));
        }
    }
}

/// The list of the notes that await review holds exactly the notes of the whole list that
/// have not been reviewed, in the same order, each with the text of its own document.
pub proof fn unreviewed_notes_are_part_of_all(documents: Seq<KnowledgeDocumentView>)
    ensures
        ({
            let all = stable_sort::<KnowledgeNote>(
                documents.map_values(|document: KnowledgeDocumentView| listed_note(document)),
            );
            let pending = stable_sort::<PendingKnowledge>(pending_notes(documents));
            let ordered = stable_sort::<KnowledgeDocument>(documents);
            &&& pending.map_values(|note: PendingKnowledgeView| told_of_pending(note))
                == all.filter(
                |note: KnowledgeNoteView| note.review_status == ReviewState::Unreviewed,
            ).map_values(|note: KnowledgeNoteView| told_of_note(note))
            &&& all == ordered.map_values(
                |document: KnowledgeDocumentView| listed_note(document),
            )
            &&& pending == ordered.filter(
                |document: KnowledgeDocumentView| is_unreviewed(document),
            ).map_values(|document: KnowledgeDocumentView| pending_note(document))
            &&& ordered.to_multiset() == documents.to_multiset()
        }),
{
    let keep = |document: KnowledgeDocumentView| is_unreviewed(document);
    let listed = |document: KnowledgeDocumentView| listed_note(document);
    let told = |document: KnowledgeDocumentView| pending_note(document);
    sorting_keeps_items::<KnowledgeDocument>(documents);
    sorting_follows_the_items::<KnowledgeDocument, KnowledgeNote>(documents, listed);
    pending_notes_are_unreviewed(documents);
    sorting_follows_the_items::<KnowledgeDocument, PendingKnowledge>(
        documents.filter(keep),
        told,
    );
    sorting_keeps_parts_in_order::<KnowledgeDocument>(documents, keep);
    unreviewed_parts_agree(stable_sort::<KnowledgeDocument>(documents));
}

/// What a search looks at in a concept.
pub open spec fn searched_text(concept: ConceptView) -> Seq<char> {
    lowercase(
        concept.name + " "@ + concept.body + " "@ + join(concept.tags, " "@) + " "@ + kind_label(
            concept.kind,
        ),
    )
}

/// A concept is of the kind and has the tag that are asked for, and the term is somewhere in
/// its text, both in lowercase. An empty term is in all.
pub open spec fn is_match(
    concept: ConceptView,
    query: KnowledgeSearchQueryView,
    haystack: Seq<char>,
    term: Seq<char>,
) -> bool {
    &&& query.kind matches Some(kind) ==> concept.kind == kind
    &&& query.tag matches Some(tag) ==> concept.tags.contains(tag)
    &&& term.len() == 0 || contains_text(haystack, term)
}

/// A concept that a search finds.
pub open spec fn is_found(concept: ConceptView, query: KnowledgeSearchQueryView) -> bool {
    is_match(concept, query, searched_text(concept), lowercase(query.term))
}

/// A concept that was found in a document.
pub open spec fn match_in(document: KnowledgeDocumentView, concept: ConceptView) -> ConceptMatchView {
    ConceptMatchView {
        asset_id: document.record.asset_id,
        title: document.record.title,
        name: concept.name,
        kind: concept.kind,
        locator: concept.locator,
        knowledge_path: note_path(document.filename),
    }
}

/// What a search finds among the first `n` concepts of a document.
pub open spec fn matches_in(
    document: KnowledgeDocumentView,
    query: KnowledgeSearchQueryView,
    n: int,
) -> Seq<ConceptMatchView>
    decreases n,
{
    if n <= 0 {
        Seq::empty()
    } else {
        let front = matches_in(document, query, n - 1);
        let concept = document.record.concepts[n - 1];
        if is_found(concept, query) {
            front.push(match_in(document, concept))
        } else {
            front
        }
    }
}

/// What a search finds, in the order of the documents and of their concepts.
pub open spec fn search_results(
    documents: Seq<KnowledgeDocumentView>,
    query: KnowledgeSearchQueryView,
) -> Seq<ConceptMatchView>
    decreases documents.len(),
{
    if documents.len() == 0 {
        Seq::empty()
    } else {
        search_results(documents.drop_last(), query) + matches_in(
            documents.last(),
            query,
            documents.last().record.concepts.len() as int,
        )
    }
}

fn concept_is_found(concept: &Concept, query: &KnowledgeSearchQuery, term: &str) -> (found: bool)
    requires
        term@ == lowercase(query.term@),
    ensures
        found == is_found(concept.deep_view(), query.deep_view()),
{
    let tags = join_texts(&concept.tags, " ");
    let front = cat5(concept.name.as_str(), " ", concept.body.as_str(), " ", tags.as_str());
    let whole = cat3(front.as_str(), " ", concept_kind_label(concept.kind));
    let haystack = lowered(whole.as_str());
    concept_matches(concept, query, haystack.as_str(), term)
}

/// Whether a concept with that text in lowercase matches the query with that term in
/// lowercase.
pub fn concept_matches(
    concept: &Concept,
    query: &KnowledgeSearchQuery,
    haystack: &str,
    term: &str,
) -> (found: bool)
    ensures
        found == is_match(concept.deep_view(), query.deep_view(), haystack@, term@),
{
    if let Some(kind) = query.kind {
        if concept.kind != kind {
            return false;
        }
    }
    if let Some(tag) = &query.tag {
        if !lists_text(&concept.tags, tag.as_str()) {
            return false;
        }
    }
    term.is_empty() || has_text(haystack, term)
}

fn search_document(
    document: &KnowledgeDocument,
    query: &KnowledgeSearchQuery,
    term: &str,
    found: &mut Vec<ConceptMatch>,
)
    requires
        term@ == lowercase(query.term@),
    ensures
        final(found).deep_view() == old(found).deep_view() + matches_in(
            document.deep_view(),
            query.deep_view(),
            document.deep_view().record.concepts.len() as int,
        ),
{
    let ghost start = found.deep_view();
    let ghost view = document.deep_view();
    let concepts = &document.record.concepts;
    let mut i: usize = 0;
    assert(start + matches_in(view, query.deep_view(), 0) == start);
    while i < concepts.len()
        invariant
            i <= concepts.len(),
            view == document.deep_view(),
            *concepts == document.record.concepts,
            term@ == lowercase(query.term@),
            found.deep_view() == start + matches_in(view, query.deep_view(), i as int),
        decreases concepts.len() - i,
    {
        let ghost before = found.deep_view();
        let concept = &concepts[i];
        assert(view.record.concepts[i as int] == concept.deep_view());
        if concept_is_found(concept, query, term) {
            let item = ConceptMatch {
                asset_id: document.record.asset_id.clone(),
                title: document.record.title.clone(),
                name: concept.name.clone(),
                kind: concept.kind,
                locator: copy_option(&concept.locator),
                knowledge_path: repository_relative(document.filename.as_str()),
            };
            found.push(item);
            assert(found.deep_view() == before.push(item.deep_view()));
        }
        i += 1;
    }
}

/// The concepts that a query finds.
pub fn search_knowledge(documents: &Vec<KnowledgeDocument>, query: &KnowledgeSearchQuery) -> (found: Vec<
    ConceptMatch,
>)
    ensures
        found.deep_view() == search_results(documents.deep_view(), query.deep_view()),
{
    let term = lowered(query.term.as_str());
    let ghost all = documents.deep_view();
    let mut found: Vec<ConceptMatch> = Vec::new();
    let mut i: usize = 0;
    assert(all.take(0) == Seq::<KnowledgeDocumentView>::empty());
    assert(found.deep_view() == Seq::<ConceptMatchView>::empty());
    while i < documents.len()
        invariant
            i <= documents.len(),
            all == documents.deep_view(),
            term@ == lowercase(query.term@),
            found.deep_view() == search_results(all.take(i as int), query.deep_view()),
        decreases documents.len() - i,
    {
        assert(all.take(i + 1).drop_last() == all.take(i as int));
        assert(all.take(i + 1).last() == documents@[i as int].deep_view());
        search_document(&documents[i], query, term.as_str(), &mut found);
        i += 1;
    }
    assert(all.take(i as int) == all);
    found
}

/// A term in ASCII finds the same, in the same order, whatever the case of its letters.
pub proof fn ascii_case_finds_the_same(
    documents: Seq<KnowledgeDocumentView>,
    query: KnowledgeSearchQueryView,
    other: Seq<char>,
)
    requires
        is_ascii_chars(query.term),
        ascii_lowered(other) == ascii_lowered(query.term),
    ensures
        search_results(documents, KnowledgeSearchQueryView { term: other, ..query })
            == search_results(documents, query),
    decreases documents.len(),
{
    if documents.len() > 0 {
        ascii_case_finds_the_same(documents.drop_last(), query, other);
        let document = documents.last();
        ascii_case_matches_the_same(
            document,
            query,
            other,
            document.record.concepts.len() as int,
        );
    }
}

proof fn ascii_case_matches_the_same(
    document: KnowledgeDocumentView,
    query: KnowledgeSearchQueryView,
    other: Seq<char>,
    n: int,
)
    requires
        is_ascii_chars(query.term),
        ascii_lowered(other) == ascii_lowered(query.term),
    ensures
        matches_in(document, KnowledgeSearchQueryView { term: other, ..query }, n) == matches_in(
            document,
            query,
            n,
        ),
    decreases n,
{
    ascii_case_is_dropped(query.term, other);
    if n > 0 {
        ascii_case_matches_the_same(document, query, other, n - 1);
    }
}

/// A term in ASCII capitals finds the same as the term itself.
pub proof fn capitals_find_the_same(
    documents: Seq<KnowledgeDocumentView>,
    query: KnowledgeSearchQueryView,
)
    requires
        is_ascii_chars(query.term),
    ensures
        search_results(
            documents,
            KnowledgeSearchQueryView {
                term: query.term.map_values(|c: char| ascii_upper(c)),
                ..query
            },
        ) == search_results(documents, query),
{
    let capitals = query.term.map_values(|c: char| ascii_upper(c));
    assert(ascii_lowered(capitals) =~= ascii_lowered(query.term));
    ascii_case_finds_the_same(documents, query, capitals);
}

/// Asking for a kind gives exactly what is found of that kind, in the same order.
pub proof fn kinds_narrow_a_search(
    documents: Seq<KnowledgeDocumentView>,
    query: KnowledgeSearchQueryView,
    kind: ConceptKind,
)
    requires
        query.kind is None,
    ensures
        search_results(documents, KnowledgeSearchQueryView { kind: Some(kind), ..query })
            == search_results(documents, query).filter(|found: ConceptMatchView| found.kind == kind),
    decreases documents.len(),
{
    let is_wanted = |found: ConceptMatchView| found.kind == kind;
    reveal(Seq::filter);
    if documents.len() > 0 {
        let document = documents.last();
        let n = document.record.concepts.len() as int;
        kinds_narrow_a_search(documents.drop_last(), query, kind);
        kinds_narrow_a_document(document, query, kind, n);
        Seq::filter_distributes_over_add(
            search_results(documents.drop_last(), query),
            matches_in(document, query, n),
            is_wanted,
        );
    }
}

proof fn kinds_narrow_a_document(
    document: KnowledgeDocumentView,
    query: KnowledgeSearchQueryView,
    kind: ConceptKind,
    n: int,
)
    requires
        query.kind is None,
    ensures
        matches_in(document, KnowledgeSearchQueryView { kind: Some(kind), ..query }, n)
            == matches_in(document, query, n).filter(
            |found: ConceptMatchView| found.kind == kind,
        ),
    decreases n,
{
    let is_wanted = |found: ConceptMatchView| found.kind == kind;
    reveal(Seq::filter);
    if n > 0 {
        kinds_narrow_a_document(document, query, kind, n - 1);
        let concept = document.record.concepts[n - 1];
        let front = matches_in(document, query, n - 1);
        front.lemma_filter_push(match_in(document, concept), is_wanted);
    }
}

/// Every concept that is found for a term has the lowercase term in its lowercase name, text,
/// tags and kind, whatever the kind and the tag of the query, and every concept that has the
/// term is found where no kind and no tag are asked for.
pub proof fn found_concepts_have_the_term(concept: ConceptView, query: KnowledgeSearchQueryView)
    ensures
        is_found(concept, query) && lowercase(query.term).len() > 0 ==> exists|at: int|
            0 <= at && at + lowercase(query.term).len() <= lowercase(
                concept.name + " "@ + concept.body + " "@ + join(concept.tags, " "@) + " "@
                    + kind_label(concept.kind),
            ).len() && #[trigger] lowercase(
                concept.name + " "@ + concept.body + " "@ + join(concept.tags, " "@) + " "@
                    + kind_label(concept.kind),
            ).subrange(at, at + lowercase(query.term).len()) == lowercase(query.term),
        query.kind is None && query.tag is None && (lowercase(query.term).len() == 0
            || contains_text(
            lowercase(
                concept.name + " "@ + concept.body + " "@ + join(concept.tags, " "@) + " "@
                    + kind_label(concept.kind),
            ),
            lowercase(query.term),
        )) ==> is_found(concept, query),
{
    if is_found(concept, query) && lowercase(query.term).len() > 0 {
        let text = searched_text(concept);
        found_text_stands_there(text, lowercase(query.term), 0);
        let at = find_from(text, lowercase(query.term), 0)->0;
        assert(text.subrange(at, at + lowercase(query.term).len()) == lowercase(query.term));
    }
}

/// Asking for a tag gives exactly those concepts that are found without it and have it, and
/// asking for a kind exactly those that are found without it and are of it.
pub proof fn tags_and_kinds_narrow_what_is_found(
    concept: ConceptView,
    term: Seq<char>,
    kind: Option<ConceptKind>,
    tag: Option<Seq<char>>,
    other_tag: Seq<char>,
    other_kind: ConceptKind,
)
    ensures
        is_found(concept, KnowledgeSearchQueryView { term, kind, tag: Some(other_tag) })
            <==> is_found(concept, KnowledgeSearchQueryView { term, kind, tag: None })
            && concept.tags.contains(other_tag),
        is_found(concept, KnowledgeSearchQueryView { term, kind: Some(other_kind), tag })
            <==> is_found(concept, KnowledgeSearchQueryView { term, kind: None, tag })
            && concept.kind == other_kind,
{
}

proof fn matches_come_from_concepts(
    document: KnowledgeDocumentView,
    query: KnowledgeSearchQueryView,
    n: int,
)
    requires
        n <= document.record.concepts.len(),
    ensures
        forall|k: int|
            0 <= k < matches_in(document, query, n).len() ==> exists|c: int|
                0 <= c < n && is_found(#[trigger] document.record.concepts[c], query)
                    && #[trigger] matches_in(document, query, n)[k] == match_in(
                    document,
                    document.record.concepts[c],
                ),
        forall|c: int|
            0 <= c < n && is_found(#[trigger] document.record.concepts[c], query) ==> matches_in(
                document,
                query,
                n,
            ).contains(match_in(document, document.record.concepts[c])),
    decreases n,
{
    if n > 0 {
        matches_come_from_concepts(document, query, n - 1);
        let front = matches_in(document, query, n - 1);
        let found = matches_in(document, query, n);
        let concept = document.record.concepts[n - 1];
        assert forall|k: int| 0 <= k < found.len() implies exists|c: int|
            0 <= c < n && is_found(#[trigger] document.record.concepts[c], query)
                && #[trigger] found[k] == match_in(document, document.record.concepts[c]) by {
            if k < front.len() {
                assert(found[k] == front[k]);
                let c = choose|c: int|
                    0 <= c < n - 1 && is_found(#[trigger] document.record.concepts[c], query)
                        && front[k] == match_in(document, document.record.concepts[c]);
                assert(is_found(document.record.concepts[c], query));
            } else {
                assert(is_found(document.record.concepts[n - 1], query));
            }
        }
        assert forall|c: int|
            0 <= c < n && is_found(
                #[trigger] document.record.concepts[c],
                query,
            ) implies found.contains(match_in(document, document.record.concepts[c])) by {
            let wanted = match_in(document, document.record.concepts[c]);
            if c < n - 1 {
                assert(front.contains(wanted));
                let k = choose|k: int| 0 <= k < front.len() && front[k] == wanted;
                assert(found[k] == wanted);
            } else {
                assert(found.last() == wanted);
            }
        }
    }
}

/// A search gives exactly the found concepts of the notes: every result tells the Asset, the
/// title and the place of a note and the name, the kind and the place of a concept of that
/// note that is found, and every found concept of every note is among the results.
pub proof fn searches_give_the_found_concepts(
    documents: Seq<KnowledgeDocumentView>,
    query: KnowledgeSearchQueryView,
)
    ensures
        forall|k: int|
            0 <= k < search_results(documents, query).len() ==> exists|d: int, c: int|
                {
                    &&& 0 <= d < documents.len()
                    &&& 0 <= c < documents[d].record.concepts.len()
                    &&& is_found(#[trigger] documents[d].record.concepts[c], query)
                    &&& (#[trigger] search_results(documents, query)[k]).asset_id
                        == documents[d].record.asset_id
                    &&& search_results(documents, query)[k].title == documents[d].record.title
                    &&& search_results(documents, query)[k].knowledge_path == note_path(
                        documents[d].filename,
                    )
                    &&& search_results(documents, query)[k].name
                        == documents[d].record.concepts[c].name
                    &&& search_results(documents, query)[k].kind
                        == documents[d].record.concepts[c].kind
                    &&& search_results(documents, query)[k].locator
                        == documents[d].record.concepts[c].locator
                },
        forall|d: int, c: int|
            0 <= d < documents.len() && 0 <= c < documents[d].record.concepts.len() && is_found(
                #[trigger] documents[d].record.concepts[c],
                query,
            ) ==> search_results(documents, query).contains(
                ConceptMatchView {
                    asset_id: documents[d].record.asset_id,
                    title: documents[d].record.title,
                    name: documents[d].record.concepts[c].name,
                    kind: documents[d].record.concepts[c].kind,
                    locator: documents[d].record.concepts[c].locator,
                    knowledge_path: note_path(documents[d].filename),
                },
            ),
    decreases documents.len(),
{
    if documents.len() > 0 {
        let last = documents.len() - 1;
        let n = documents.last().record.concepts.len() as int;
        let before = documents.drop_last();
        let front = search_results(before, query);
        let back = matches_in(documents.last(), query, n);
        let found = search_results(documents, query);
        searches_give_the_found_concepts(before, query);
        matches_come_from_concepts(documents.last(), query, n);
        assert forall|k: int| 0 <= k < found.len() implies exists|d: int, c: int|
            {
                &&& 0 <= d < documents.len()
                &&& 0 <= c < documents[d].record.concepts.len()
                &&& is_found(#[trigger] documents[d].record.concepts[c], query)
                &&& (#[trigger] found[k]).asset_id == documents[d].record.asset_id
                &&& found[k].title == documents[d].record.title
                &&& found[k].knowledge_path == note_path(documents[d].filename)
                &&& found[k].name == documents[d].record.concepts[c].name
                &&& found[k].kind == documents[d].record.concepts[c].kind
                &&& found[k].locator == documents[d].record.concepts[c].locator
            } by {
            if k < front.len() {
                assert(found[k] == front[k]);
                let (d, c) = choose|d: int, c: int|
                    {
                        &&& 0 <= d < before.len()
                        &&& 0 <= c < before[d].record.concepts.len()
                        &&& is_found(#[trigger] before[d].record.concepts[c], query)
                        &&& front[k].asset_id == before[d].record.asset_id
                        &&& front[k].title == before[d].record.title
                        &&& front[k].knowledge_path == note_path(before[d].filename)
                        &&& front[k].name == before[d].record.concepts[c].name
                        &&& front[k].kind == before[d].record.concepts[c].kind
                        &&& front[k].locator == before[d].record.concepts[c].locator
                    };
                assert(documents[d] == before[d]);
                assert(is_found(documents[d].record.concepts[c], query));
            } else {
                assert(found[k] == back[k - front.len()]);
                let c = choose|c: int|
                    0 <= c < n && is_found(#[trigger] documents.last().record.concepts[c], query)
                        && back[k - front.len()] == match_in(
                        documents.last(),
                        documents.last().record.concepts[c],
                    );
                assert(is_found(documents[last].record.concepts[c], query));
            }
        }
        assert forall|d: int, c: int|
            0 <= d < documents.len() && 0 <= c < documents[d].record.concepts.len() && is_found(
                #[trigger] documents[d].record.concepts[c],
                query,
            ) implies found.contains(
            ConceptMatchView {
                asset_id: documents[d].record.asset_id,
                title: documents[d].record.title,
                name: documents[d].record.concepts[c].name,
                kind: documents[d].record.concepts[c].kind,
                locator: documents[d].record.concepts[c].locator,
                knowledge_path: note_path(documents[d].filename),
            },
        ) by {
            let wanted = match_in(documents[d], documents[d].record.concepts[c]);
            if d < last {
                assert(before[d] == documents[d]);
                assert(is_found(before[d].record.concepts[c], query));
                assert(front.contains(wanted));
                let k = choose|k: int| 0 <= k < front.len() && front[k] == wanted;
                assert(found[k] == wanted);
            } else {
                assert(is_found(documents.last().record.concepts[c], query));
                assert(back.contains(wanted));
                let k = choose|k: int| 0 <= k < back.len() && back[k] == wanted;
                assert(found[front.len() + k] == wanted);
            }
        }
    }
}

/// A note is written only for a response that is accepted, an Asset that is registered, and a
/// prepared bundle of that same Asset, whose title, place and content have not changed since.
pub proof fn notes_rest_on_a_prepared_asset(
    requested: Seq<char>,
    response: Result<KnowledgeResponseView, ErrorView>,
    asset: Result<AssetRecordView, ErrorView>,
    bundle: Option<Result<PreparedSourceBundleView, ErrorView>>,
    basis: KnowledgeBasisView,
)
    requires
        basis_of(requested, response, asset, bundle) == Ok::<KnowledgeBasisView, ErrorView>(basis),
    ensures
        response is Ok,
        canonical_response(response->Ok_0) == (basis.response, Ok::<(), ErrorView>(())),
        asset == Ok::<AssetRecordView, ErrorView>(basis.asset),
        basis.asset.id == requested,
        bundle is Some,
        bundle->0 is Ok,
        bundle->0->Ok_0.asset_id == requested,
        bundle->0->Ok_0.fingerprint == basis.asset.fingerprint,
        bundle->0->Ok_0.title_hint == basis.asset.title,
        bundle->0->Ok_0.logical_path == basis.asset.provider.locator,
        bundle->0->Ok_0.source_id == replace_first(requested, "asset"@, "source"@),
        exists|hash: Seq<char>|
            requested == "personal-asset-"@ + hash && basis.knowledge_id
                == #[trigger] ("personal-knowledge-"@ + hash),
{
    let hash = after_prefix(basis.asset.id, "personal-asset-"@)->0;
    assert(basis.asset.id =~= "personal-asset-"@ + hash);
    assert(basis.knowledge_id == "personal-knowledge-"@ + hash);
}

/// Without a bundle nothing is written, and neither with the bundle of another Asset.
pub proof fn notes_need_their_bundle(
    requested: Seq<char>,
    response: KnowledgeResponseView,
    asset: AssetRecordView,
    bundle: PreparedSourceBundleView,
)
    requires
        canonical_response(response).1 is Ok,
    ensures
        basis_of(requested, Ok(response), Ok(asset), None) is Err,
        basis_of(requested, Ok(response), Ok(asset), None)->Err_0.code == "bundle_required"@,
        bundle.asset_id != requested || bundle.asset_id != asset.id || bundle.fingerprint
            != asset.fingerprint || bundle.title_hint != asset.title || bundle.logical_path
            != asset.provider.locator ==> basis_of(
            requested,
            Ok(response),
            Ok(asset),
            Some(Ok(bundle)),
        ) is Err && basis_of(requested, Ok(response), Ok(asset), Some(Ok(bundle)))->Err_0.code
            == "bundle_invalid"@,
{
}

/// A drafted note carries the identity of its basis: the ID of the note, the ID, the title
/// and the fingerprint of the Asset, and every concept of the response, in its order. It is
/// unreviewed, and its body is the response written out under the title of the Asset.
pub proof fn drafts_carry_their_basis(
    basis: KnowledgeBasisView,
    approved: Option<Seq<char>>,
    i: int,
)
    requires
        0 <= i < basis.response.concepts.len(),
    ensures
        ({
            let record = drafted_record(basis, approved);
            &&& record.id == basis.knowledge_id
            &&& record.record_type == "knowledge"@
            &&& record.schema_version == 1
            &&& record.asset_id == basis.asset.id
            &&& record.title == basis.asset.title
            &&& record.generation.asset_fingerprint == basis.asset.fingerprint.value
            &&& record.generation.processor_version == "knowledge-v1"@
            &&& record.generation.prompt_version == "codex-knowledge-v1"@
            &&& record.review.status == ReviewState::Unreviewed
            &&& record.review.reviewed_at is None
            &&& record.approved_revision == approved
            &&& record.concepts.len() == basis.response.concepts.len()
            &&& record.concepts[i].name == basis.response.concepts[i].name
            &&& record.concepts[i].kind == basis.response.concepts[i].kind
            &&& record.concepts[i].body == basis.response.concepts[i].body
            &&& record.concepts[i].tags == basis.response.concepts[i].tags
            &&& record.concepts[i].locator == basis.response.concepts[i].locator
            &&& drafted_body(basis) == note_body(basis.asset.title, basis.response)
        }),
{
}

/// A new note is made under the name that its Asset calls for, unreviewed and approved by
/// nobody. An existing note is kept where the response comes to the same content, and
/// otherwise replaced only where that was asked for: in its place, with the approval that it
/// had.
pub proof fn notes_are_replaced_only_when_asked(
    basis: KnowledgeBasisView,
    document: KnowledgeDocumentView,
    replace: bool,
)
    requires
        document.record.content_revision == note_revision(document.record, document.body),
    ensures
        ({
            let drafted = drafted_record(basis, document.record.approved_revision);
            let plan = plan_of(basis, Some(document), replace);
            &&& drafted.content_revision == document.record.content_revision ==> plan == Ok::<
                KnowledgePlanView,
                ErrorView,
            >(
                KnowledgePlanView::Keep {
                    result: WriteKnowledgeResultView {
                        result: "existing"@,
                        knowledge_id: document.record.id,
                        knowledge_path: note_path(document.filename),
                        content_revision: document.record.content_revision,
                    },
                },
            )
            &&& drafted.content_revision != document.record.content_revision && !replace ==> plan
                is Err && plan->Err_0.code == "replace_required"@
            &&& drafted.content_revision != document.record.content_revision && replace ==> plan
                == Ok::<KnowledgePlanView, ErrorView>(
                KnowledgePlanView::Replace {
                    filename: document.filename,
                    record: drafted,
                    body: drafted_body(basis),
                    result: WriteKnowledgeResultView {
                        result: "replaced"@,
                        knowledge_id: basis.knowledge_id,
                        knowledge_path: note_path(document.filename),
                        content_revision: drafted.content_revision,
                    },
                },
            )
        }),
{
}

/// A note that no longer holds the content that its revision tells is never written over.
pub proof fn edited_notes_are_never_replaced(
    basis: KnowledgeBasisView,
    document: KnowledgeDocumentView,
    replace: bool,
)
    requires
        document.record.content_revision != note_revision(document.record, document.body),
    ensures
        plan_of(basis, Some(document), replace) is Err,
        plan_of(basis, Some(document), replace)->Err_0.code == "knowledge_revision_mismatch"@,
{
}

/// Where there is no note yet, one is made under the name that its Asset calls for, and
/// reported under that name: as created where it was made, and as existing where an equal one
/// stood there already.
pub proof fn new_notes_are_created(basis: KnowledgeBasisView, replace: bool, filename: Seq<char>)
    requires
        note_filename(basis.asset.created_at.seconds, basis.asset.title, basis.knowledge_id)
            == Ok::<Seq<char>, ErrorView>(filename),
    ensures
        ({
            let drafted = drafted_record(basis, None);
            let made = creation_of(filename, drafted, AtomicWriteResult::Created);
            let found = creation_of(filename, drafted, AtomicWriteResult::Existing);
            &&& plan_of(basis, None, replace) == Ok::<KnowledgePlanView, ErrorView>(
                KnowledgePlanView::Create { filename, record: drafted, body: drafted_body(basis) },
            )
            &&& made.result == "created"@
            &&& made.knowledge_id == basis.knowledge_id
            &&& made.knowledge_path == note_path(filename)
            &&& made.content_revision == drafted.content_revision
            &&& found == (WriteKnowledgeResultView { result: "existing"@, ..made })
        }),
{
}

/// Approving a note makes it reviewed at the given time and approves the revision that was
/// shown, which is the one of its content; all else about it stays. A note whose content is
/// another is not approved.
pub proof fn approvals_change_the_review_alone(
    document: KnowledgeDocumentView,
    revision: Seq<char>,
    reviewed_at: Timestamp,
)
    ensures
        approval_of(Some(document), revision, reviewed_at) is Ok <==> document.record.content_revision
            == revision && note_revision(document.record, document.body) == revision,
        approval_of(Some(document), revision, reviewed_at) matches Ok(record) ==> {
            &&& record.review.status == ReviewState::Reviewed
            &&& record.review.reviewed_at == Some(reviewed_at)
            &&& record.approved_revision == Some(revision)
            &&& record.id == document.record.id
            &&& record.record_type == document.record.record_type
            &&& record.schema_version == document.record.schema_version
            &&& record.asset_id == document.record.asset_id
            &&& record.title == document.record.title
            &&& record.content_revision == document.record.content_revision
            &&& record.generation == document.record.generation
            &&& record.concepts == document.record.concepts
        },
        approval_of(None, revision, reviewed_at) is Err,
{
}

/// A listed note, and one that awaits review, tells what its document holds.
pub proof fn listed_notes_tell_their_document(document: KnowledgeDocumentView)
    ensures
        ({
            let note = listed_note(document);
            let pending = pending_note(document);
            &&& note.knowledge_id == document.record.id
            &&& note.asset_id == document.record.asset_id
            &&& note.title == document.record.title
            &&& note.knowledge_path == note_path(document.filename)
            &&& note.content_revision == document.record.content_revision
            &&& note.review_status == document.record.review.status
            &&& note.concepts == document.record.concepts
            &&& pending.knowledge_id == document.record.id
            &&& pending.asset_id == document.record.asset_id
            &&& pending.title == document.record.title
            &&& pending.knowledge_path == note_path(document.filename)
            &&& pending.content_revision == document.record.content_revision
            &&& pending.rendered_markdown == document.text
        }),
        !document.filename.contains('\\') ==> note_path(document.filename) == "knowledge/"@
            + document.filename,
{
    if !document.filename.contains('\\') {
        reveal_strlit("knowledge/");
        assert(note_path(document.filename) =~= "knowledge/"@ + document.filename) by {
            assert forall|i: int|
                0 <= i < ("knowledge/"@ + document.filename).len() implies #[trigger] note_path(
                document.filename,
            )[i] == ("knowledge/"@ + document.filename)[i] by {
                if i >= "knowledge/"@.len() {
                    assert(document.filename[i - "knowledge/"@.len()] != '\\');
                }
            }
        }
    }
}

proof fn ids_are_of_documents(documents: Seq<KnowledgeDocumentView>, id: Seq<char>, n: int)
    requires
        0 <= n <= documents.len(),
    ensures
        forall|k: int|
            #![trigger with_knowledge_id(documents, id, n)[k]]
            0 <= k < with_knowledge_id(documents, id, n).len() ==> 0 <= with_knowledge_id(
                documents,
                id,
                n,
            )[k] < n && documents[with_knowledge_id(documents, id, n)[k]].record.id == id,
        forall|d: int|
            0 <= d < n && (#[trigger] documents[d]).record.id == id ==> with_knowledge_id(
                documents,
                id,
                n,
            ).contains(d),
        with_knowledge_id(documents, id, n).no_duplicates(),
    decreases n,
{
    if n > 0 {
        ids_are_of_documents(documents, id, n - 1);
        let front = with_knowledge_id(documents, id, n - 1);
        let all = with_knowledge_id(documents, id, n);
        assert forall|d: int|
            0 <= d < n && (#[trigger] documents[d]).record.id == id implies all.contains(d) by {
            if d < n - 1 {
                let k = choose|k: int| 0 <= k < front.len() && front[k] == d;
                assert(all[k] == d);
            } else {
                assert(all.last() == d);
            }
        }
    }
}

/// The note with an ID is the only one that has it: none is found exactly where no note has
/// the ID, and where two have it there is a conflict.
pub proof fn the_found_note_has_the_id(documents: Seq<KnowledgeDocumentView>, id: Seq<char>)
    ensures
        found_note(documents, id) == Ok::<Option<int>, ErrorView>(None) <==> forall|d: int|
            0 <= d < documents.len() ==> (#[trigger] documents[d]).record.id != id,
        found_note(documents, id) matches Ok(Some(at)) ==> 0 <= at < documents.len()
            && documents[at].record.id == id && forall|d: int|
            0 <= d < documents.len() && (#[trigger] documents[d]).record.id == id ==> d == at,
        found_note(documents, id) is Err <==> exists|d: int, e: int|
            0 <= d < e < documents.len() && (#[trigger] documents[d]).record.id == id && (
            #[trigger] documents[e]).record.id == id,
{
    let n = documents.len() as int;
    let all = with_knowledge_id(documents, id, n);
    ids_are_of_documents(documents, id, n);
    if all.len() == 0 {
        assert forall|d: int| 0 <= d < n implies (#[trigger] documents[d]).record.id != id by {
            if documents[d].record.id == id {
                assert(all.contains(d));
            }
        }
    } else {
        assert(documents[all[0]].record.id == id);
        if all.len() == 1 {
            assert forall|d: int| 0 <= d < n && (#[trigger] documents[d]).record.id == id implies d
                == all[0] by {
                assert(all.contains(d));
            }
        } else {
            let (a, b) = (all[0], all[1]);
            assert(a != b);
            assert(documents[a].record.id == id && documents[b].record.id == id);
        }
    }
}

/// Reviewing does not touch the content: a reviewed note keeps its revision, and its review
/// fits that revision.
pub proof fn reviews_keep_the_revision(
    document: KnowledgeDocumentView,
    revision: Seq<char>,
    reviewed_at: Timestamp,
)
    requires
        approval_of(Some(document), revision, reviewed_at) is Ok,
    ensures
        ({
            let record = approval_of(Some(document), revision, reviewed_at)->Ok_0;
            &&& note_revision(record, document.body) == revision
            &&& record.content_revision == revision
            &&& note_review_fits(record, revision)
            &&& record.concepts == document.record.concepts
            &&& record.title == document.record.title
        }),
{
}

/// A note is written bound to its content, and unreviewed.
pub proof fn written_notes_hold_their_revision(basis: KnowledgeBasisView, approved: Option<Seq<char>>)
    ensures
        ({
            let record = drafted_record(basis, approved);
            &&& record.content_revision == note_revision(record, drafted_body(basis))
            &&& record.review.status == ReviewState::Unreviewed
            &&& record.approved_revision == approved
        }),
{
}

/// A note that is written passes every check on notes: the one on its record, and the one
/// against its Asset at the place where a new note goes. It is written from a canonical
/// response for a canonical Asset, and remembers at most a revision.
pub proof fn written_notes_are_valid(
    basis: KnowledgeBasisView,
    approved: Option<Seq<char>>,
    registry_path: Seq<char>,
    path: Seq<char>,
)
    requires
        canonical_response(basis.response) == (basis.response, Ok::<(), ErrorView>(())),
        is_canonical_asset(registry_path, basis.asset),
        basis.knowledge_id == "personal-knowledge-"@ + after_prefix(
            basis.asset.id,
            "personal-asset-"@,
        )->0,
        approved matches Some(revision) ==> is_revision_text(revision),
    ensures
        note_issues(path, drafted_record(basis, approved), drafted_body(basis)) == Seq::<
            KnowledgeValidationIssueView,
        >::empty(),
        note_filename(basis.asset.created_at.seconds, basis.asset.title, basis.knowledge_id)
            matches Ok(name) ==> is_note_of(
            "knowledge/"@ + name,
            drafted_record(basis, approved),
            basis.asset,
        ),
{
    let record = drafted_record(basis, approved);
    let body = drafted_body(basis);
    let inputs = basis.response.concepts;
    let unbound = unbound_record(basis, approved);
    assert(note_revision(record, body) == note_revision(unbound, body));
    assert(concept_inputs(record.concepts) == inputs);
    concept_ids_are_unique(input_names(inputs));
    assert(record.concepts.map_values(|concept: ConceptView| concept.id) == concept_ids(
        input_names(inputs),
    ));
    assert(note_issues(path, record, body) == Seq::<KnowledgeValidationIssueView>::empty());
    let prefix = "personal-asset-"@;
    let id = basis.asset.id;
    let hash = after_prefix(id, prefix)->0;
    assert(id.subrange(0, prefix.len() as int) == prefix);
    assert(find_from(id, prefix, 0) == Some(0int));
    assert(replace_first(id, prefix, "personal-knowledge-"@) == basis.knowledge_id) by {
        assert(id.take(0) == Seq::<char>::empty());
        assert(Seq::<char>::empty() + "personal-knowledge-"@ == "personal-knowledge-"@);
        assert(id.skip(prefix.len() as int) == hash);
    }
}

/// What a planned write reports, and the note that stands after it: `written` tells whether
/// a new note was made.
pub open spec fn note_after(
    plan: KnowledgePlanView,
    existing: Option<KnowledgeDocumentView>,
    written: AtomicWriteResult,
    text: Seq<char>,
) -> (WriteKnowledgeResultView, Option<KnowledgeDocumentView>) {
    match plan {
        KnowledgePlanView::Keep { result } => (result, existing),
        KnowledgePlanView::Replace { filename, record, body, result } => (
            result,
            Some(KnowledgeDocumentView { record, body, filename, text }),
        ),
        KnowledgePlanView::Create { filename, record, body } => (
            creation_of(filename, record, written),
            Some(KnowledgeDocumentView { record, body, filename, text }),
        ),
    }
}

/// A note with another outcome of its review.
pub open spec fn with_review(
    document: KnowledgeDocumentView,
    review: KnowledgeReviewView,
) -> KnowledgeDocumentView {
    KnowledgeDocumentView {
        record: KnowledgeRecordView { review, ..document.record },
        ..document
    }
}

/// Writing the same response again, with the content unchanged in between, keeps the note,
/// whatever its review came to, and reports it as existing, with the id, the path and the
/// revision that the first write reported.
pub proof fn rewriting_keeps_the_note(
    basis: KnowledgeBasisView,
    existing: Option<KnowledgeDocumentView>,
    replace: bool,
    written: AtomicWriteResult,
    text: Seq<char>,
    review: KnowledgeReviewView,
    again: bool,
)
    requires
        plan_of(basis, existing, replace) is Ok,
    ensures
        ({
            let (first, document) = note_after(
                plan_of(basis, existing, replace)->Ok_0,
                existing,
                written,
                text,
            );
            &&& document is Some
            &&& plan_of(basis, Some(with_review(document->0, review)), again) == Ok::<
                KnowledgePlanView,
                ErrorView,
            >(
                KnowledgePlanView::Keep {
                    result: WriteKnowledgeResultView { result: "existing"@, ..first },
                },
            )
        }),
{
}

} // verus!
