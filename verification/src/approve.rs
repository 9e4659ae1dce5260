//! The approval of a Source by a person: what is shown, what must be typed, and what is
//! published only if nothing has changed in between.

use crate::asset_validation::{prefixed_hash, valid_prefixed_hash};
use crate::canonical_source::{review_agrees, source_check, validate_canonical_source};
use crate::check::repair_command;
use crate::error::{error, outcome, verdict, ErrorView, MkoError};
use crate::model::{
    AssetRecord, AssetRecordView, AssetStatus, Review, ReviewStatus, ReviewView, SourceRecord,
    SourceRecordView, SourceStatus, Timestamp,
};
use crate::order::{sort, stable_sort};
use crate::paths::{extension_of, name_extension};
use crate::text::{
    byte_len, cat2, cat3, cat4, cat5, contains_char, decimal, decimal_digits, lines, lines_of,
    parse_number, same, same_bytes, split, split_text, starts_with, to_chars, written_number,
};
use crate::unicode::{lossy_text, to_lossy_text, to_text};
use vstd::prelude::*;
use vstd::utf8::{encode_utf8, valid_utf8};

verus! {

/// The largest Source that can be approved.
pub const MAX_SOURCE_BYTES: u64 = 2_097_152;

/// The most entries that the directory of Sources may have.
pub const MAX_SOURCE_ENTRIES: usize = 1024;

/// The most bytes that a search for a Source reads.
pub const MAX_SOURCE_SCAN_BYTES: u64 = 8_388_608;

/// The longest name of a Source file.
pub const MAX_SOURCE_FILENAME_BYTES: usize = 255;

/// The most that Git may answer about a Source.
pub const MAX_GIT_SUMMARY_BYTES: usize = 65_536;

#[derive(Clone, Debug, PartialEq, Eq)]
pub struct ApproveSourceRequest {
    repository_root: String,
    source_id: String,
}

#[verifier::ext_equal]
pub struct ApproveSourceRequestView {
    pub repository_root: Seq<char>,
    pub source_id: Seq<char>,
}

impl DeepView for ApproveSourceRequest {
    type V = ApproveSourceRequestView;

    closed spec fn deep_view(&self) -> ApproveSourceRequestView {
        ApproveSourceRequestView {
            repository_root: self.repository_root@,
            source_id: self.source_id@,
        }
    }
}

impl ApproveSourceRequest {
    pub fn new(repository_root: &str, source_id: &str) -> (request: Self)
        ensures
            request.deep_view() == (ApproveSourceRequestView {
                repository_root: repository_root@,
                source_id: source_id@,
            }),
    {
        ApproveSourceRequest {
            repository_root: repository_root.to_owned(),
            source_id: source_id.to_owned(),
        }
    }

    pub fn repository_root(&self) -> (path: &str)
        ensures
            path@ == self.deep_view().repository_root,
    {
        self.repository_root.as_str()
    }

    pub fn source_id(&self) -> (id: &str)
        ensures
            id@ == self.deep_view().source_id,
    {
        self.source_id.as_str()
    }
}

#[derive(Clone, Debug, PartialEq, Eq)]
pub struct ApproveSourceResult {
    pub source_id: String,
    pub revision: String,
    pub source_path: String,
}

#[verifier::ext_equal]
pub struct ApproveSourceResultView {
    pub source_id: Seq<char>,
    pub revision: Seq<char>,
    pub source_path: Seq<char>,
}

impl DeepView for ApproveSourceResult {
    type V = ApproveSourceResultView;

    open spec fn deep_view(&self) -> ApproveSourceResultView {
        ApproveSourceResultView {
            source_id: self.source_id@,
            revision: self.revision@,
            source_path: self.source_path@,
        }
    }
}

pub open spec fn unconfirmed() -> ErrorView {
    error(
        "human_confirmation_required"@,
        "approval requires interactive stdin/stdout and the exact confirmation phrase"@,
    )
}

fn confirmation_error() -> (failure: MkoError)
    ensures
        failure.deep_view() == unconfirmed(),
{
    MkoError::new(
        "human_confirmation_required",
        "approval requires interactive stdin/stdout and the exact confirmation phrase",
    )
}

pub open spec fn unscannable() -> ErrorView {
    error(
        "source_scan_limit"@,
        "Source discovery exceeded a bounded or regular-file input limit"@,
    )
}

fn source_scan_error() -> (failure: MkoError)
    ensures
        failure.deep_view() == unscannable(),
{
    MkoError::new(
        "source_scan_limit",
        "Source discovery exceeded a bounded or regular-file input limit",
    )
}

pub open spec fn changed() -> ErrorView {
    error(
        "source_changed_during_approval"@,
        "Source changed after it was presented for approval; nothing was overwritten"@,
    )
}

fn source_changed_error() -> (failure: MkoError)
    ensures
        failure.deep_view() == changed(),
{
    MkoError::new(
        "source_changed_during_approval",
        "Source changed after it was presented for approval; nothing was overwritten",
    )
}

/// Only a person at a terminal can approve, and only a Source with a valid ID.
pub fn begin_approval(request: &ApproveSourceRequest, stdin_is_terminal: bool, stdout_is_terminal: bool) -> (result:
    Result<(), MkoError>)
    ensures
        verdict(result) == (if !stdin_is_terminal || !stdout_is_terminal {
            Err(unconfirmed())
        } else if prefixed_hash(request.deep_view().source_id, "personal-source-"@) is None {
            Err(error("source_id_invalid"@, "invalid content-addressed Source ID"@))
        } else {
            Ok(())
        }),
{
    if !stdin_is_terminal || !stdout_is_terminal {
        return Err(confirmation_error());
    }
    if valid_prefixed_hash(request.source_id.as_str(), "personal-source-").is_none() {
        return Err(MkoError::new("source_id_invalid", "invalid content-addressed Source ID"));
    }
    Ok(())
}

/// An entry of the directory of Sources: its name, where it is UTF-8, and whether it is a
/// regular file.
#[derive(Clone, Debug, PartialEq, Eq)]
pub struct SourceDirectoryEntry {
    pub name: Option<String>,
    pub is_regular: bool,
}

#[verifier::ext_equal]
pub struct SourceDirectoryEntryView {
    pub name: Option<Seq<char>>,
    pub is_regular: bool,
}

impl DeepView for SourceDirectoryEntry {
    type V = SourceDirectoryEntryView;

    open spec fn deep_view(&self) -> SourceDirectoryEntryView {
        SourceDirectoryEntryView { name: self.name.deep_view(), is_regular: self.is_regular }
    }
}

/// An entry that a directory of Sources may have.
pub open spec fn is_source_entry(entry: SourceDirectoryEntryView) -> bool {
    match entry.name {
        None => false,
        Some(name) => {
            &&& encode_utf8(name).len() <= MAX_SOURCE_FILENAME_BYTES
            &&& name.len() > 0
            &&& name != "."@
            &&& name != ".."@
            &&& !name.contains('/')
            &&& !name.contains('\\')
            &&& entry.is_regular
        },
    }
}

/// The documents among the names, in order.
pub open spec fn document_names(names: Seq<Seq<char>>) -> Seq<Seq<char>> {
    stable_sort::<String>(names).filter(|name: Seq<char>| name_extension(name) == Some("md"@))
}

/// The documents of a directory of Sources, in order.
pub open spec fn source_names(entries: Seq<SourceDirectoryEntryView>) -> Result<
    Seq<Seq<char>>,
    ErrorView,
> {
    if entries.len() > MAX_SOURCE_ENTRIES || exists|i: int|
        0 <= i < entries.len() && !is_source_entry(#[trigger] entries[i]) {
        Err(unscannable())
    } else {
        Ok(document_names(entries.map_values(|entry: SourceDirectoryEntryView| entry.name->0)))
    }
}

fn source_entry(entry: &SourceDirectoryEntry) -> (name: Option<&str>)
    ensures
        name is Some == is_source_entry(entry.deep_view()),
        name matches Some(text) ==> entry.deep_view().name == Some(text@),
{
    match &entry.name {
        None => None,
        Some(name) => {
            let text = name.as_str();
            if byte_len(text) > MAX_SOURCE_FILENAME_BYTES || text.is_empty() || same(text, ".")
                || same(text, "..") || contains_char(text, '/') || contains_char(text, '\\')
                || !entry.is_regular {
                None
            } else {
                Some(text)
            }
        },
    }
}

#[verifier::loop_isolation(false)]
fn documents_among(names: &Vec<String>) -> (documents: Vec<String>)
    ensures
        documents.deep_view() == names.deep_view().filter(
            |name: Seq<char>| name_extension(name) == Some("md"@),
        ),
{
    let ghost all = names.deep_view();
    let ghost keep = |name: Seq<char>| name_extension(name) == Some("md"@);
    let mut documents: Vec<String> = Vec::new();
    let mut i: usize = 0;
    proof {
        reveal(Seq::filter);
        assert(all.take(0).filter(keep) == Seq::<Seq<char>>::empty());
        assert(documents.deep_view() == Seq::<Seq<char>>::empty());
    }
    while i < names.len()
        invariant
            i <= names.len(),
            documents.deep_view() == all.take(i as int).filter(keep),
        decreases names.len() - i,
    {
        proof {
            reveal(Seq::filter);
            assert(all.take(i + 1).drop_last() == all.take(i as int));
            assert(all.take(i + 1).last() == names@[i as int]@);
        }
        let is_document = match extension_of(names[i].as_str()) {
            Some(extension) => same(extension.as_str(), "md"),
            None => false,
        };
        if is_document {
            let ghost before = documents.deep_view();
            documents.push(names[i].clone());
            assert(documents.deep_view() == before.push(names@[i as int]@));
        }
        i += 1;
    }
    assert(all.take(i as int) == all);
    documents
}

/// The documents that a search for a Source reads.
pub fn list_source_names(entries: &Vec<SourceDirectoryEntry>) -> (result: Result<
    Vec<String>,
    MkoError,
>)
    ensures
        outcome(result) == source_names(entries.deep_view()),
{
    let ghost all = entries.deep_view();
    let ghost named = all.map_values(|entry: SourceDirectoryEntryView| entry.name->0);
    let mut names: Vec<String> = Vec::new();
    let mut i: usize = 0;
    if entries.len() > MAX_SOURCE_ENTRIES {
        return Err(source_scan_error());
    }
    assert(names.deep_view() == named.take(0));
    while i < entries.len()
        invariant
            i <= entries.len(),
            entries.len() <= MAX_SOURCE_ENTRIES,
            all == entries.deep_view(),
            named == all.map_values(|entry: SourceDirectoryEntryView| entry.name->0),
            forall|k: int| 0 <= k < i ==> is_source_entry(#[trigger] all[k]),
            names.deep_view() == named.take(i as int),
        decreases entries.len() - i,
    {
        assert(all[i as int] == entries@[i as int].deep_view());
        match source_entry(&entries[i]) {
            None => {
                return Err(source_scan_error());
            },
            Some(name) => {
                let ghost before = names.deep_view();
                let copy = name.to_owned();
                names.push(copy);
                assert(names.deep_view() == before.push(copy@));
                assert(named.take(i + 1) == named.take(i as int).push(named[i as int]));
            },
        }
        i += 1;
    }
    assert(named.take(i as int) == named);
    let sorted = sort(names);
    Ok(documents_among(&sorted))
}

/// The content of a Source file, with the size and the time that its metadata told.
#[derive(Clone, Debug, PartialEq, Eq)]
pub struct SourceSnapshot {
    pub bytes: Vec<u8>,
    pub len: u64,
    pub modified: Option<Timestamp>,
}

#[verifier::ext_equal]
pub struct SourceSnapshotView {
    pub bytes: Seq<u8>,
    pub len: u64,
    pub modified: Option<Timestamp>,
}

impl DeepView for SourceSnapshot {
    type V = SourceSnapshotView;

    open spec fn deep_view(&self) -> SourceSnapshotView {
        SourceSnapshotView { bytes: self.bytes@, len: self.len, modified: self.modified }
    }
}

impl SourceSnapshot {
    fn duplicate(&self) -> (copy: Self)
        ensures
            copy.deep_view() == self.deep_view(),
    {
        SourceSnapshot {
            bytes: crate::text::copy_plain(&self.bytes),
            len: self.len,
            modified: self.modified,
        }
    }
}

fn same_snapshot(left: &SourceSnapshot, right: &SourceSnapshot) -> (equal: bool)
    ensures
        equal == (left.deep_view() == right.deep_view()),
{
    let modified = match (left.modified, right.modified) {
        (Some(a), Some(b)) => a == b,
        (None, None) => true,
        _ => false,
    };
    same_bytes(left.bytes.as_slice(), right.bytes.as_slice()) && left.len == right.len && modified
}

/// The place of a Source must be a regular file.
pub fn check_source_place(is_regular: bool) -> (result: Result<(), MkoError>)
    ensures
        verdict(result) == (if is_regular {
            Ok(())
        } else {
            Err(
                error(
                    "source_path_invalid"@,
                    "Source must remain a regular file in the retained sources directory"@,
                ),
            )
        }),
{
    if is_regular {
        Ok(())
    } else {
        Err(
            MkoError::new(
                "source_path_invalid",
                "Source must remain a regular file in the retained sources directory",
            ),
        )
    }
}

/// The opened Source must be a regular file of a bounded size.
pub fn check_source_size(is_regular: bool, len: u64) -> (result: Result<(), MkoError>)
    ensures
        verdict(result) == (if is_regular && len <= MAX_SOURCE_BYTES {
            Ok(())
        } else {
            Err(error("source_too_large"@, "Source is not a bounded regular file"@))
        }),
{
    if !is_regular || len > MAX_SOURCE_BYTES {
        return Err(MkoError::new("source_too_large", "Source is not a bounded regular file"));
    }
    Ok(())
}

/// What was read of a Source must keep within the bound.
pub fn check_source_content(read: u64) -> (result: Result<(), MkoError>)
    ensures
        verdict(result) == (if read <= MAX_SOURCE_BYTES {
            Ok(())
        } else {
            Err(error("source_too_large"@, "Source exceeds the 2 MiB approval limit"@))
        }),
{
    if read > MAX_SOURCE_BYTES {
        return Err(MkoError::new("source_too_large", "Source exceeds the 2 MiB approval limit"));
    }
    Ok(())
}

/// A Source document as it was read: its record, its body and the revision of its content.
#[derive(Debug)]
pub struct SourceDocument {
    pub record: SourceRecord,
    pub body: String,
    pub revision: Result<String, MkoError>,
}

#[verifier::ext_equal]
pub struct SourceDocumentView {
    pub record: SourceRecordView,
    pub body: Seq<char>,
    pub revision: Result<Seq<char>, ErrorView>,
}

impl DeepView for SourceDocument {
    type V = SourceDocumentView;

    open spec fn deep_view(&self) -> SourceDocumentView {
        SourceDocumentView {
            record: self.record.deep_view(),
            body: self.body@,
            revision: outcome(self.revision),
        }
    }
}

fn copy_revision(revision: &Result<String, MkoError>) -> (copy: Result<String, MkoError>)
    ensures
        outcome(copy) == outcome(*revision),
{
    match revision {
        Ok(text) => Ok(text.clone()),
        Err(failure) => Err(failure.duplicate()),
    }
}

/// A file that a search read: what it holds, where it could be read, and the document in
/// it, where it is one.
#[derive(Debug)]
pub struct ReadSource {
    pub filename: String,
    pub snapshot: Option<SourceSnapshot>,
    pub document: Option<SourceDocument>,
}

#[verifier::ext_equal]
pub struct ReadSourceView {
    pub filename: Seq<char>,
    pub snapshot: Option<SourceSnapshotView>,
    pub document: Option<SourceDocumentView>,
}

impl DeepView for ReadSource {
    type V = ReadSourceView;

    open spec fn deep_view(&self) -> ReadSourceView {
        ReadSourceView {
            filename: self.filename@,
            snapshot: self.snapshot.deep_view(),
            document: self.document.deep_view(),
        }
    }
}

/// How many bytes the first `n` files have, if all of them are documents and the bytes keep
/// within the bound.
pub open spec fn scanned_bytes(read: Seq<ReadSourceView>, n: int) -> Option<nat>
    decreases n,
{
    if n <= 0 {
        Some(0)
    } else {
        match (scanned_bytes(read, n - 1), read[n - 1].snapshot, read[n - 1].document) {
            (Some(before), Some(snapshot), Some(_)) => if before + snapshot.bytes.len()
                <= MAX_SOURCE_SCAN_BYTES {
                Some(before + snapshot.bytes.len())
            } else {
                None
            },
            _ => None,
        }
    }
}

/// The places of the documents among the first `n` files that have the ID.
pub open spec fn with_source_id(read: Seq<ReadSourceView>, id: Seq<char>, n: int) -> Seq<int>
    decreases n,
{
    if n <= 0 {
        Seq::empty()
    } else if read[n - 1].document matches Some(document) && document.record.id == id {
        with_source_id(read, id, n - 1).push(n - 1)
    } else {
        with_source_id(read, id, n - 1)
    }
}

/// The one document with the ID.
pub open spec fn discovery(read: Seq<ReadSourceView>, id: Seq<char>) -> Result<int, ErrorView> {
    let matches_found = with_source_id(read, id, read.len() as int);
    if scanned_bytes(read, read.len() as int) is None {
        Err(unscannable())
    } else if matches_found.len() == 0 {
        Err(error("source_not_found"@, "canonical Source was not found"@))
    } else if matches_found.len() == 1 {
        Ok(matches_found[0])
    } else {
        Err(error("source_conflict"@, "multiple Sources use the same ID"@))
    }
}

proof fn scan_fails_on(read: Seq<ReadSourceView>, n: int, m: int)
    requires
        0 <= n <= m <= read.len(),
        scanned_bytes(read, n) is None,
    ensures
        scanned_bytes(read, m) is None,
    decreases m,
{
    if n < m {
        scan_fails_on(read, n, m - 1);
    }
}

/// Finds the document with the ID among the files that were read.
#[verifier::loop_isolation(false)]
pub fn discover_source(read: &Vec<ReadSource>, source_id: &str) -> (result: Result<usize, MkoError>)
    ensures
        match result {
            Ok(at) => at < read@.len() && discovery(read.deep_view(), source_id@) == Ok::<
                int,
                ErrorView,
            >(at as int),
            Err(failure) => discovery(read.deep_view(), source_id@) == Err::<int, ErrorView>(
                failure.deep_view(),
            ),
        },
{
    let ghost all = read.deep_view();
    let mut found: usize = 0;
    let mut first: usize = 0;
    let mut total: u64 = 0;
    let mut i: usize = 0;
    while i < read.len()
        invariant
            i <= read.len(),
            found == with_source_id(all, source_id@, i as int).len(),
            found <= i,
            found > 0 ==> first < i && with_source_id(all, source_id@, i as int)[0] == first,
            scanned_bytes(all, i as int) == Some(total as nat),
            total <= MAX_SOURCE_SCAN_BYTES,
        decreases read.len() - i,
    {
        let file = &read[i];
        assert(all[i as int] == file.deep_view());
        match (&file.snapshot, &file.document) {
            (Some(snapshot), Some(document)) => {
                if snapshot.bytes.len() as u64 > MAX_SOURCE_SCAN_BYTES - total {
                    proof {
                        scan_fails_on(all, i + 1, all.len() as int);
                    }
                    return Err(source_scan_error());
                }
                total = total + snapshot.bytes.len() as u64;
                if same(document.record.id.as_str(), source_id) {
                    if found == 0 {
                        first = i;
                    }
                    found = found + 1;
                }
            },
            _ => {
                proof {
                    scan_fails_on(all, i + 1, all.len() as int);
                }
                return Err(source_scan_error());
            },
        }
        i += 1;
    }
    if found == 0 {
        Err(MkoError::new("source_not_found", "canonical Source was not found"))
    } else if found == 1 {
        Ok(first)
    } else {
        Err(MkoError::new("source_conflict", "multiple Sources use the same ID"))
    }
}

/// The Asset that a Source is made of.
pub fn related_asset(source: &SourceRecord) -> (result: Result<String, MkoError>)
    ensures
        outcome(result) == (if source.deep_view().relations.asset_ids.len() == 1 {
            Ok(source.deep_view().relations.asset_ids[0])
        } else {
            Err(error("relation_missing"@, "Source must relate to one Asset"@))
        }),
{
    let ids = &source.relations.asset_ids;
    if ids.len() == 1 {
        assert(ids.deep_view()[0] == ids@[0]@);
        Ok(ids[0].clone())
    } else {
        Err(MkoError::new("relation_missing", "Source must relate to one Asset"))
    }
}

/// A Source that has been shown to a person and awaits confirmation.
#[derive(Debug)]
pub struct PendingApproval {
    source: SourceRecord,
    body: String,
    asset: AssetRecord,
    source_path: String,
    revision: String,
    expected: SourceSnapshot,
}

#[verifier::ext_equal]
pub struct PendingApprovalView {
    pub source: SourceRecordView,
    pub body: Seq<char>,
    pub asset: AssetRecordView,
    pub source_path: Seq<char>,
    pub revision: Seq<char>,
    pub expected: SourceSnapshotView,
}

impl DeepView for PendingApproval {
    type V = PendingApprovalView;

    closed spec fn deep_view(&self) -> PendingApprovalView {
        PendingApprovalView {
            source: self.source.deep_view(),
            body: self.body@,
            asset: self.asset.deep_view(),
            source_path: self.source_path@,
            revision: self.revision@,
            expected: self.expected.deep_view(),
        }
    }
}

/// What may be shown for approval: a pending Source of the one Asset, canonical, whose
/// Asset awaits review.
pub open spec fn presentation(
    repository_root: Seq<char>,
    filename: Seq<char>,
    snapshot: SourceSnapshotView,
    document: SourceDocumentView,
    asset_id: Seq<char>,
    asset: Result<AssetRecordView, ErrorView>,
) -> Result<PendingApprovalView, ErrorView> {
    let source = document.record;
    let source_path = "sources/"@ + filename;
    if !valid_utf8(snapshot.bytes) {
        Err(error("source_unreadable"@, "Source must be UTF-8"@))
    } else if source.status != SourceStatus::ReviewPending || source.review.status
        != ReviewStatus::Pending {
        Err(error("source_not_approvable"@, "only a pending Source can be approved"@))
    } else if source.relations.asset_ids != seq![asset_id] {
        Err(error("relation_mismatch"@, "Source relation changed during approval"@))
    } else {
        match asset {
            Err(failure) => Err(failure),
            Ok(asset) => match source_check(
                source_path,
                source,
                document.body,
                asset,
                document.revision,
            ) {
                Err(failure) => Err(failure),
                Ok(revision) => if asset.asset_status != AssetStatus::ReviewPending {
                    Err(
                        error(
                            "source_state_mismatch"@,
                            "repair the Asset first: "@ + repair_command(repository_root, asset_id),
                        ),
                    )
                } else {
                    Ok(
                        PendingApprovalView {
                            source,
                            body: document.body,
                            asset,
                            source_path,
                            revision,
                            expected: snapshot,
                        },
                    )
                },
            },
        }
    }
}

/// Shows a Source for approval.
pub fn present_source(
    repository_root: &str,
    filename: &str,
    snapshot: &SourceSnapshot,
    document: &SourceDocument,
    asset_id: &str,
    asset: Result<AssetRecord, MkoError>,
) -> (result: Result<PendingApproval, MkoError>)
    ensures
        outcome(result) == presentation(
            repository_root@,
            filename@,
            snapshot.deep_view(),
            document.deep_view(),
            asset_id@,
            outcome(asset),
        ),
{
    if to_text(snapshot.bytes.as_slice()).is_none() {
        return Err(MkoError::new("source_unreadable", "Source must be UTF-8"));
    }
    let source = &document.record;
    if source.status != SourceStatus::ReviewPending || source.review.status
        != ReviewStatus::Pending {
        return Err(
            MkoError::new("source_not_approvable", "only a pending Source can be approved"),
        );
    }
    let ids = &source.relations.asset_ids;
    let related = ids.len() == 1 && same(ids[0].as_str(), asset_id);
    proof {
        let only = seq![asset_id@];
        assert(only.len() == 1 && only[0] == asset_id@);
        if related {
            assert(ids.deep_view() == only);
        } else if ids.deep_view() == only {
            assert(ids.deep_view()[0] == ids@[0]@);
        }
    }
    if !related {
        return Err(
            MkoError::new("relation_mismatch", "Source relation changed during approval"),
        );
    }
    let asset = match asset {
        Ok(asset) => asset,
        Err(failure) => {
            return Err(failure);
        },
    };
    let source_path = cat2("sources/", filename);
    let revision = match validate_canonical_source(
        source_path.as_str(),
        source,
        document.body.as_str(),
        &asset,
        copy_revision(&document.revision),
    ) {
        Ok(revision) => revision,
        Err(failure) => {
            return Err(failure);
        },
    };
    if asset.asset_status != AssetStatus::ReviewPending {
        let command = cat4(
            "mko source repair-state --repo \"",
            repository_root,
            "\" --asset-id ",
            asset_id,
        );
        let message = cat2("repair the Asset first: ", command.as_str());
        return Err(MkoError::new("source_state_mismatch", message.as_str()));
    }
    Ok(
        PendingApproval {
            source: source.duplicate(),
            body: document.body.clone(),
            asset,
            source_path,
            revision,
            expected: snapshot.duplicate(),
        },
    )
}

/// What a person is shown before approving.
pub open spec fn approval_prompt(pending: PendingApprovalView, git_summary: Seq<char>) -> Seq<char> {
    let bytes = pending.expected.bytes;
    "Source ID: "@ + pending.source.id + "\nCurrent revision: "@ + pending.revision
        + "\nStatus: review_pending -> approved\nSource bytes: "@ + decimal_digits(bytes.len())
        + "\nSource lines: "@ + decimal_digits(lines(lossy_text(bytes)).len()) + "\nGit diff: "@
        + git_summary + "\nType exactly: APPROVE "@ + pending.source.id + "\n> "@
}

/// The text without the line ending that a terminal leaves at its end.
pub open spec fn without_line_end(text: Seq<char>) -> Seq<char>
    decreases text.len(),
{
    if text.len() > 0 && (text.last() == '\r' || text.last() == '\n') {
        without_line_end(text.drop_last())
    } else {
        text
    }
}

fn trim_line_end(text: &str) -> (line: String)
    ensures
        line@ == without_line_end(text@),
{
    let chars = to_chars(text);
    let mut len: usize = chars.len();
    assert(text@.take(len as int) == text@);
    while len > 0 && (chars[len - 1] == '\r' || chars[len - 1] == '\n')
        invariant
            len <= chars.len(),
            chars@ == text@,
            without_line_end(text@) == without_line_end(text@.take(len as int)),
        decreases len,
    {
        assert(text@.take(len as int).drop_last() == text@.take(len - 1));
        len -= 1;
    }
    let kept = text.substring_char(0, len);
    assert(kept@ == text@.take(len as int));
    kept.to_owned()
}

/// Whether the phrase that confirms an approval was typed.
pub open spec fn is_confirmation(line: Seq<char>, source_id: Seq<char>) -> bool {
    without_line_end(line) == "APPROVE "@ + source_id
}

/// The record of an approved Source: bound to the revision that was shown.
pub open spec fn approved_record(
    source: SourceRecordView,
    revision: Seq<char>,
    reviewed_at: Timestamp,
    updated_at: Timestamp,
) -> SourceRecordView {
    SourceRecordView {
        status: SourceStatus::Approved,
        content_revision: revision,
        review: ReviewView {
            status: ReviewStatus::Approved,
            approved_revision: Some(revision),
            reviewed_at: Some(reviewed_at),
        },
        updated_at,
        ..source
    }
}

/// What stands at the place of the Source is still what was shown.
pub open spec fn still_as_shown(
    pending: PendingApprovalView,
    current: Option<SourceSnapshotView>,
    document: Option<SourceDocumentView>,
) -> bool {
    &&& current == Some(pending.expected)
    &&& valid_utf8(pending.expected.bytes)
    &&& document matches Some(read) && read.record.id == pending.source.id && source_check(
        pending.source_path,
        read.record,
        read.body,
        pending.asset,
        read.revision,
    ) == Ok::<Seq<char>, ErrorView>(pending.revision)
}

/// What was published is the approved document.
pub open spec fn is_published(
    pending: PendingApprovalView,
    document: Seq<char>,
    published: Option<Seq<u8>>,
    read: Option<SourceDocumentView>,
) -> bool {
    &&& published == Some(encode_utf8(document))
    &&& read matches Some(found) && found.record.id == pending.source.id && found.record.status
        == SourceStatus::Approved && found.record.review.status == ReviewStatus::Approved
        && source_check(
        pending.source_path,
        found.record,
        found.body,
        pending.asset,
        found.revision,
    ) == Ok::<Seq<char>, ErrorView>(pending.revision)
}

/// What an approval comes to: nothing is approved without the exact phrase, nor where
/// something else than what was shown stands at the place of the Source.
pub open spec fn approval_of(
    pending: PendingApprovalView,
    line: Seq<char>,
    current: Option<SourceSnapshotView>,
    document: Option<SourceDocumentView>,
    reviewed_at: Timestamp,
    updated_at: Timestamp,
) -> Result<SourceRecordView, ErrorView> {
    if !is_confirmation(line, pending.source.id) {
        Err(unconfirmed())
    } else if !still_as_shown(pending, current, document) {
        Err(changed())
    } else {
        Ok(approved_record(pending.source, pending.revision, reviewed_at, updated_at))
    }
}

/// A record is approved exactly where the phrase for its own Source was typed and the
/// Source still stands as it was shown; it is then the Source that was shown, approved at
/// the revision that was shown.
pub proof fn approvals_are_confirmed(
    pending: PendingApprovalView,
    line: Seq<char>,
    current: Option<SourceSnapshotView>,
    document: Option<SourceDocumentView>,
    reviewed_at: Timestamp,
    updated_at: Timestamp,
)
    ensures
        approval_of(pending, line, current, document, reviewed_at, updated_at) is Ok
            <==> is_confirmation(line, pending.source.id) && still_as_shown(
            pending,
            current,
            document,
        ),
        approval_of(pending, line, current, document, reviewed_at, updated_at) matches Ok(record)
            ==> {
            &&& record.id == pending.source.id
            &&& record.status == SourceStatus::Approved
            &&& record.review.approved_revision == Some(pending.revision)
        },
{
}

impl PendingApproval {
    /// What a person is shown.
    pub fn prompt(&self, git_summary: &str) -> (text: String)
        ensures
            text@ == approval_prompt(self.deep_view(), git_summary@),
    {
        let input = to_lossy_text(self.expected.bytes.as_slice());
        let all = lines_of(input.as_str());
        let byte_count = decimal(self.expected.bytes.len() as u64);
        let line_count = decimal(all.len() as u64);
        let head = cat4(
            "Source ID: ",
            self.source.id.as_str(),
            "\nCurrent revision: ",
            self.revision.as_str(),
        );
        let counts = cat5(
            head.as_str(),
            "\nStatus: review_pending -> approved\nSource bytes: ",
            byte_count.as_str(),
            "\nSource lines: ",
            line_count.as_str(),
        );
        let diff = cat3(counts.as_str(), "\nGit diff: ", git_summary);
        cat4(diff.as_str(), "\nType exactly: APPROVE ", self.source.id.as_str(), "\n> ")
    }

    /// Refuses everything but the exact phrase.
    pub fn confirm(&self, line: &str) -> (result: Result<(), MkoError>)
        ensures
            verdict(result) == (if is_confirmation(line@, self.deep_view().source.id) {
                Ok(())
            } else {
                Err(unconfirmed())
            }),
    {
        let typed = trim_line_end(line);
        let wanted = cat2("APPROVE ", self.source.id.as_str());
        if same(typed.as_str(), wanted.as_str()) {
            Ok(())
        } else {
            Err(confirmation_error())
        }
    }

    /// Refuses a Source that is not what was shown.
    pub fn revalidate(&self, current: &Option<SourceSnapshot>, document: &Option<SourceDocument>) -> (result:
        Result<(), MkoError>)
        ensures
            verdict(result) == (if still_as_shown(
                self.deep_view(),
                current.deep_view(),
                document.deep_view(),
            ) {
                Ok(())
            } else {
                Err(changed())
            }),
    {
        let snapshot = match current {
            Some(snapshot) => snapshot,
            None => {
                return Err(source_changed_error());
            },
        };
        if !same_snapshot(snapshot, &self.expected) {
            return Err(source_changed_error());
        }
        if to_text(snapshot.bytes.as_slice()).is_none() {
            return Err(source_changed_error());
        }
        let read = match document {
            Some(read) => read,
            None => {
                return Err(source_changed_error());
            },
        };
        match validate_canonical_source(
            self.source_path.as_str(),
            &read.record,
            read.body.as_str(),
            &self.asset,
            copy_revision(&read.revision),
        ) {
            Ok(revision) => {
                if !same(read.record.id.as_str(), self.source.id.as_str()) || !same(
                    revision.as_str(),
                    self.revision.as_str(),
                ) {
                    return Err(source_changed_error());
                }
                Ok(())
            },
            Err(_) => Err(source_changed_error()),
        }
    }

    /// The record that is published, from the typed line and what stands at the place of
    /// the Source after it was typed.
    pub fn approve(
        &self,
        line: &str,
        current: &Option<SourceSnapshot>,
        document: &Option<SourceDocument>,
        reviewed_at: Timestamp,
        updated_at: Timestamp,
    ) -> (result: Result<SourceRecord, MkoError>)
        ensures
            outcome(result) == approval_of(
                self.deep_view(),
                line@,
                current.deep_view(),
                document.deep_view(),
                reviewed_at,
                updated_at,
            ),
    {
        match self.confirm(line) {
            Ok(_) => {},
            Err(failure) => {
                return Err(failure);
            },
        }
        match self.revalidate(current, document) {
            Ok(_) => {},
            Err(failure) => {
                return Err(failure);
            },
        }
        Ok(self.approved(reviewed_at, updated_at))
    }

    fn approved(&self, reviewed_at: Timestamp, updated_at: Timestamp) -> (record: SourceRecord)
        ensures
            record.deep_view() == approved_record(
                self.deep_view().source,
                self.deep_view().revision,
                reviewed_at,
                updated_at,
            ),
    {
        let mut record = self.source.duplicate();
        record.status = SourceStatus::Approved;
        record.content_revision = self.revision.clone();
        record.review =
        Review {
            status: ReviewStatus::Approved,
            approved_revision: Some(self.revision.clone()),
            reviewed_at: Some(reviewed_at),
        };
        record.updated_at = updated_at;
        record
    }

    /// The body that is published.
    pub fn body(&self) -> (body: &str)
        ensures
            body@ == self.deep_view().body,
    {
        self.body.as_str()
    }

    /// Refuses a publication that is not the approved document.
    pub fn check_published(
        &self,
        document: &str,
        published: &Option<Vec<u8>>,
        read: &Option<SourceDocument>,
    ) -> (result: Result<(), MkoError>)
        ensures
            verdict(result) == (if is_published(
                self.deep_view(),
                document@,
                match published {
                    Some(bytes) => Some(bytes@),
                    None => None,
                },
                read.deep_view(),
            ) {
                Ok(())
            } else {
                Err(changed())
            }),
    {
        match published {
            Some(bytes) => {
                if !same_bytes(bytes.as_slice(), document.as_bytes()) {
                    return Err(source_changed_error());
                }
            },
            None => {
                return Err(source_changed_error());
            },
        }
        let found = match read {
            Some(found) => found,
            None => {
                return Err(source_changed_error());
            },
        };
        match validate_canonical_source(
            self.source_path.as_str(),
            &found.record,
            found.body.as_str(),
            &self.asset,
            copy_revision(&found.revision),
        ) {
            Ok(revision) => {
                if !same(found.record.id.as_str(), self.source.id.as_str()) || found.record.status
                    != SourceStatus::Approved || found.record.review.status
                    != ReviewStatus::Approved || !same(revision.as_str(), self.revision.as_str()) {
                    return Err(source_changed_error());
                }
                Ok(())
            },
            Err(_) => Err(source_changed_error()),
        }
    }

    /// What a finished approval reports.
    pub fn finish(self) -> (result: ApproveSourceResult)
        ensures
            result.deep_view() == (ApproveSourceResultView {
                source_id: self.deep_view().source.id,
                revision: self.deep_view().revision,
                source_path: self.deep_view().source_path,
            }),
    {
        ApproveSourceResult {
            source_id: self.source.id,
            revision: self.revision,
            source_path: self.source_path,
        }
    }
}

/// A destination that is no longer a plain file has changed since the Source was shown.
pub fn publication_error(failure: MkoError) -> (told: MkoError)
    ensures
        told.deep_view() == (if failure.deep_view().code == "registry_destination_invalid"@ {
            changed()
        } else {
            failure.deep_view()
        }),
{
    if same(failure.code(), "registry_destination_invalid") {
        source_changed_error()
    } else {
        failure
    }
}

/// The lines that a diff adds and deletes.
#[derive(Clone, Copy, Debug, PartialEq, Eq, Structural)]
pub struct DiffCounts {
    pub added: u64,
    pub deleted: u64,
}

/// A sum that stops at the largest number.
pub open spec fn capped_sum(left: u64, right: u64) -> u64 {
    if left + right > u64::MAX {
        u64::MAX
    } else {
        (left + right) as u64
    }
}

/// The counts of one line: two numbers behind which a tab stands.
pub open spec fn line_counts(line: Seq<char>) -> Option<DiffCounts> {
    let fields = split(line, '\t');
    if fields.len() < 2 {
        None
    } else {
        match (written_number(fields[0]), written_number(fields[1])) {
            (Some(added), Some(deleted)) => Some(DiffCounts { added, deleted }),
            _ => None,
        }
    }
}

/// The counts of the lines together. Lines without numbers are passed over.
pub open spec fn summed_counts(all: Seq<Seq<char>>) -> DiffCounts
    decreases all.len(),
{
    if all.len() == 0 {
        DiffCounts { added: 0, deleted: 0 }
    } else {
        let before = summed_counts(all.drop_last());
        match line_counts(all.last()) {
            Some(counts) => DiffCounts {
                added: capped_sum(before.added, counts.added),
                deleted: capped_sum(before.deleted, counts.deleted),
            },
            None => before,
        }
    }
}

/// What the answer of Git to a numeric diff says, where it came and keeps within bounds.
pub open spec fn diff_counts(answer: Option<Seq<u8>>) -> Option<DiffCounts> {
    match answer {
        Some(output) => if output.len() > MAX_GIT_SUMMARY_BYTES {
            None
        } else {
            Some(summed_counts(lines(lossy_text(output))))
        },
        None => None,
    }
}

fn count_line(line: &str) -> (counts: Option<DiffCounts>)
    ensures
        counts == line_counts(line@),
{
    let fields = split_text(line, '\t');
    if fields.len() < 2 {
        return None;
    }
    assert(fields.deep_view()[0] == fields@[0]@);
    assert(fields.deep_view()[1] == fields@[1]@);
    match (parse_number(fields[0].as_str()), parse_number(fields[1].as_str())) {
        (Some(added), Some(deleted)) => Some(DiffCounts { added, deleted }),
        _ => None,
    }
}

/// `answer` is nothing where Git failed.
pub fn git_numstat(answer: &Option<Vec<u8>>) -> (counts: Option<DiffCounts>)
    ensures
        counts == diff_counts(
            match answer {
                Some(bytes) => Some(bytes@),
                None => None,
            },
        ),
{
    let output = match answer {
        Some(output) => output,
        None => {
            return None;
        },
    };
    if output.len() > MAX_GIT_SUMMARY_BYTES {
        return None;
    }
    let text = to_lossy_text(output.as_slice());
    Some(sum_counts(text.as_str()))
}

/// The counts that the lines of a numeric diff add up to.
pub fn sum_counts(text: &str) -> (sum: DiffCounts)
    ensures
        sum == summed_counts(lines(text@)),
{
    let all = lines_of(text);
    let ghost views = all.deep_view();
    let mut sum = DiffCounts { added: 0, deleted: 0 };
    let mut i: usize = 0;
    assert(views.take(0) == Seq::<Seq<char>>::empty());
    while i < all.len()
        invariant
            i <= all.len(),
            views == all.deep_view(),
            sum == summed_counts(views.take(i as int)),
        decreases all.len() - i,
    {
        assert(views.take(i + 1).drop_last() == views.take(i as int));
        assert(views.take(i + 1).last() == all@[i as int]@);
        match count_line(all[i].as_str()) {
            Some(counts) => {
                sum =
                DiffCounts {
                    added: sum.added.saturating_add(counts.added),
                    deleted: sum.deleted.saturating_add(counts.deleted),
                };
            },
            None => {},
        }
        i += 1;
    }
    assert(views.take(i as int) == views);
    sum
}

/// A line of the answer says that the file is untracked.
pub open spec fn tells_untracked(text: Seq<char>) -> bool {
    exists|i: int| 0 <= i < lines(text).len() && "?? "@.is_prefix_of(#[trigger] lines(text)[i])
}

/// Git knows the file only as untracked.
pub open spec fn is_untracked(status: Seq<u8>) -> bool {
    tells_untracked(lossy_text(status))
}

/// How the Source differs from what Git holds, in one line.
pub open spec fn diff_summary(
    status: Option<Seq<u8>>,
    working: Option<DiffCounts>,
    staged: Option<DiffCounts>,
    byte_count: nat,
    line_count: nat,
) -> Seq<char> {
    match status {
        None => "unavailable"@,
        Some(output) => if output.len() > MAX_GIT_SUMMARY_BYTES {
            "unavailable"@
        } else if is_untracked(output) {
            "untracked (+"@ + decimal_digits(line_count) + " lines, +"@ + decimal_digits(
                byte_count,
            ) + " bytes)"@
        } else {
            match (working, staged) {
                (Some(w), Some(s)) => "tracked (working +"@ + decimal_digits(w.added as nat) + "/-"@
                    + decimal_digits(w.deleted as nat) + " lines; staged +"@ + decimal_digits(
                    s.added as nat,
                ) + "/-"@ + decimal_digits(s.deleted as nat) + " lines; "@ + decimal_digits(
                    byte_count,
                ) + " current bytes)"@,
                _ => "unavailable"@,
            }
        },
    }
}

fn untracked(status: &[u8]) -> (result: bool)
    ensures
        result == is_untracked(status@),
{
    says_untracked(to_lossy_text(status).as_str())
}

/// Whether the answer of Git says that the file is untracked.
#[verifier::loop_isolation(false)]
pub fn says_untracked(text: &str) -> (result: bool)
    ensures
        result == tells_untracked(text@),
{
    let all = lines_of(text);
    let ghost views = all.deep_view();
    let mut i: usize = 0;
    while i < all.len()
        invariant
            i <= all.len(),
            forall|k: int| 0 <= k < i ==> !"?? "@.is_prefix_of(#[trigger] views[k]),
        decreases all.len() - i,
    {
        assert(views[i as int] == all@[i as int]@);
        if starts_with(all[i].as_str(), "?? ") {
            return true;
        }
        i += 1;
    }
    false
}

/// `status` is the answer of Git to the question for the state of the file, or nothing
/// where Git failed.
pub fn git_diff_summary(
    status: &Option<Vec<u8>>,
    working: Option<DiffCounts>,
    staged: Option<DiffCounts>,
    byte_count: u64,
    line_count: u64,
) -> (summary: String)
    ensures
        summary@ == diff_summary(
            match status {
                Some(bytes) => Some(bytes@),
                None => None,
            },
            working,
            staged,
            byte_count as nat,
            line_count as nat,
        ),
{
    let output = match status {
        Some(output) => output,
        None => {
            return "unavailable".to_owned();
        },
    };
    if output.len() > MAX_GIT_SUMMARY_BYTES {
        return "unavailable".to_owned();
    }
    let bytes_told = decimal(byte_count);
    if untracked(output.as_slice()) {
        let lines_told = decimal(line_count);
        return cat5(
            "untracked (+",
            lines_told.as_str(),
            " lines, +",
            bytes_told.as_str(),
            " bytes)",
        );
    }
    match (working, staged) {
        (Some(w), Some(s)) => {
            let w_added = decimal(w.added);
            let w_deleted = decimal(w.deleted);
            let s_added = decimal(s.added);
            let s_deleted = decimal(s.deleted);
            let head = cat4("tracked (working +", w_added.as_str(), "/-", w_deleted.as_str());
            let middle = cat5(
                head.as_str(),
                " lines; staged +",
                s_added.as_str(),
                "/-",
                s_deleted.as_str(),
            );
            cat4(middle.as_str(), " lines; ", bytes_told.as_str(), " current bytes)")
        },
        _ => "unavailable".to_owned(),
    }
}

/// An approval binds a Source to the revision that was shown, fits its status, and leaves
/// everything else of the record as it was.
pub proof fn approval_binds_what_was_shown(
    source: SourceRecordView,
    revision: Seq<char>,
    reviewed_at: Timestamp,
    updated_at: Timestamp,
)
    ensures
        ({
            let approved = approved_record(source, revision, reviewed_at, updated_at);
            &&& review_agrees(approved, revision)
            &&& approved.review.approved_revision == Some(approved.content_revision)
            &&& approved.id == source.id
            &&& approved.title == source.title
            &&& approved.relations == source.relations
            &&& approved.generation == source.generation
            &&& approved.created_at == source.created_at
            &&& approved.tags == source.tags
            &&& approved.domain == source.domain
            &&& approved.source_metadata == source.source_metadata
        }),
{
}

/// A Source that is shown is pending, and nothing but a pending Source is ever approved.
pub proof fn only_pending_sources_are_shown(
    repository_root: Seq<char>,
    filename: Seq<char>,
    snapshot: SourceSnapshotView,
    document: SourceDocumentView,
    asset_id: Seq<char>,
    asset: Result<AssetRecordView, ErrorView>,
)
    requires
        presentation(repository_root, filename, snapshot, document, asset_id, asset) is Ok,
    ensures
        document.record.status == SourceStatus::ReviewPending,
        document.record.review.approved_revision is None,
        document.record.relations.asset_ids == seq![asset_id],
        asset matches Ok(record) && record.asset_status == AssetStatus::ReviewPending,
        presentation(repository_root, filename, snapshot, document, asset_id, asset)->Ok_0.revision
            == document.record.content_revision,
{
}

} // verus!
