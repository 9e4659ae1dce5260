//! What holds of the finer points: which version of every component a record names, which
//! entries of a directory are read, how a publication is locked, how paths are put together,
//! and how numbers and words are read.

use crate::add::{
    destination_name, hash_prefix, hashed_name, original_check, reviewed_message, usable_name,
};
use crate::approve::{
    capped_sum, diff_counts, diff_summary, discovery, is_source_entry, line_counts, scanned_bytes,
    tells_untracked, DiffCounts, ReadSourceView, SourceDirectoryEntryView,
};
use crate::asset_v2::is_item_warning;
use crate::asset_validation::prefixed_hash;
use crate::atomic::{
    locking, reaping, target_name, MovedView, PublicationEntryView, PublicationEventView,
    PublicationLockRecordView, PublicationQuarantineView, PublicationReadingView,
};
use crate::attempt_v2::without_colons;
use crate::canonical_source::{is_canonical_path, source_check};
use crate::capture_v1::{identity_check, is_telegram_id, ChannelIdentityV1};
use crate::check::{
    asset_in, is_canonical_source_record, is_repository_path, review_issues, source_in,
    FileRecordView, InspectedFileView, RevisedSourceView,
};
use crate::error::ErrorView;
use crate::fingerprint::FileSnapshotView;
use crate::front_matter::{closing_line, parts_after_opening, without_final_line_feeds};
use crate::inbox::{
    asset_with_id, documents_to_read, duplicate_errors, inbox_errors, mentions, saturated_sum,
    FlatEntry, InboxEvidenceView, SourceDocumentView,
};
use crate::knowledge::{
    concept_ids, concept_slug, id_candidate, is_first_free, note_review_fits, value_of_digits,
    KnowledgeRecordView, ReviewState,
};
use crate::knowledge_store::{
    entries_check, entry_check, name_collides, note_names, KnowledgeEntryView,
};
use crate::local_path::{joined_path, steps_at_most, LocalPathView, PathStepView};
use crate::lock::{
    creating, is_quarantine_of, is_secret, lock_exists, lock_held, lock_state, quarantine_target,
    repository_error, secret_of, CreateEventView, CreateStepView, FileIdentity, LockKind,
    LockReadingView, OwnerSightView,
};
use crate::model::{AssetRecordView, FingerprintView, ReviewStatus, SourceRecordView, SourceStatus};
use crate::order::{sorting_keeps_items, stable_sort};
use crate::path_policy::portable_path;
use crate::paths::{file_name, name_extension, name_stem};
use crate::prepare::{bundle_check, preparation_of, PreparedSourceBundleView};
use crate::provider_scan::{ProviderScanWarningView, ScanLimits};
use crate::repository_files::{
    index_entry, split_at_zero, tab_from, total_bytes, RepositoryFileView,
};
use crate::text::{
    all_digits, cut_at_white_space, decimal_digits, is_white_space, join, lines, split,
    text_at_most, words, written_number,
};
use crate::unicode::{collision_key, lossy_text};
use vstd::prelude::*;
use vstd::utf8::encode_utf8;

verus! {

/// A prepared bundle, and a bundle that is accepted, names the extractor and the versions that
/// it was made with.
pub proof fn bundles_name_their_versions(
    asset_id: Seq<char>,
    asset: AssetRecordView,
    pages: Seq<Seq<char>>,
    bundle: PreparedSourceBundleView,
)
    requires
        preparation_of(asset_id, asset, pages, true) == Ok::<PreparedSourceBundleView, ErrorView>(
            bundle,
        ) || bundle_check(bundle, asset_id) is Ok,
    ensures
        bundle.extractor.name == "pdf-extract"@,
        bundle.extractor.version == "0.12.0"@,
        bundle.core_version == "0.1.0"@,
        bundle.processor_version == "source-v1"@,
        bundle.prompt_version == "codex-source-v1"@,
        bundle.schema_version == 1,
{
}

/// A Source is canonical by itself exactly where it is a personal Source of one Asset, under
/// the path that its ID and its day call for, and names the versions that it was made with.
pub proof fn canonical_sources_name_their_versions(path: Seq<char>, source: SourceRecordView)
    ensures
        is_canonical_source_record(path, source) <==> {
            &&& prefixed_hash(source.id, "personal-source-"@) is Some
            &&& source.record_type == "source"@
            &&& source.schema_version == 1
            &&& source.scope == "personal"@
            &&& source.relations.asset_ids.len() == 1
            &&& is_repository_path(path)
            &&& is_canonical_path(path, source.id, source.created_at.seconds)
            &&& source.generation.extractor_name == "pdf-extract"@
            &&& source.generation.extractor_version == "0.12.0"@
            &&& source.generation.core_version == "0.1.0"@
            &&& source.generation.processor_version == "source-v1"@
            &&& source.generation.prompt_version == "codex-source-v1"@
        },
{
}

/// A Source that passes the check names the versions that it was made with, and lies under the
/// path that its ID and its day call for.
pub proof fn checked_sources_name_their_versions(
    path: Seq<char>,
    source: SourceRecordView,
    body: Seq<char>,
    asset: AssetRecordView,
    revision: Result<Seq<char>, ErrorView>,
)
    requires
        source_check(path, source, body, asset, revision) is Ok,
    ensures
        source.generation.extractor_name == "pdf-extract"@,
        source.generation.extractor_version == "0.12.0"@,
        source.generation.core_version == "0.1.0"@,
        source.generation.processor_version == "source-v1"@,
        source.generation.prompt_version == "codex-source-v1"@,
        is_canonical_path(path, source.id, source.created_at.seconds),
{
}

/// A check that fails over the review tells a stale approval apart from a review that does not
/// fit.
pub proof fn stale_approvals_are_told_apart(
    path: Seq<char>,
    source: SourceRecordView,
    body: Seq<char>,
    asset: AssetRecordView,
    actual: Seq<char>,
    failure: ErrorView,
)
    requires
        source_check(path, source, body, asset, Ok(actual)) == Err::<Seq<char>, ErrorView>(failure),
        failure.code != "source_invalid"@,
        source.content_revision == actual,
    ensures
        source.review.status == ReviewStatus::Approved ==> failure.code == "approval_stale"@,
        source.review.status != ReviewStatus::Approved ==> failure.code == "review_invalid"@,
{
}

/// A file is taken for an Asset only in the registry, and for a Source only among the Sources.
pub proof fn records_count_only_in_their_place(
    file: InspectedFileView,
    asset: AssetRecordView,
    source: RevisedSourceView,
)
    ensures
        asset_in(file) == Some(asset) <==> file.record == (FileRecordView::Asset { asset })
            && "assets/registry/"@.is_prefix_of(file.path) && ".md"@.is_suffix_of(file.path),
        source_in(file) == Some(source) <==> file.record == (FileRecordView::Source { source })
            && "sources/"@.is_prefix_of(file.path) && !"assets/registry/"@.is_prefix_of(file.path)
            && ".md"@.is_suffix_of(file.path),
{
}

/// Two Sources that relate to the same Asset are an error of the inbox, told under that Asset.
pub proof fn rival_sources_are_an_error(
    evidence: InboxEvidenceView,
    i: int,
    j: int,
)
    requires
        0 <= i < j < evidence.sources.len(),
        evidence.sources[i].asset_id == evidence.sources[j].asset_id,
    ensures
        exists|k: int|
            0 <= k < inbox_errors(evidence).len() && (#[trigger] inbox_errors(evidence)[k]).code
                == "duplicate_conflict"@ && inbox_errors(evidence)[k].path == Some(
                evidence.sources[j].asset_id,
            ),
        forall|e: int|
            0 <= e < evidence.asset_errors.len() ==> #[trigger] inbox_errors(evidence)[e]
                == evidence.asset_errors[e],
        forall|e: int|
            0 <= e < evidence.source_errors.len() ==> inbox_errors(
                evidence,
            )[evidence.asset_errors.len() + e] == #[trigger] evidence.source_errors[e],
{
    let n = evidence.asset_errors.len() + evidence.source_errors.len();
    let at = rivals_are_told(evidence.sources, i, j);
    let all = inbox_errors(evidence);
    assert(all[n + at] == duplicate_errors(evidence.sources)[at]);
}

proof fn rivals_are_told(sources: Seq<SourceDocumentView>, i: int, j: int) -> (at: int)
    requires
        0 <= i < j < sources.len(),
        sources[i].asset_id == sources[j].asset_id,
    ensures
        0 <= at < duplicate_errors(sources).len(),
        duplicate_errors(sources)[at].code == "duplicate_conflict"@,
        duplicate_errors(sources)[at].path == Some(sources[j].asset_id),
    decreases sources.len(),
{
    let front = sources.drop_last();
    if j < front.len() {
        assert(front[i] == sources[i] && front[j] == sources[j]);
        rivals_are_told(front, i, j)
    } else {
        assert(front[i].asset_id == sources.last().asset_id);
        assert(mentions(sources.last().asset_id, front));
        duplicate_errors(sources).len() - 1
    }
}

/// The Asset of an ID is the only one that has it.
pub proof fn the_only_asset_of_an_id(assets: Seq<AssetRecordView>, a: int)
    requires
        0 <= a < assets.len(),
        forall|j: int| 0 <= j < assets.len() && j != a ==> (#[trigger] assets[j]).id != assets[a].id,
    ensures
        asset_with_id(assets, assets[a].id) == Some(assets[a]),
    decreases assets.len(),
{
    if a < assets.len() - 1 {
        assert(assets[assets.len() - 1].id != assets[a].id);
        let front = assets.drop_last();
        assert forall|j: int| 0 <= j < front.len() && j != a implies (#[trigger] front[j]).id
            != front[a].id by {
            assert(front[j] == assets[j]);
        }
        the_only_asset_of_an_id(front, a);
    }
}

/// A reading of a directory that covers it never goes beyond the bound on bytes.
pub proof fn readings_stay_within_the_bytes(
    entries: Seq<FlatEntry>,
    limits: ScanLimits,
    i: int,
    total: u64,
    e: int,
)
    requires
        0 <= i <= e < entries.len(),
        documents_to_read(entries, limits, i, total) is Ok,
        (documents_to_read(entries, limits, i, total)->Ok_0).1,
        entries[e].regular_file,
        entries[e].markdown,
    ensures
        total + entries[e].size_bytes <= limits.max_total_bytes || limits.max_total_bytes
            == u64::MAX,
    decreases entries.len() - i,
{
    let next = saturated_sum(total, entries[i].size_bytes);
    if !entries[i].regular_file || !entries[i].markdown {
        readings_stay_within_the_bytes(entries, limits, i + 1, total, e);
    } else if e > i {
        readings_stay_within_the_bytes(entries, limits, i + 1, next, e);
    }
}

/// The ID of a concept is the first that is free: its slug, or its slug with the smallest
/// number from two on that no earlier concept has taken.
pub proof fn concept_ids_take_the_first_number(names: Seq<Seq<char>>, name: Seq<char>) -> (number:
    nat)
    ensures
        ({
            let used = concept_ids(names);
            let ids = concept_ids(names.push(name));
            &&& ids.len() > 0
            &&& number == 0 ==> ids.last() == concept_slug(name)
            &&& number > 0 ==> ids.last() == concept_slug(name) + "-"@ + decimal_digits(number + 1)
                && used.contains(concept_slug(name))
            &&& !used.contains(ids.last())
            &&& forall|k: nat|
                0 < k < number ==> used.contains(
                    concept_slug(name) + "-"@ + #[trigger] decimal_digits(k + 1),
                )
        }),
{
    let used = concept_ids(names);
    let base = concept_slug(name);
    assert(names.push(name).drop_last() =~= names);
    crate::knowledge::concept_ids_are_unique(names.push(name));
    crate::knowledge::concept_ids_are_unique(names);
    let number = choose|number: nat| is_first_free(used, base, number);
    let ids = concept_ids(names.push(name));
    crate::knowledge::a_candidate_is_free(used, base, 0);
    assert(is_first_free(used, base, number));
    if number > 0 {
        assert(used.contains(id_candidate(base, 0)));
    }
    assert forall|k: nat| 0 < k < number implies used.contains(
        base + "-"@ + #[trigger] decimal_digits(k + 1),
    ) by {
        assert(used.contains(id_candidate(base, k)));
    }
    number
}

/// The directory of notes is read exactly where it holds no more entries than the limit, no
/// link, and no two names that are the same but for their case and composition; then every
/// Markdown name is listed, and no other.
pub proof fn every_note_is_listed(entries: Seq<KnowledgeEntryView>, max_entries: u64, i: int)
    requires
        0 <= i < entries.len(),
        note_names(entries, max_entries) is Ok,
    ensures
        entries.len() <= max_entries,
        !entries[i].is_symlink,
        entries[i].name is Some,
        forall|k: int|
            0 <= k < i ==> collision_key((#[trigger] entries[k]).name->0) != collision_key(
                entries[i].name->0,
            ),
        name_extension(entries[i].name->0) == Some("md"@) <==> note_names(
            entries,
            max_entries,
        )->Ok_0.contains(entries[i].name->0),
{
    every_entry_is_checked(entries, max_entries, 0, i);
    every_entry_is_checked(entries, max_entries, 0, entries.len() - 1);
    assert forall|k: int| 0 <= k < i implies collision_key((#[trigger] entries[k]).name->0)
        != collision_key(entries[i].name->0) by {
        if collision_key(entries[k].name->0) == collision_key(entries[i].name->0) {
            assert(name_collides(entries, i));
        }
    }
    let names = entries.map_values(|entry: KnowledgeEntryView| entry.name->0);
    let wanted = |name: Seq<char>| name_extension(name) == Some("md"@);
    let sorted = stable_sort::<String>(names);
    let name = entries[i].name->0;
    assert(names[i] == name);
    assert(names.contains(name));
    sorting_keeps_items::<String>(names);
    names.to_multiset_ensures();
    sorted.to_multiset_ensures();
    assert(names.to_multiset().count(name) > 0);
    assert(sorted.to_multiset().count(name) > 0);
    assert(sorted.contains(name));
    let k = choose|k: int| 0 <= k < sorted.len() && sorted[k] == name;
    if name_extension(name) == Some("md"@) {
        sorted.lemma_filter_contains(wanted, k);
    }
    if sorted.filter(wanted).contains(name) {
        sorted.lemma_filter_contains_rev(wanted, name);
    }
}

proof fn every_entry_is_checked(
    entries: Seq<KnowledgeEntryView>,
    max_entries: u64,
    from: int,
    i: int,
)
    requires
        0 <= from <= i < entries.len(),
        entries_check(entries, max_entries, from) is Ok,
    ensures
        entry_check(entries, max_entries, i) is Ok,
    decreases i - from,
{
    if from < i {
        every_entry_is_checked(entries, max_entries, from + 1, i);
    }
}

/// An entry among the Sources is one only where it is a regular file with a plain name of at
/// most 255 bytes.
pub proof fn source_entries_are_plain_files(entry: SourceDirectoryEntryView)
    ensures
        is_source_entry(entry) <==> {
            &&& entry.name is Some
            &&& entry.is_regular
            &&& entry.name->0.len() > 0
            &&& encode_utf8(entry.name->0).len() <= 255
            &&& entry.name->0 != "."@
            &&& entry.name->0 != ".."@
            &&& !entry.name->0.contains('/')
            &&& !entry.name->0.contains('\\')
        },
{
}

/// A Source is found only where every file was read, with at most 8 MiB in all.
pub proof fn discoveries_are_bounded(read: Seq<ReadSourceView>, id: Seq<char>, i: int)
    requires
        discovery(read, id) is Ok,
        0 <= i < read.len(),
    ensures
        read[i].snapshot is Some,
        read[i].document is Some,
        read[i].snapshot->0.bytes.len() <= 8_388_608,
{
    every_source_was_read(read, read.len() as int, i);
}

proof fn every_source_was_read(read: Seq<ReadSourceView>, n: int, i: int)
    requires
        0 <= i < n <= read.len(),
        scanned_bytes(read, n) is Some,
    ensures
        read[i].snapshot is Some,
        read[i].document is Some,
        read[i].snapshot->0.bytes.len() <= scanned_bytes(read, n)->0 <= 8_388_608,
    decreases n,
{
    if i < n - 1 {
        every_source_was_read(read, n - 1, i);
    }
}

/// Sums of what Git counts stay at the largest number; a status that is too long is not told.
pub proof fn counts_do_not_overflow(
    left: u64,
    right: u64,
    output: Seq<u8>,
    working: Option<DiffCounts>,
    staged: Option<DiffCounts>,
)
    ensures
        left + right <= u64::MAX ==> capped_sum(left, right) == left + right,
        left + right > u64::MAX ==> capped_sum(left, right) == u64::MAX,
        output.len() > 65_536 ==> diff_summary(Some(output), working, staged, 0, 0)
            == "unavailable"@,
{
}

/// A PDF whose own name is taken gets the name with the first twelve digits of its hash behind
/// the stem, where that is free, and otherwise one with four digits more.
pub proof fn taken_names_get_the_hash(
    names: Seq<Option<Seq<char>>>,
    identical: Seq<Seq<char>>,
    name: Seq<char>,
    fingerprint: FingerprintView,
    stem: Seq<char>,
    len: int,
)
    requires
        usable_name(names, identical, name) == Ok::<bool, ErrorView>(false),
        file_name(name) == Some(name),
        0 < len <= 64,
    ensures
        destination_name(names, identical, name, fingerprint) == hashed_name(
            names,
            identical,
            name_stem(name),
            fingerprint,
            12,
        ),
        ({
            let candidate = stem + "-"@ + hash_prefix(fingerprint, len) + ".pdf"@;
            &&& portable_path(candidate) is Ok && usable_name(names, identical, candidate) == Ok::<
                bool,
                ErrorView,
            >(true) ==> hashed_name(names, identical, stem, fingerprint, len) == Ok::<
                Seq<char>,
                ErrorView,
            >(candidate)
            &&& portable_path(candidate) is Ok && usable_name(names, identical, candidate) == Ok::<
                bool,
                ErrorView,
            >(false) ==> hashed_name(names, identical, stem, fingerprint, len) == hashed_name(
                names,
                identical,
                stem,
                fingerprint,
                len + 4,
            )
        }),
        hashed_name(names, identical, stem, fingerprint, 68) is Err,
{
}

/// A failure is told in words that were fixed beforehand.
pub proof fn failures_are_told_in_fixed_words()
    ensures
        reviewed_message("invalid_pdf"@) == "The PDF could not be validated."@,
        reviewed_message("pdf_too_large"@) == "The PDF exceeds the supported processing limit."@,
        reviewed_message("file_unreadable"@)
            == "The inbox PDF could not be reopened safely; retry after it is available."@,
        reviewed_message("fingerprint_changed"@)
            == "The inbox PDF changed during processing; retry the scan."@,
        reviewed_message("provider_scan_incomplete"@)
            == "The inbox scan was incomplete; retry after resolving its blockers."@,
        reviewed_message("backup_confirmation_required"@)
            == "confirm a verified second copy before registering an only-copy or temporary PDF"@,
{
    reveal_strlit("invalid_pdf");
    reveal_strlit("pdf_too_large");
    reveal_strlit("scan_file_unreadable");
    reveal_strlit("file_unreadable");
    reveal_strlit("fingerprint_changed");
    reveal_strlit("provider_scan_incomplete");
    reveal_strlit("backup_confirmation_required");
    assert("invalid_pdf"@.len() == 11 && "pdf_too_large"@.len() == 13);
    assert("scan_file_unreadable"@.len() == 20 && "file_unreadable"@.len() == 15);
    assert("fingerprint_changed"@.len() == 19 && "provider_scan_incomplete"@.len() == 24);
    assert("backup_confirmation_required"@.len() == 28);
}

/// What a publication put away is removed only where it was moved and is still the same file,
/// with the same record.
pub proof fn reaped_publications_did_not_change(
    quarantine: PublicationQuarantineView,
    current: Option<FileIdentity>,
    record: Option<PublicationLockRecordView>,
    identity: FileIdentity,
    failure: ErrorView,
)
    ensures
        reaping(
            quarantine,
            MovedView::Done,
            current,
            PublicationReadingView::Read { record, identity },
        ) is Ok <==> {
            &&& quarantine.identity is Some
            &&& current == quarantine.identity
            &&& quarantine.record is Some ==> quarantine.identity == Some(identity) && record
                == quarantine.record
        },
        reaping(
            quarantine,
            MovedView::Gone,
            current,
            PublicationReadingView::Read { record, identity },
        ) is Err,
        reaping(
            quarantine,
            MovedView::Failed(failure),
            current,
            PublicationReadingView::Read { record, identity },
        ) is Err,
{
}

/// What a publication put away is recognised by its name; it is sound only where its record
/// has the secret that its name tells.
pub proof fn put_away_publications_are_recognised(
    filename: Seq<char>,
    name: Seq<char>,
    record: Option<PublicationLockRecordView>,
    identity: FileIdentity,
    second_look: Option<FileIdentity>,
    failure: ErrorView,
    known: int,
)
    requires
        known < 64,
    ensures
        ({
            let read = crate::atomic::entry_quarantine(
                filename,
                known,
                PublicationEntryView::Named {
                    name,
                    reading: PublicationReadingView::Read { record, identity },
                    second_look,
                    late: false,
                },
            );
            &&& !is_quarantine_of(name, filename) ==> read == Ok::<
                Option<PublicationQuarantineView>,
                ErrorView,
            >(None)
            &&& is_quarantine_of(name, filename) ==> read is Ok && read->Ok_0 is Some && {
                let found = read->Ok_0->0;
                &&& found.filename == name
                &&& found.record == record
                &&& found.identity == Some(identity)
                &&& found.authenticated <==> record is Some && quarantine_target(name) is Some
                    && record->0.owner_token == (quarantine_target(name)->0).1
            }
        }),
        ({
            let unread = crate::atomic::entry_quarantine(
                filename,
                known,
                PublicationEntryView::Named {
                    name,
                    reading: PublicationReadingView::Failed(failure),
                    second_look,
                    late: false,
                },
            );
            is_quarantine_of(name, filename) && failure.code != "registry_scan_limit"@ ==> unread
                is Ok && unread->Ok_0 is Some && unread->Ok_0->0.record is None
                && !unread->Ok_0->0.authenticated && unread->Ok_0->0.identity == second_look
                && unread->Ok_0->0.filename == name
        }),
        is_quarantine_of(name, filename) ==> crate::atomic::entry_quarantine(
            filename,
            64,
            PublicationEntryView::Named {
                name,
                reading: PublicationReadingView::Read { record, identity },
                second_look,
                late: false,
            },
        ) is Err,
        crate::atomic::entry_quarantine(filename, known, PublicationEntryView::Late) is Err,
{
}

/// Where nothing stands in the way a publication is locked step by step; where a lock stands it
/// is waited for until the time is over, and then refused.
pub proof fn publications_wait_for_their_lock(
    events: Seq<PublicationEventView>,
    late: spec_fn(int) -> bool,
    n: int,
)
    requires
        n >= 0,
    ensures
        locking(events, late, 0) is Begin,
        locking(events, late, n) is Begin && late(n) ==> locking(events, late, n + 1) is Refused,
        locking(events, late, n) is Begin && !late(n) ==> locking(events, late, n + 1) is Resolve,
        locking(events, late, n) is Resolve && events[n] is Done ==> locking(events, late, n + 1)
            is Open,
        locking(events, late, n) is Open && events[n] is Done ==> locking(events, late, n + 1)
            is Fill,
        locking(events, late, n) is Fill && events[n] is Done ==> locking(events, late, n + 1)
            is CheckAgain,
        locking(events, late, n) is CheckAgain && events[n] is Done ==> locking(
            events,
            late,
            n + 1,
        ) is Acquired,
        locking(events, late, n) is Open && events[n] is AlreadyThere && !late(n) ==> locking(
            events,
            late,
            n + 1,
        ) is Wait,
        locking(events, late, n) is Open && events[n] is AlreadyThere && late(n) ==> locking(
            events,
            late,
            n + 1,
        ) is Refused,
        locking(events, late, n) is Wait ==> locking(events, late, n + 1) is Begin,
        locking(events, late, n) is Fill && events[n] is Failed ==> locking(events, late, n + 1)
            is Refused,
        locking(events, late, n) is CheckAgain && events[n] is Failed ==> locking(
            events,
            late,
            n + 1,
        ) is TakeBack,
{
}

/// A record is written under the name of its file, in a directory.
pub proof fn targets_are_named_files(name: Seq<char>)
    ensures
        target_name(true, Some(name)) == Ok::<Seq<char>, ErrorView>(name),
        target_name(false, Some(name)) is Err,
        target_name(true, None) is Err,
{
}

/// A lock that stands already refuses another, and a guard that stands is removed only where
/// that was asked for.
pub proof fn standing_files_refuse_a_lock(
    kind: LockKind,
    clear_stale: bool,
    events: Seq<CreateEventView>,
    n: int,
)
    requires
        n >= 0,
        creating(kind, clear_stale, events, n) is Open,
        events[n] is AlreadyThere,
    ensures
        kind != LockKind::Takeover ==> creating(kind, clear_stale, events, n + 1) is Refused
            && creating(kind, clear_stale, events, n + 1) == CreateStepView::Refused(
            lock_exists(kind),
        ) && lock_exists(kind).code == "lock_exists"@,
        kind == LockKind::Takeover && clear_stale ==> creating(kind, clear_stale, events, n + 1)
            is RemoveStale,
        kind == LockKind::Takeover && !clear_stale ==> creating(kind, clear_stale, events, n + 1)
            == CreateStepView::Refused(lock_held()),
{
}

/// A token without a secret at its end tells none; a look that came to its limit tells no
/// state; a failure with a lock of a repository keeps its words.
pub proof fn broken_tokens_tell_nothing(
    token: Seq<char>,
    name: Seq<char>,
    failure: ErrorView,
    owner: OwnerSightView,
    rest: Seq<char>,
)
    ensures
        secret_of(token) matches Some(secret) ==> is_secret(secret) && secret.is_suffix_of(token),
        failure.code == "lock_scan_limit"@ ==> lock_state(
            name,
            LockReadingView::Failed(failure),
            owner,
        ) == Err::<crate::lock::LockState, ErrorView>(failure),
        failure.code == "lock_"@ + rest && failure.code != "lock_held"@ ==> repository_error(
            failure,
        ).code == "repository_lock_"@ + rest && repository_error(failure).message
            == failure.message,
{
    if secret_of(token) is Some {
        let at = crate::text::find_last(token, "-"@, token.len() as int)->0;
        last_places_are_inside(token, "-"@, token.len() as int);
        let secret = secret_of(token)->0;
        assert(secret =~= token.skip(at + "-"@.len()));
        assert(token.skip(token.len() - secret.len()) =~= secret);
    }
    if failure.code == "lock_"@ + rest {
        assert("lock_"@.is_prefix_of(failure.code));
        assert(failure.code.skip("lock_"@.len() as int) =~= rest);
    }
}

proof fn last_places_are_inside(text: Seq<char>, piece: Seq<char>, from: int)
    requires
        crate::text::find_last(text, piece, from) is Some,
    ensures
        0 <= crate::text::find_last(text, piece, from)->0,
        crate::text::find_last(text, piece, from)->0 + piece.len() <= text.len(),
    decreases from + 1,
{
    if !(from + piece.len() <= text.len() && text.subrange(from, from + piece.len()) == piece) {
        last_places_are_inside(text, piece, from - 1);
    }
}

/// A path behind another is the other's steps and then its own, and its text is the two texts
/// with a separator between them where one is missing. An absolute path stands for itself.
pub proof fn paths_are_put_together(base: LocalPathView, more: LocalPathView)
    ensures
        more.is_absolute ==> joined_path(base, more) == more,
        !more.is_absolute && !base.is_verbatim && more.steps.len() > 0 && more.steps[0] is Name
            ==> {
            let whole = joined_path(base, more);
            &&& whole.steps == base.steps + more.steps
            &&& whole.is_absolute == base.is_absolute
            &&& base.text.len() > 0 && base.text.last() != '/' && base.text.last()
                != base.separator && base.steps.len() != 1 ==> whole.text == base.text + seq![
                base.separator,
            ] + more.text
            &&& base.text.len() > 0 && base.text.last() == '/' ==> whole.text == base.text
                + more.text
        },
{
    assert(base.text + Seq::<char>::empty() =~= base.text);
}

/// Paths are ordered step by step: what begins another comes before it, and otherwise the first
/// name that differs decides.
pub proof fn the_first_step_decides(
    common: Seq<PathStepView>,
    left: Seq<PathStepView>,
    right: Seq<PathStepView>,
    a: Seq<char>,
    b: Seq<char>,
)
    requires
        a != b,
    ensures
        steps_at_most(common, common + left),
        left.len() > 0 ==> !steps_at_most(common + left, common),
        steps_at_most(
            common + seq![PathStepView::Name(a)] + left,
            common + seq![PathStepView::Name(b)] + right,
        ) <==> text_at_most(a, b),
    decreases common.len(),
{
    let low = common + seq![PathStepView::Name(a)] + left;
    let high = common + seq![PathStepView::Name(b)] + right;
    if common.len() == 0 {
        assert(low[0] == PathStepView::Name(a) && high[0] == PathStepView::Name(b));
    } else {
        let rest = common.drop_first();
        the_first_step_decides(rest, left, right, a, b);
        assert(low.drop_first() =~= rest + seq![PathStepView::Name(a)] + left);
        assert(high.drop_first() =~= rest + seq![PathStepView::Name(b)] + right);
        assert((common + left).drop_first() =~= rest + left);
        assert(low[0] == common[0] && high[0] == common[0]);
        assert((common + left)[0] == common[0]);
    }
}

/// The ID of an attempt has a hyphen in the place of every colon, and all else as it was.
pub proof fn colons_become_hyphens(text: Seq<char>, i: int)
    requires
        0 <= i < text.len(),
    ensures
        without_colons(text).len() == text.len(),
        text[i] == ':' ==> without_colons(text)[i] == '-',
        text[i] != ':' ==> without_colons(text)[i] == text[i],
{
}

/// An identity of the channel is accepted only with numbers that begin with no zero and are of
/// at most twenty bytes; only a chat may be negative.
pub proof fn channel_numbers_are_bounded(identity: ChannelIdentityV1, text: Seq<char>)
    requires
        identity_check(identity) is Ok,
        text == identity.sender_id@ || text == identity.update_id@ || text == identity.message_id@,
    ensures
        text.len() > 0,
        text[0] != '0',
        encode_utf8(text).len() <= 20,
        forall|i: int| 0 <= i < text.len() ==> '0' <= #[trigger] text[i] <= '9',
        is_telegram_id(identity.chat_id@, true),
{
}

proof fn tabs_stand_behind_the_header(header: Seq<u8>, path: Seq<u8>, from: int)
    requires
        0 <= from <= header.len(),
        !header.contains(9u8),
    ensures
        tab_from(header + seq![9u8] + path, from) == Some(header.len() as int),
    decreases header.len() - from,
{
    let entry = header + seq![9u8] + path;
    if from < header.len() {
        assert(entry[from] == header[from]);
        assert(header.contains(header[from]));
        tabs_stand_behind_the_header(header, path, from + 1);
    } else {
        assert(entry[from] == 9u8);
    }
}

/// An entry of the index tells its mode and its stage before the first tab, and its path
/// behind it.
pub proof fn index_entries_tell_mode_stage_and_path(header: Seq<u8>, path: Seq<u8>)
    requires
        !header.contains(9u8),
    ensures
        index_entry(header + seq![9u8] + path) is Some,
        index_entry(header + seq![9u8] + path)->0.path == path,
        words(lossy_text(header)).len() > 2 ==> index_entry(header + seq![9u8] + path)->0.mode
            == words(lossy_text(header))[0] && index_entry(header + seq![9u8] + path)->0.stage
            == words(lossy_text(header))[2],
{
    tabs_stand_behind_the_header(header, path, 0);
    let entry = header + seq![9u8] + path;
    assert(entry.subrange(0, header.len() as int) =~= header);
    assert(entry.subrange(header.len() as int + 1, entry.len() as int) =~= path);
}

/// A listing of Git is cut at every null byte, and nowhere else.
pub proof fn listings_are_cut_at_null_bytes(front: Seq<u8>, entry: Seq<u8>)
    requires
        !entry.contains(0u8),
    ensures
        split_at_zero(front + seq![0u8] + entry) == split_at_zero(front).push(entry),
        split_at_zero(entry) == seq![entry],
    decreases entry.len(),
{
    let whole = front + seq![0u8] + entry;
    if entry.len() == 0 {
        assert(whole.drop_last() =~= front);
        assert(entry =~= Seq::empty());
    } else {
        let shorter = entry.drop_last();
        assert(entry[entry.len() - 1] != 0);
        assert(!shorter.contains(0u8)) by {
            if shorter.contains(0u8) {
                let k = choose|k: int| 0 <= k < shorter.len() && shorter[k] == 0u8;
                assert(entry[k] == 0u8);
            }
        }
        listings_are_cut_at_null_bytes(front, shorter);
        assert(whole.drop_last() =~= front + seq![0u8] + shorter);
        assert(shorter.push(entry.last()) =~= entry);
        assert(split_at_zero(whole) =~= split_at_zero(front).push(entry));
        assert(split_at_zero(entry) =~= seq![entry]);
    }
}

/// What a check has read is counted file by file.
pub proof fn bytes_are_counted(files: Seq<RepositoryFileView>, file: RepositoryFileView)
    ensures
        total_bytes(files.push(file)) == total_bytes(files) + file.bytes.len(),
        total_bytes(Seq::empty()) == 0,
{
    assert(files.push(file).drop_last() =~= files);
}

proof fn digits_are_digits(n: nat)
    ensures
        all_digits(decimal_digits(n)),
        decimal_digits(n).len() > 0,
    decreases n,
{
    if n >= 10 {
        digits_are_digits(n / 10);
    }
}

/// A number that is written in digits is read as itself, with or without a plus before it.
pub proof fn written_numbers_are_read(n: u64)
    ensures
        written_number(decimal_digits(n as nat)) == Some(n),
        written_number(seq!['+'] + decimal_digits(n as nat)) == Some(n),
        written_number(Seq::empty()) is None,
{
    let digits = decimal_digits(n as nat);
    value_of_digits(n as nat);
    digits_are_digits(n as nat);
    assert('0' <= digits[0] <= '9');
    let signed = seq!['+'] + digits;
    assert(signed.drop_first() =~= digits);
    assert(signed[0] == '+');
}

/// Words are what stands between white space.
pub proof fn words_stand_between_white_space(front: Seq<char>, space: char, word: Seq<char>)
    requires
        is_white_space(space),
        word.len() > 0,
        forall|i: int| 0 <= i < word.len() ==> !is_white_space(#[trigger] word[i]),
    ensures
        words(front + seq![space] + word) == words(front).push(word),
        words(word) == seq![word],
{
    cut_behind_white_space(front, space, word);
    let wanted = |one: Seq<char>| one.len() > 0;
    cut_at_white_space(front).lemma_filter_push(word, wanted);
    reveal(Seq::filter);
    let alone = Seq::<Seq<char>>::empty();
    alone.lemma_filter_push(word, wanted);
    assert(alone.push(word) =~= seq![word]);
    assert(alone.filter(wanted) =~= alone);
}

proof fn cut_behind_white_space(front: Seq<char>, space: char, word: Seq<char>)
    requires
        is_white_space(space),
        forall|i: int| 0 <= i < word.len() ==> !is_white_space(#[trigger] word[i]),
    ensures
        cut_at_white_space(front + seq![space] + word) == cut_at_white_space(front).push(word),
        cut_at_white_space(word) == seq![word],
    decreases word.len(),
{
    let whole = front + seq![space] + word;
    if word.len() == 0 {
        assert(whole.drop_last() =~= front);
        assert(word =~= Seq::empty());
    } else {
        let shorter = word.drop_last();
        assert(!is_white_space(word[word.len() - 1]));
        assert forall|i: int| 0 <= i < shorter.len() implies !is_white_space(
            #[trigger] shorter[i],
        ) by {
            assert(shorter[i] == word[i]);
        }
        cut_behind_white_space(front, space, shorter);
        assert(whole.drop_last() =~= front + seq![space] + shorter);
        assert(shorter.push(word.last()) =~= word);
        assert(cut_at_white_space(whole) =~= cut_at_white_space(front).push(word));
        assert(cut_at_white_space(word) =~= seq![word]);
    }
}

/// The metadata of a document ends before its final line feeds, however many there are.
pub proof fn final_line_feeds_do_not_matter(text: Seq<char>)
    ensures
        without_final_line_feeds(text.push('\n')) == without_final_line_feeds(text),
        text.len() > 0 && text.last() != '\n' ==> without_final_line_feeds(text) == text,
{
    assert(text.push('\n').drop_last() =~= text);
}

/// A document whose body begins another one is refused, and so is one whose metadata does not
/// end.
pub proof fn second_documents_are_refused(rest: Seq<char>, at: int)
    ensures
        closing_line(split(rest, '\n'), 0) is None ==> parts_after_opening(rest) is Err
            && parts_after_opening(rest)->Err_0.code == "front_matter_invalid"@,
        closing_line(split(rest, '\n'), 0) == Some(at) && ("---\n"@.is_prefix_of(
            join(split(rest, '\n').skip(at + 1), "\n"@),
        ) || join(split(rest, '\n').skip(at + 1), "\n"@) == "---"@) ==> parts_after_opening(rest)
            is Err && parts_after_opening(rest)->Err_0.code == "yaml_invalid"@,
{
}

/// The review of a Source that is set aside draws no remark only where an approval, and it
/// alone, has its revision, and a decision, and it alone, has its time.
pub proof fn reviews_set_aside_are_complete(
    path: Seq<char>,
    source: SourceRecordView,
    actual: Seq<char>,
)
    requires
        source.status == SourceStatus::Stale || source.status == SourceStatus::Archived,
        review_issues(path, source, actual).len() == 0,
    ensures
        source.content_revision == actual,
        source.review.status == ReviewStatus::Approved <==> source.review.approved_revision is Some,
        source.review.status == ReviewStatus::Pending <==> source.review.reviewed_at is None,
{
}

/// The remark on a review tells the file and what is wrong with it.
pub proof fn remarks_on_reviews_say_what_is_wrong(
    path: Seq<char>,
    source: SourceRecordView,
    actual: Seq<char>,
    k: int,
)
    requires
        0 <= k < review_issues(path, source, actual).len(),
    ensures
        review_issues(path, source, actual)[k].path == Some(path),
        ({
            let code = review_issues(path, source, actual)[k].code;
            ||| code == "revision_mismatch"@ && source.content_revision != actual
            ||| code == "approval_stale"@ && source.review.status == ReviewStatus::Approved
                && source.review.approved_revision != Some(actual)
            ||| code == "review_invalid"@
        }),
{
}

/// The review of a note fits only where a reviewed note was approved with the content that it
/// has, and a note that is not reviewed has no time of review.
pub proof fn reviews_of_notes_are_bound_to_the_content(
    record: KnowledgeRecordView,
    actual: Seq<char>,
)
    ensures
        record.review.status == ReviewState::Reviewed ==> (note_review_fits(record, actual)
            <==> record.approved_revision == Some(actual) && record.review.reviewed_at is Some),
        record.review.status == ReviewState::Unreviewed ==> (note_review_fits(record, actual)
            ==> record.review.reviewed_at is None),
        record.review.status == ReviewState::Unreviewed && record.review.reviewed_at is None
            && record.approved_revision is None ==> note_review_fits(record, actual),
{
}

/// An original outside the inbox stands for a second copy only where it is still there with
/// the same bytes.
pub proof fn originals_must_be_kept(
    kept: FileSnapshotView,
    expected: FileSnapshotView,
    failure: ErrorView,
)
    ensures
        original_check(Some(Ok(kept)), expected) is Ok <==> kept.fingerprint
            == expected.fingerprint && kept.size_bytes == expected.size_bytes,
        original_check(None, expected) is Err,
        original_check(None, expected)->Err_0.code == "backup_confirmation_required"@,
        original_check(Some(Err(failure)), expected) == Err::<(), ErrorView>(failure),
        original_check(Some(Ok(kept)), expected) is Err ==> original_check(
            Some(Ok(kept)),
            expected,
        )->Err_0.code == "backup_confirmation_required"@,
{
}

/// A line of counts is read where it begins with two numbers, and passed over otherwise.
pub proof fn lines_of_counts_begin_with_two_numbers(line: Seq<char>, added: u64, deleted: u64)
    ensures
        split(line, '\t').len() >= 2 && written_number(split(line, '\t')[0]) == Some(added)
            && written_number(split(line, '\t')[1]) == Some(deleted) ==> line_counts(line)
            == Some(DiffCounts { added, deleted }),
        split(line, '\t').len() < 2 ==> line_counts(line) is None,
        split(line, '\t').len() >= 2 && (written_number(split(line, '\t')[0]) is None
            || written_number(split(line, '\t')[1]) is None) ==> line_counts(line) is None,
{
}

/// What Git answers at too great a length counts for nothing; a file is untracked exactly
/// where a line says so.
pub proof fn long_answers_are_not_counted(output: Seq<u8>, text: Seq<char>, i: int)
    ensures
        output.len() > 65_536 ==> diff_counts(Some(output)) is None,
        output.len() <= 65_536 ==> diff_counts(Some(output)) is Some,
        diff_counts(None) is None,
        0 <= i < lines(text).len() && "?? "@.is_prefix_of(lines(text)[i]) ==> tells_untracked(
            text,
        ),
{
}

/// A remark of a scan concerns a single file only where it names that file and says that the
/// file alone could not be read.
pub proof fn remarks_on_single_files(warning: ProviderScanWarningView)
    ensures
        is_item_warning(warning) ==> warning.provider_locator is Some,
        warning.provider_locator is Some ==> (is_item_warning(warning) <==> (warning.code
            == "invalid_pdf"@ || warning.code == "file_too_large"@ || warning.code
            == "pdf_too_large"@ || warning.code == "fingerprint_changed"@ || warning.code
            == "scan_file_unreadable"@)),
{
}

} // verus!
