//! What preparing, checking and approving a Source promises: which bundle is accepted, when a
//! Source is the one of its Asset, and what an approval changes.

use crate::approve::{
    approval_of, approval_prompt, diff_summary, discovery, document_names, is_confirmation,
    is_published, line_counts, presentation, source_names, summed_counts, with_source_id,
    without_line_end, DiffCounts, PendingApprovalView, ReadSourceView, SourceDirectoryEntryView,
    SourceDocumentView, SourceSnapshotView,
};
use crate::asset_validation::{asset_issues, is_canonical_asset};
use crate::canonical_source::{section_titles, source_check};
use crate::error::ErrorView;
use crate::model::{
    AssetRecordView, AssetStatus, Classification, ReviewStatus, SourceRecordView, SourceStatus,
    Timestamp,
};
use crate::order::{sorting_keeps_items, stable_sort};
use crate::path_policy::portable_path;
use crate::paths::name_extension;
use crate::pdf::pages_check;
use crate::prepare::{
    loaded_bundle, preparable, rendering_check, source_id_of, PreparedSourceBundleView,
};
use crate::text::{is_lower_hex, contains_text, decimal_digits, lines, replace_first};
use crate::unicode::lossy_text;
use vstd::prelude::*;
use vstd::utf8::{encode_utf8, valid_utf8};

verus! {

/// The ID of a Source is the ID of its Asset with the same hash, and an ID without a whole
/// hash has none.
pub proof fn source_ids_carry_the_hash(hash: Seq<char>, asset_id: Seq<char>)
    ensures
        is_lower_hex(hash, 64) ==> source_id_of("personal-asset-"@ + hash) == Ok::<
            Seq<char>,
            ErrorView,
        >("personal-source-"@ + hash),
        !is_lower_hex(hash, 64) ==> source_id_of("personal-asset-"@ + hash) is Err,
        !"personal-asset-"@.is_prefix_of(asset_id) ==> source_id_of(asset_id) is Err,
        source_id_of(asset_id) is Err ==> source_id_of(asset_id)->Err_0.code
            == "asset_id_invalid"@,
{
    let id = "personal-asset-"@ + hash;
    assert("personal-asset-"@.is_prefix_of(id));
    assert(id.skip("personal-asset-"@.len() as int) =~= hash);
}

/// Only an Asset that is registered or extracted is prepared: not one that is under review,
/// processed, changed, missing or failed.
pub proof fn only_fresh_assets_are_prepared()
    ensures
        preparable(AssetStatus::Registered),
        preparable(AssetStatus::Extracted),
        !preparable(AssetStatus::ReviewPending),
        !preparable(AssetStatus::Processed),
        !preparable(AssetStatus::Changed),
        !preparable(AssetStatus::Missing),
        !preparable(AssetStatus::Failed),
{
}

/// A bundle that is loaded is the one that was read, from at most 128 MiB, and is the bundle
/// of the Asset that was asked for: with its ID, the ID of its Source and the fingerprint that
/// its ID tells, with a title and a place, and with pages within the limits.
pub proof fn loaded_bundles_are_of_the_asset(
    asset_id: Seq<char>,
    len: int,
    read: Result<PreparedSourceBundleView, Seq<char>>,
    bundle: PreparedSourceBundleView,
)
    requires
        loaded_bundle(asset_id, len, read) == Ok::<PreparedSourceBundleView, ErrorView>(bundle),
    ensures
        len <= 134_217_728,
        read == Ok::<PreparedSourceBundleView, Seq<char>>(bundle),
        bundle.asset_id == asset_id,
        source_id_of(asset_id) == Ok::<Seq<char>, ErrorView>(bundle.source_id),
        bundle.fingerprint.method == "sha256"@,
        asset_id.len() >= "personal-asset-"@.len(),
        bundle.fingerprint.value == "sha256:"@ + asset_id.skip("personal-asset-"@.len() as int),
        bundle.title_hint.len() > 0,
        bundle.logical_path.len() > 0,
        bundle.schema_version == 1,
        bundle.trust == "untrusted_document_text"@,
        pages_check(bundle.pages) is Ok,
{
}

/// A bundle that is too long, cannot be read or is another one is refused.
pub proof fn foreign_bundles_are_refused(
    asset_id: Seq<char>,
    len: int,
    message: Seq<char>,
    bundle: PreparedSourceBundleView,
    other: PreparedSourceBundleView,
    refusal: Seq<char>,
)
    ensures
        len > 134_217_728 ==> loaded_bundle(asset_id, len, Ok(bundle)) is Err,
        loaded_bundle(asset_id, len, Err(message)) is Err,
        bundle.asset_id != asset_id ==> loaded_bundle(asset_id, len, Ok(bundle)) is Err,
        rendering_check(Ok(other), bundle, refusal) is Ok <==> other == bundle,
        rendering_check(Err(message), bundle, refusal) is Err,
{
}

/// A canonical Asset is addressed by its content: its ID, its fingerprint and the path of its
/// record all tell the same hash. It is a personal PDF document of the streamed drive.
pub proof fn canonical_assets_tell_one_hash(path: Seq<char>, asset: AssetRecordView, hash: Seq<char>)
    requires
        asset.id == "personal-asset-"@ + hash,
    ensures
        is_canonical_asset(path, asset) <==> {
            &&& is_lower_hex(hash, 64)
            &&& asset.fingerprint.value == "sha256:"@ + hash
            &&& asset.fingerprint.method == "sha256"@
            &&& path == "assets/registry/"@ + asset.id + ".md"@
            &&& asset.record_type == "asset"@
            &&& asset.schema_version == 1
            &&& asset.scope == "personal"@
            &&& asset.classification == Classification::Personal
            &&& asset.asset_class == "document"@
            &&& asset.media_type == "application/pdf"@
            &&& asset.provider.provider_type == "google-drive-stream"@
        },
{
    assert("personal-asset-"@.is_prefix_of(asset.id));
    assert(asset.id.skip("personal-asset-"@.len() as int) =~= hash);
}

/// An Asset has no issue of its own exactly where it is canonical, its place is portable and
/// its state is in order.
pub proof fn assets_in_order_have_no_issue(path: Seq<char>, asset: AssetRecordView)
    ensures
        asset_issues(path, asset, None).len() == 0 <==> is_canonical_asset(path, asset)
            && portable_path(asset.provider.locator) is Ok,
        !is_canonical_asset(path, asset) ==> asset_issues(path, asset, None)[0].code
            == "registry_invalid"@,
        is_canonical_asset(path, asset) && portable_path(asset.provider.locator) is Err
            ==> asset_issues(path, asset, None)[0].code == "path_not_portable"@,
{
}

/// A Source that passes the check is the one of its Asset, in the canonical form: it carries
/// the ID and the fingerprint of the Asset and relates to it alone, its body begins with its
/// title and has every section, its stored revision is the one of its content, and its review
/// bears out its status.
pub proof fn checked_sources_are_of_their_asset(
    path: Seq<char>,
    source: SourceRecordView,
    body: Seq<char>,
    asset: AssetRecordView,
    actual: Seq<char>,
    i: int,
)
    requires
        source_check(path, source, body, asset, Ok(actual)) is Ok,
        0 <= i < section_titles().len(),
    ensures
        source_check(path, source, body, asset, Ok(actual)) == Ok::<Seq<char>, ErrorView>(actual),
        source.id == replace_first(asset.id, "asset"@, "source"@),
        source.record_type == "source"@,
        source.schema_version == 1,
        source.scope == "personal"@,
        source.ai_assisted,
        source.relations.asset_ids == seq![asset.id],
        source.generation.asset_fingerprint == asset.fingerprint.value,
        source.content_revision == actual,
        ("# "@ + source.title + "\n\n"@).is_prefix_of(body),
        contains_text(body, "\n\n## "@ + section_titles()[i] + "\n\n"@),
        source.status == SourceStatus::ReviewPending ==> source.review.status
            == ReviewStatus::Pending && source.review.approved_revision is None
            && source.review.reviewed_at is None,
        source.status == SourceStatus::Approved ==> source.review.status == ReviewStatus::Approved
            && source.review.approved_revision == Some(actual) && source.review.reviewed_at is Some,
        source.status == SourceStatus::Rejected ==> source.review.status == ReviewStatus::Rejected
            && source.review.approved_revision is None && source.review.reviewed_at is Some,
{
}

/// A Source whose stored revision is not the one of its content, or whose revision cannot be
/// told, does not pass the check.
pub proof fn edited_sources_do_not_pass(
    path: Seq<char>,
    source: SourceRecordView,
    body: Seq<char>,
    asset: AssetRecordView,
    actual: Seq<char>,
    failure: ErrorView,
)
    ensures
        source.content_revision != actual ==> source_check(path, source, body, asset, Ok(actual))
            is Err,
        source_check(path, source, body, asset, Err(failure)) is Err,
{
}

/// A Source has these eleven sections, in this order.
pub proof fn sources_have_eleven_sections()
    ensures
        section_titles().len() == 11,
        section_titles()[0] == "Source Metadata"@,
        section_titles()[1] == "One-Sentence Summary"@,
        section_titles()[2] == "Problem"@,
        section_titles()[3] == "Method"@,
        section_titles()[4] == "Contributions"@,
        section_titles()[5] == "Reported Evidence"@,
        section_titles()[6] == "Stated Limitations"@,
        section_titles()[7] == "Domain Perspective"@,
        section_titles()[8] == "Implementation Considerations"@,
        section_titles()[9] == "Questions and Unknowns"@,
        section_titles()[10] == "Related Knowledge"@,
{
}

/// What is shown for approval is the Source that was read, as it was read, with its Asset and
/// the revision of its content; it is pending, and so is its Asset.
pub proof fn what_is_shown_was_read(
    repository_root: Seq<char>,
    filename: Seq<char>,
    snapshot: SourceSnapshotView,
    document: SourceDocumentView,
    asset_id: Seq<char>,
    asset: Result<AssetRecordView, ErrorView>,
    pending: PendingApprovalView,
)
    requires
        presentation(repository_root, filename, snapshot, document, asset_id, asset) == Ok::<
            PendingApprovalView,
            ErrorView,
        >(pending),
    ensures
        pending.source == document.record,
        pending.body == document.body,
        asset == Ok::<AssetRecordView, ErrorView>(pending.asset),
        pending.source_path == "sources/"@ + filename,
        pending.expected == snapshot,
        document.revision == Ok::<Seq<char>, ErrorView>(pending.revision),
        document.record.content_revision == pending.revision,
        document.record.status == SourceStatus::ReviewPending,
        document.record.review.status == ReviewStatus::Pending,
        document.record.relations.asset_ids == seq![asset_id],
        pending.asset.asset_status == AssetStatus::ReviewPending,
        valid_utf8(snapshot.bytes),
{
}

/// What is asked before an approval tells the Source, its revision, its size and what Git
/// says of it, and the phrase that approves it.
pub proof fn prompts_tell_what_is_approved(pending: PendingApprovalView, git_summary: Seq<char>)
    ensures
        approval_prompt(pending, git_summary) == "Source ID: "@ + pending.source.id
            + "\nCurrent revision: "@ + pending.revision
            + "\nStatus: review_pending -> approved\nSource bytes: "@ + decimal_digits(
            pending.expected.bytes.len(),
        ) + "\nSource lines: "@ + decimal_digits(lines(lossy_text(pending.expected.bytes)).len())
            + "\nGit diff: "@ + git_summary + "\nType exactly: APPROVE "@ + pending.source.id
            + "\n> "@,
{
}

proof fn only_line_ends_are_dropped(text: Seq<char>)
    ensures
        without_line_end(text).is_prefix_of(text),
        forall|i: int|
            without_line_end(text).len() <= i < text.len() ==> #[trigger] text[i] == '\r' || text[i]
                == '\n',
        without_line_end(text).len() > 0 ==> without_line_end(text).last() != '\r'
            && without_line_end(text).last() != '\n',
    decreases text.len(),
{
    if text.len() > 0 && (text.last() == '\r' || text.last() == '\n') {
        only_line_ends_are_dropped(text.drop_last());
        assert forall|i: int| without_line_end(text).len() <= i < text.len() implies #[trigger] text[i]
            == '\r' || text[i] == '\n' by {
            if i < text.len() - 1 {
                assert(text.drop_last()[i] == text[i]);
            }
        }
    }
}

/// Only the exact phrase approves: the line is the phrase with the ID of the Source, and
/// nothing but the end of the line behind it.
pub proof fn only_the_phrase_confirms(line: Seq<char>, source_id: Seq<char>)
    requires
        is_confirmation(line, source_id),
    ensures
        ("APPROVE "@ + source_id).is_prefix_of(line),
        forall|i: int|
            ("APPROVE "@ + source_id).len() <= i < line.len() ==> #[trigger] line[i] == '\r'
                || line[i] == '\n',
{
    only_line_ends_are_dropped(line);
}

/// An approval makes the Source approved, with the revision that was shown and at the given
/// time; all else about it is as it was shown. It comes exactly where the phrase was given and
/// the Source is still the one that was shown.
pub proof fn approvals_change_the_review_alone(
    pending: PendingApprovalView,
    line: Seq<char>,
    current: Option<SourceSnapshotView>,
    document: Option<SourceDocumentView>,
    reviewed_at: Timestamp,
    updated_at: Timestamp,
)
    ensures
        approval_of(pending, line, current, document, reviewed_at, updated_at) matches Ok(record)
            ==> {
            &&& current == Some(pending.expected)
            &&& document is Some
            &&& document->0.record.id == pending.source.id
            &&& document->0.revision == Ok::<Seq<char>, ErrorView>(pending.revision)
            &&& record.status == SourceStatus::Approved
            &&& record.review.status == ReviewStatus::Approved
            &&& record.review.approved_revision == Some(pending.revision)
            &&& record.review.reviewed_at == Some(reviewed_at)
            &&& record.content_revision == pending.revision
            &&& record.updated_at == updated_at
            &&& record.id == pending.source.id
            &&& record.title == pending.source.title
            &&& record.created_at == pending.source.created_at
            &&& record.relations == pending.source.relations
            &&& record.generation == pending.source.generation
        },
        !is_confirmation(line, pending.source.id) ==> approval_of(
            pending,
            line,
            current,
            document,
            reviewed_at,
            updated_at,
        )->Err_0.code == "human_confirmation_required"@,
        current != Some(pending.expected) ==> approval_of(
            pending,
            line,
            current,
            document,
            reviewed_at,
            updated_at,
        ) is Err,
{
}

/// An approval counts as published only where the file holds what was to be written, and it
/// reads as the approved Source with the revision that was shown.
pub proof fn published_approvals_read_back(
    pending: PendingApprovalView,
    document: Seq<char>,
    published: Option<Seq<u8>>,
    read: Option<SourceDocumentView>,
)
    requires
        is_published(pending, document, published, read),
    ensures
        published == Some(encode_utf8(document)),
        read is Some,
        read->0.record.id == pending.source.id,
        read->0.record.status == SourceStatus::Approved,
        read->0.record.review.status == ReviewStatus::Approved,
        read->0.revision == Ok::<Seq<char>, ErrorView>(pending.revision),
        read->0.record.review.approved_revision == Some(pending.revision),
{
}

proof fn ids_are_of_read_sources(read: Seq<ReadSourceView>, id: Seq<char>, n: int)
    requires
        0 <= n <= read.len(),
    ensures
        forall|k: int|
            #![trigger with_source_id(read, id, n)[k]]
            0 <= k < with_source_id(read, id, n).len() ==> 0 <= with_source_id(read, id, n)[k] < n
                && read[with_source_id(read, id, n)[k]].document is Some
                && read[with_source_id(read, id, n)[k]].document->0.record.id == id,
        forall|d: int|
            0 <= d < n && (#[trigger] read[d]).document is Some && read[d].document->0.record.id
                == id ==> with_source_id(read, id, n).contains(d),
        with_source_id(read, id, n).no_duplicates(),
    decreases n,
{
    if n > 0 {
        ids_are_of_read_sources(read, id, n - 1);
        let front = with_source_id(read, id, n - 1);
        let all = with_source_id(read, id, n);
        assert forall|d: int|
            0 <= d < n && (#[trigger] read[d]).document is Some && read[d].document->0.record.id
                == id implies all.contains(d) by {
            if d < n - 1 {
                let k = choose|k: int| 0 <= k < front.len() && front[k] == d;
                assert(all[k] == d);
            } else {
                assert(all.last() == d);
            }
        }
    }
}

/// The Source that is found has the ID that was asked for, and no other of those that were
/// read has it.
pub proof fn the_found_source_has_the_id(read: Seq<ReadSourceView>, id: Seq<char>)
    ensures
        discovery(read, id) matches Ok(at) ==> 0 <= at < read.len() && read[at].document is Some
            && read[at].document->0.record.id == id && forall|d: int|
            0 <= d < read.len() && (#[trigger] read[d]).document is Some
                && read[d].document->0.record.id == id ==> d == at,
        (forall|d: int|
            0 <= d < read.len() ==> (#[trigger] read[d]).document is None
                || read[d].document->0.record.id != id) ==> discovery(read, id) is Err,
{
    let n = read.len() as int;
    let all = with_source_id(read, id, n);
    ids_are_of_read_sources(read, id, n);
    if all.len() > 0 {
        assert(read[all[0]].document->0.record.id == id);
    }
    if all.len() == 1 {
        assert forall|d: int|
            0 <= d < n && (#[trigger] read[d]).document is Some && read[d].document->0.record.id
                == id implies d == all[0] by {
            assert(all.contains(d));
        }
    }
}

/// Every Markdown file among the Sources is read, and nothing else is.
pub proof fn every_source_is_read(entries: Seq<SourceDirectoryEntryView>, i: int)
    requires
        0 <= i < entries.len(),
        source_names(entries) is Ok,
    ensures
        entries.len() <= 1024,
        entries[i].name is Some,
        entries[i].is_regular,
        name_extension(entries[i].name->0) == Some("md"@) <==> source_names(
            entries,
        )->Ok_0.contains(entries[i].name->0),
{
    let names = entries.map_values(|entry: SourceDirectoryEntryView| entry.name->0);
    let wanted = |name: Seq<char>| name_extension(name) == Some("md"@);
    let sorted = stable_sort::<String>(names);
    let name = entries[i].name->0;
    assert(crate::approve::is_source_entry(entries[i]));
    assert(names[i] == name);
    assert(names.contains(name));
    sorting_keeps_items::<String>(names);
    names.to_multiset_ensures();
    sorted.to_multiset_ensures();
    assert(names.to_multiset().count(name) > 0);
    assert(sorted.to_multiset().count(name) > 0);
    assert(sorted.contains(name));
    let k = choose|k: int| 0 <= k < sorted.len() && sorted[k] == name;
    if name_extension(name) == Some("md"@) {
        sorted.lemma_filter_contains(wanted, k);
    }
    if document_names(names).contains(name) {
        sorted.lemma_filter_contains_rev(wanted, name);
    }
}

/// What Git counts is summed up line by line: a line that tells two numbers adds them, and any
/// other line adds nothing.
pub proof fn counts_add_up(all: Seq<Seq<char>>, line: Seq<char>, added: u64, deleted: u64)
    ensures
        line_counts(line) == Some(DiffCounts { added, deleted }) && summed_counts(all).added + added
            <= u64::MAX && summed_counts(all).deleted + deleted <= u64::MAX ==> summed_counts(
            all.push(line),
        ).added == summed_counts(all).added + added && summed_counts(all.push(line)).deleted
            == summed_counts(all).deleted + deleted,
        line_counts(line) is None ==> summed_counts(all.push(line)) == summed_counts(all),
        summed_counts(Seq::<Seq<char>>::empty()) == (DiffCounts { added: 0, deleted: 0 }),
{
    assert(all.push(line).drop_last() == all);
}

/// What Git says of a Source is told as it is: untracked with its size, or tracked with the
/// lines that were added and deleted, in the working tree and in the index. Where Git said
/// nothing, or too much, that is told.
pub proof fn summaries_tell_what_git_said(
    output: Seq<u8>,
    working: DiffCounts,
    staged: DiffCounts,
    bytes: nat,
    count: nat,
)
    requires
        output.len() <= 65_536,
    ensures
        diff_summary(None, Some(working), Some(staged), bytes, count) == "unavailable"@,
        crate::approve::is_untracked(output) ==> diff_summary(
            Some(output),
            Some(working),
            Some(staged),
            bytes,
            count,
        ) == "untracked (+"@ + decimal_digits(count) + " lines, +"@ + decimal_digits(bytes)
            + " bytes)"@,
        !crate::approve::is_untracked(output) ==> diff_summary(
            Some(output),
            Some(working),
            Some(staged),
            bytes,
            count,
        ) == "tracked (working +"@ + decimal_digits(working.added as nat) + "/-"@ + decimal_digits(
            working.deleted as nat,
        ) + " lines; staged +"@ + decimal_digits(staged.added as nat) + "/-"@ + decimal_digits(
            staged.deleted as nat,
        ) + " lines; "@ + decimal_digits(bytes) + " current bytes)"@,
{
}

} // verus!
