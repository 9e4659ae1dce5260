//! What the operations promise of their own results.

use crate::add::{
    add, finish_add, load_existing_asset, validate_existing_pdf, AddAnswer, AddInput, AddResult,
    AddRunResult, BatchAddResult, RegistryEntry,
};
use crate::approve::{
    begin_approval, discover_source, ApproveSourceRequest, ReadSource,
};
use crate::asset_v2::{check_opened_file, read_asset_v2, AssetRecordV2, ProviderFile};
use crate::atomic::AtomicWriteResult;
use crate::capture_v1::{parse_capture_envelope_v1, CaptureEnvelopeV1};
use crate::config::CaptureConfig;
use crate::config::KnowledgeConfig;
use crate::config_v2::{KnowledgeConfigV2, PerspectiveV2};
use crate::context::{
    resolve_personal_context, ContextSource, ResolvedPersonalContext, Scope,
    SelectedPersonalContext,
};
use crate::digest::sha256_hex;
use crate::error::{outcome, MkoError};
use crate::fingerprint::{fingerprint_file, FileSnapshot};
use crate::home::{detect_repository_generation, RepositoryGeneration};
use crate::hooks::{configured_hook_path, validate_git_root};
use crate::json_v1::{AddOutcome, ImportOutcome};
use crate::judgment_v2::{
    check_existing_judgment, check_judgment_revision, prepare_judgment_v2, publish_judgment_v2,
    JudgmentAnnotationV2, JudgmentPublicationOutcomeV2, JudgmentPublicationV2, PreparedJudgmentV2,
};
use crate::knowledge::{note_revision, parse_knowledge_response, KnowledgeRecord, KnowledgeResponse};
use crate::knowledge_store::{
    next_chunk, validate_existing_knowledge, validate_expected_knowledge_snapshot,
    KnowledgeDocument,
};
use crate::lock::{clear_stale_takeover_if_requested, AssetLock, EntryFate, LockReading, Presence};
use crate::model::{AssetRecord, AssetStatus, Fingerprint};
use crate::pdf::{
    extract_pdf_pages_from_bytes, stream_size, stream_snapshot, wait_for_child, WorkerState,
};
use crate::perspective_v2::{
    publish_perspective_confirmation_v2, select_perspectives, CurrentKnowledgeRevisionV2,
    PerspectiveSelectionV2, PreparedPerspectiveConfirmationV2,
};
use crate::model_v2::KnowledgeUnitKindV2;
use crate::prepare::{
    check_preparable, check_provider_content, check_staged_bundle, prepare_source,
    PreparedSourceBundle,
};
use crate::text::trim;
use vstd::prelude::*;
use vstd::utf8::encode_utf8;

verus! {

/// Preparing gives back the pages that were extracted, in number, in order and in text, with
/// the identity of the Asset.
pub proof fn preparing_keeps_the_pages(
    asset_id: &str,
    asset: &AssetRecord,
    pages: Vec<String>,
    before: &FileSnapshot,
    retained_after: &FileSnapshot,
    reopened_after: &FileSnapshot,
    result: Result<PreparedSourceBundle, MkoError>,
)
    requires
        call_ensures(
            prepare_source,
            (asset_id, asset, pages, before, retained_after, reopened_after),
            result,
        ),
        result is Ok,
    ensures
        result->Ok_0.pages.deep_view() == pages.deep_view(),
        result->Ok_0.asset_id@ == asset.id@,
        retained_after.deep_view() == before.deep_view(),
        reopened_after.deep_view() == before.deep_view(),
{
}

/// A finished add reports the Asset that was selected.
pub proof fn finished_adds_report_the_selected_asset(
    selected_id: &str,
    captured_id: String,
    capture_result: &str,
    registry_path: String,
    provider_locator: String,
    import_outcome: ImportOutcome,
    repository: String,
    result: Result<AddResult, MkoError>,
)
    requires
        call_ensures(
            finish_add,
            (
                selected_id,
                captured_id,
                capture_result,
                registry_path,
                provider_locator,
                import_outcome,
                repository,
            ),
            result,
        ),
    ensures
        result matches Ok(added) ==> {
            &&& captured_id@ == selected_id@
            &&& added.asset_id@ == selected_id@
            &&& added.registry_path@ == registry_path@
            &&& added.provider_locator@ == provider_locator@
            &&& added.repository@ == repository@
            &&& added.import_outcome == import_outcome
            &&& added.add_outcome == AddOutcome::Created ==> capture_result@ == "created"@
        },
        captured_id@ != selected_id@ ==> result is Err,
{
}

/// A run of adding gives back what was added: the one file, or the batch of the inbox.
pub proof fn adding_gives_back_what_was_added(
    path: String,
    file: Result<AddResult, MkoError>,
    inbox: Result<BatchAddResult, MkoError>,
    single: Result<AddRunResult, MkoError>,
    batch: Result<AddRunResult, MkoError>,
)
    requires
        call_ensures(add, (&AddInput::File(path), AddAnswer::File(file)), single),
        call_ensures(add, (&AddInput::InboxScan, AddAnswer::Inbox(inbox)), batch),
    ensures
        file is Ok <==> single is Ok,
        inbox is Ok <==> batch is Ok,
        file is Ok && single is Ok ==> single->Ok_0 is Single && single->Ok_0->Single_0.deep_view()
            == file->Ok_0.deep_view(),
        inbox is Ok && batch is Ok ==> batch->Ok_0 is Batch && batch->Ok_0->Batch_0.deep_view()
            == inbox->Ok_0.deep_view(),
        file is Err && single is Err ==> single->Err_0.deep_view() == file->Err_0.deep_view(),
{
}

/// A registered Asset is found exactly where a record of this very content and provider stands
/// at its place; nothing is found where nothing stands, and anything else is refused.
pub proof fn registered_assets_are_found(
    record: AssetRecord,
    asset_id: &str,
    expected: &FileSnapshot,
    provider_type: &str,
    found: Result<Option<AssetRecord>, MkoError>,
    none: Result<Option<AssetRecord>, MkoError>,
    link: Result<Option<AssetRecord>, MkoError>,
)
    requires
        call_ensures(
            load_existing_asset,
            (RegistryEntry::Record { record }, asset_id, expected, provider_type),
            found,
        ),
        call_ensures(
            load_existing_asset,
            (RegistryEntry::Absent, asset_id, expected, provider_type),
            none,
        ),
        call_ensures(
            load_existing_asset,
            (RegistryEntry::NotRegular, asset_id, expected, provider_type),
            link,
        ),
    ensures
        found is Ok <==> record.id@ == asset_id@ && record.fingerprint.deep_view()
            == expected.fingerprint.deep_view() && record.size_bytes == expected.size_bytes
            && record.provider.provider_type@ == provider_type@,
        found is Ok ==> found->Ok_0 is Some && found->Ok_0->0.deep_view() == record.deep_view(),
        none is Ok,
        none->Ok_0 is None,
        link is Err,
{
}

/// A file in the inbox stands for a PDF exactly where it is a regular file with the same
/// fingerprint and size.
pub proof fn standing_files_have_the_content(
    regular_file: bool,
    actual: &FileSnapshot,
    expected: &FileSnapshot,
    result: Result<(), MkoError>,
)
    requires
        call_ensures(validate_existing_pdf, (regular_file, actual, expected), result),
    ensures
        result is Ok <==> regular_file && actual.fingerprint.deep_view()
            == expected.fingerprint.deep_view() && actual.size_bytes == expected.size_bytes,
{
}

/// An approval begins only at a terminal, for both what is asked and what is answered.
pub proof fn approvals_begin_at_a_terminal(
    request: &ApproveSourceRequest,
    stdin_is_terminal: bool,
    stdout_is_terminal: bool,
    result: Result<(), MkoError>,
)
    requires
        call_ensures(begin_approval, (request, stdin_is_terminal, stdout_is_terminal), result),
    ensures
        result is Ok ==> stdin_is_terminal && stdout_is_terminal,
        !(stdin_is_terminal && stdout_is_terminal) ==> result is Err && result->Err_0.deep_view().code
            == "human_confirmation_required"@,
{
}

/// The Source that is discovered has the ID that was asked for.
pub proof fn discovered_sources_have_the_id(
    read: &Vec<ReadSource>,
    source_id: &str,
    result: Result<usize, MkoError>,
)
    requires
        call_ensures(discover_source, (read, source_id), result),
        result is Ok,
    ensures
        result->Ok_0 < read@.len(),
        read.deep_view()[result->Ok_0 as int].document is Some,
        read.deep_view()[result->Ok_0 as int].document->0.record.id == source_id@,
{
    crate::source_laws::the_found_source_has_the_id(read.deep_view(), source_id@);
}

/// An opened file is the one that was inspected only where it is a regular file of that size.
pub proof fn opened_files_have_the_size(
    opened: &Option<ProviderFile>,
    size_bytes: u64,
    result: Result<(), MkoError>,
)
    requires
        call_ensures(check_opened_file, (opened, size_bytes), result),
    ensures
        result is Ok <==> *opened == Some(ProviderFile::Regular { size_bytes }),
{
}

/// A record that is read is the one that was asked for.
pub proof fn read_assets_have_the_id(
    asset_id: &str,
    parsed: Result<AssetRecordV2, String>,
    is_canonical: bool,
    result: Result<AssetRecordV2, MkoError>,
)
    requires
        call_ensures(read_asset_v2, (asset_id, parsed, is_canonical), result),
        result is Ok,
    ensures
        parsed is Ok,
        result->Ok_0.deep_view() == parsed->Ok_0.deep_view(),
        result->Ok_0.deep_view().id == asset_id@,
        is_canonical,
{
}

/// An envelope that is parsed is the one that was sent, of at most 64 KiB.
pub proof fn parsed_envelopes_are_the_sent_ones(
    len: usize,
    parsed: Result<CaptureEnvelopeV1, String>,
    result: Result<CaptureEnvelopeV1, MkoError>,
)
    requires
        call_ensures(parse_capture_envelope_v1, (len, parsed), result),
    ensures
        result is Ok ==> len <= 65_536 && parsed == Ok::<CaptureEnvelopeV1, String>(result->Ok_0)
            && result->Ok_0.schema_version == 1,
        len > 65_536 ==> result is Err,
        parsed is Err ==> result is Err,
{
}

/// A capture works on the roots that were resolved, with the provider that the knowledge base
/// names, and only where the context names that one too.
pub proof fn captures_use_the_resolved_roots(
    context: &ResolvedPersonalContext,
    repository_root: String,
    provider_root: String,
    knowledge: KnowledgeConfig,
    result: Result<CaptureConfig, MkoError>,
)
    requires
        call_ensures(
            CaptureConfig::from_resolved_context,
            (context, repository_root, provider_root, knowledge),
            result,
        ),
        result is Ok,
    ensures
        result->Ok_0.deep_view().repository_root == repository_root@,
        result->Ok_0.deep_view().provider_root == provider_root@,
        result->Ok_0.deep_view().provider_type == knowledge.provider.provider_type@,
        context.provider_type@ == knowledge.provider.provider_type@,
        knowledge.scope@ == "personal"@,
{
}

/// A resolved context has the roots and the provider that were found, and tells where it came
/// from; only a profile gives it a name of its own.
pub proof fn contexts_tell_where_they_came_from(
    name: String,
    profile: crate::context::PersonalProfile,
    root: String,
    source: ContextSource,
    repository_root: String,
    provider_root: String,
    provider_type: String,
    from_profile: ResolvedPersonalContext,
    from_repository: ResolvedPersonalContext,
)
    requires
        call_ensures(
            resolve_personal_context,
            (
                SelectedPersonalContext::Profile { profile_name: name, profile },
                repository_root,
                provider_root,
                provider_type,
            ),
            from_profile,
        ),
        call_ensures(
            resolve_personal_context,
            (
                SelectedPersonalContext::Repository { repository_root: root, source },
                repository_root,
                provider_root,
                provider_type,
            ),
            from_repository,
        ),
    ensures
        from_profile.deep_view().profile_name == name@,
        from_profile.deep_view().source == ContextSource::Profile,
        from_profile.deep_view().repository_root == repository_root@,
        from_profile.deep_view().provider_root == provider_root@,
        from_profile.deep_view().provider_type == provider_type@,
        from_profile.deep_view().scope == Scope::Personal,
        from_repository.deep_view().profile_name == "unprofiled"@,
        from_repository.deep_view().source == source,
        from_repository.deep_view().repository_root == repository_root@,
        from_repository.deep_view().provider_root == provider_root@,
        from_repository.deep_view().provider_type == provider_type@,
{
}

/// A file is fingerprinted by its content, up to 50 MiB.
pub proof fn fingerprints_are_of_the_content(
    size_bytes: u64,
    content: &[u8],
    result: Result<Fingerprint, MkoError>,
)
    requires
        call_ensures(fingerprint_file, (size_bytes, content), result),
    ensures
        result is Ok <==> size_bytes <= 52_428_800,
        result is Ok ==> result->Ok_0.method@ == "sha256"@ && result->Ok_0.value@ == "sha256:"@
            + sha256_hex(content@),
{
}

/// A repository is of the current generation where its configuration is, and of the first one
/// only where it is not.
pub proof fn generations_are_told_apart(
    current: Result<(), MkoError>,
    is_legacy: bool,
    result: Result<RepositoryGeneration, MkoError>,
)
    requires
        call_ensures(detect_repository_generation, (current, is_legacy), result),
    ensures
        current is Ok ==> result is Ok && result->Ok_0 == RepositoryGeneration::V3,
        current is Err && is_legacy ==> result is Ok && result->Ok_0
            == RepositoryGeneration::LegacyV1,
        current is Err && !is_legacy ==> result is Err,
{
}

/// What Git is configured with is told without the white space around it; where it is not
/// configured nothing is told.
pub proof fn configured_paths_are_told(
    output: String,
    told: Result<Option<String>, MkoError>,
    unset: Result<Option<String>, MkoError>,
)
    requires
        call_ensures(configured_hook_path, (true, Some(0i32), Some(output)), told),
        call_ensures(configured_hook_path, (false, Some(1i32), None::<String>), unset),
    ensures
        told is Ok,
        told->Ok_0 is Some,
        told->Ok_0->0@ == trim(output@),
        unset is Ok,
        unset->Ok_0 is None,
{
}

/// Hooks are installed only at the root of a worktree of Git.
pub proof fn hooks_need_the_worktree_root(
    repository_root: &str,
    success: bool,
    top: Result<String, MkoError>,
    result: Result<(), MkoError>,
)
    requires
        call_ensures(validate_git_root, (repository_root, success, top), result),
    ensures
        result is Ok <==> success && top is Ok && top->Ok_0@ == repository_root@,
{
}

/// A judgment speaks of the very bytes that its revision tells, and never stands in place of
/// other bytes.
pub proof fn judgments_speak_of_the_bytes(
    revision: &Vec<u8>,
    knowledge_revision: &str,
    existing: &Vec<u8>,
    markdown: &Vec<u8>,
    bound: Result<(), MkoError>,
    kept: Result<(), MkoError>,
)
    requires
        call_ensures(check_judgment_revision, (revision, knowledge_revision), bound),
        call_ensures(check_existing_judgment, (existing, markdown), kept),
    ensures
        bound is Ok <==> knowledge_revision@ == "sha256:"@ + sha256_hex(revision@),
        kept is Ok <==> existing@ == markdown@,
{
}

/// A published judgment is told under its path, as created or as existing.
pub proof fn published_judgments_are_told(
    path: &str,
    written: Result<AtomicWriteResult, MkoError>,
    result: Result<JudgmentPublicationV2, MkoError>,
)
    requires
        call_ensures(publish_judgment_v2, (path, written), result),
    ensures
        result is Ok <==> written is Ok,
        result is Ok ==> result->Ok_0.deep_view().path == path@,
        written == Ok::<AtomicWriteResult, MkoError>(AtomicWriteResult::Created)
            ==> result->Ok_0.deep_view().outcome == JudgmentPublicationOutcomeV2::Created,
        written == Ok::<AtomicWriteResult, MkoError>(AtomicWriteResult::Existing)
            ==> result->Ok_0.deep_view().outcome == JudgmentPublicationOutcomeV2::Existing,
{
}

/// A prepared judgment keeps its annotation, and its document holds the words of it.
pub proof fn prepared_judgments_keep_the_annotation(
    annotation: JudgmentAnnotationV2,
    yaml: &str,
    prepared: PreparedJudgmentV2,
)
    requires
        call_ensures(prepare_judgment_v2, (annotation, yaml), prepared),
    ensures
        prepared.deep_view().annotation == annotation.deep_view(),
        prepared.deep_view().markdown == encode_utf8(
            crate::judgment_v2::judgment_document(yaml@, annotation.deep_view().text),
        ),
{
}

/// A response that is parsed is the one that was given, of at most 1 MiB.
pub proof fn parsed_responses_are_the_given_ones(
    len: usize,
    parsed: Result<KnowledgeResponse, String>,
    result: Result<KnowledgeResponse, MkoError>,
)
    requires
        call_ensures(parse_knowledge_response, (len, parsed), result),
    ensures
        result is Ok <==> len <= 1_048_576 && parsed is Ok,
        result is Ok ==> result->Ok_0.deep_view() == parsed->Ok_0.deep_view(),
{
}

/// A note is read in chunks that never go more than a byte beyond its limit.
pub proof fn chunks_stay_within_the_limit(
    read: u64,
    max_bytes: u64,
    result: Result<u64, MkoError>,
)
    requires
        call_ensures(next_chunk, (read, max_bytes), result),
    ensures
        result is Ok ==> 0 < result->Ok_0 <= 65_536 && read + result->Ok_0 <= max_bytes + 1,
        read <= max_bytes && max_bytes < u64::MAX ==> result is Ok,
        read > max_bytes ==> result is Err,
{
}

/// A note that stands at the place of another is accepted exactly where it has the same ID and
/// both hold the content of the same revision.
pub proof fn standing_notes_hold_the_same(
    existing: &KnowledgeRecord,
    existing_body: &str,
    expected: &KnowledgeRecord,
    expected_body: &str,
    result: Result<(), MkoError>,
)
    requires
        call_ensures(
            validate_existing_knowledge,
            (existing, existing_body, expected, expected_body),
            result,
        ),
    ensures
        result is Ok <==> existing.id@ == expected.id@ && existing.content_revision@
            == expected.content_revision@ && note_revision(existing.deep_view(), existing_body@)
            == expected.content_revision@ && note_revision(expected.deep_view(), expected_body@)
            == expected.content_revision@,
{
}

/// A note is written over only while it still holds the very bytes that were selected, with
/// the content that its revision tells.
pub proof fn selected_notes_did_not_change(
    expected: &str,
    revision: &str,
    current: &Option<Vec<u8>>,
    document: &Option<KnowledgeDocument>,
    result: Result<(), MkoError>,
)
    requires
        call_ensures(
            validate_expected_knowledge_snapshot,
            (expected, revision, current, document),
            result,
        ),
        result is Ok,
    ensures
        *current is Some,
        (*current)->0@ == encode_utf8(expected@),
        document.deep_view() is Some,
        document.deep_view()->0.record.content_revision == revision@,
        note_revision(document.deep_view()->0.record, document.deep_view()->0.body) == revision@,
{
}

/// A lock removes only the file that it made; anything else gets its name back.
pub proof fn released_locks_remove_their_own_file(
    lock: &AssetLock,
    reading: &LockReading,
    fate: EntryFate,
)
    requires
        call_ensures(AssetLock::release, (lock, reading), fate),
    ensures
        fate == EntryFate::Remove <==> (reading.deep_view() matches
            crate::lock::LockReadingView::Read { record: Some(record), identity } && identity
            == lock.deep_view().identity && record.owner_token == lock.deep_view().owner_token),
        fate == EntryFate::Remove || fate == EntryFate::Restore,
{
}

/// A lock authorizes a publication only in its own repository and for its own Asset.
pub proof fn asserted_locks_authorize(
    lock: &AssetLock,
    root: Option<&str>,
    asset_id: &str,
    reading: &LockReading,
    result: Result<(), MkoError>,
)
    requires
        call_ensures(AssetLock::assert_owned_for, (lock, root, asset_id, reading), result),
        result is Ok,
    ensures
        lock.deep_view().asset_id == asset_id@,
        root.deep_view() == Some(lock.deep_view().repository_root),
        reading.deep_view() matches crate::lock::LockReadingView::Read { record: Some(record), identity }
            && identity == lock.deep_view().identity && record.owner_token
            == lock.deep_view().owner_token && record.asset_id == asset_id@,
{
}

/// A guard that stands is cleared only where that was asked for.
pub proof fn guards_are_cleared_on_request(
    clear_stale: bool,
    present: Result<bool, MkoError>,
    absent: Result<bool, MkoError>,
)
    requires
        call_ensures(
            clear_stale_takeover_if_requested,
            (&Presence::Present, clear_stale),
            present,
        ),
        call_ensures(clear_stale_takeover_if_requested, (&Presence::Absent, clear_stale), absent),
    ensures
        present is Ok <==> clear_stale,
        present is Ok ==> present->Ok_0,
        absent is Ok,
        !absent->Ok_0,
{
}

/// Extraction gives back the pages of the extractor as they are, where they and their number
/// are within the limits.
pub proof fn extraction_gives_back_the_pages(
    page_count: Result<usize, MkoError>,
    extracted: Result<Vec<String>, MkoError>,
    result: Result<Vec<String>, MkoError>,
)
    requires
        call_ensures(extract_pdf_pages_from_bytes, (page_count, extracted), result),
    ensures
        result is Ok ==> page_count is Ok && page_count->Ok_0 <= 1_000 && extracted is Ok
            && result->Ok_0.deep_view() == extracted->Ok_0.deep_view(),
        page_count is Ok && page_count->Ok_0 > 1_000 ==> result is Err && result->Err_0.deep_view().code
            == "page_limit_exceeded"@,
        result is Ok <==> page_count is Ok && page_count->Ok_0 <= 1_000 && extracted is Ok
            && crate::pdf::pages_check(extracted->Ok_0.deep_view()) is Ok,
{
    let counted = page_count;
    if extracted is Ok {
        let checked = crate::pdf::pages_check(extracted->Ok_0.deep_view());
        assert(checked is Ok || checked is Err);
    }
}

/// What is streamed to the extractor adds up, to at most 50 MiB, and is the content that was
/// fingerprinted.
pub proof fn streams_are_the_content(
    size_bytes: u64,
    chunk: u64,
    content: &[u8],
    expected: &FileSnapshot,
    sized: Result<u64, MkoError>,
    streamed: Result<(), MkoError>,
)
    requires
        call_ensures(stream_size, (size_bytes, chunk), sized),
        call_ensures(stream_snapshot, (content, expected), streamed),
    ensures
        sized is Ok <==> size_bytes + chunk <= 52_428_800,
        sized is Ok ==> sized->Ok_0 == size_bytes + chunk,
        streamed is Ok <==> content@.len() == expected.size_bytes && expected.fingerprint.value@
            == "sha256:"@ + sha256_hex(content@),
{
}

/// An extractor that exits is done, one at work is waited for, and one whose time is over is
/// given up.
pub proof fn extractors_are_waited_for(
    expired: bool,
    done: Result<bool, MkoError>,
    waiting: Result<bool, MkoError>,
)
    requires
        call_ensures(wait_for_child, (&WorkerState::Exited,), done),
        call_ensures(wait_for_child, (&WorkerState::Running { expired },), waiting),
    ensures
        done is Ok,
        done->Ok_0,
        waiting is Err <==> expired,
        waiting is Ok ==> !waiting->Ok_0,
        waiting is Err ==> waiting->Err_0.deep_view().code == "extraction_timeout"@,
{
}

/// A selection holds what was chosen, which must be something, and an investment is selected
/// only on a record that argues against itself and leaves a question open.
pub proof fn selections_are_what_was_chosen(
    config: &KnowledgeConfigV2,
    chosen: &Vec<PerspectiveV2>,
    current: &CurrentKnowledgeRevisionV2,
    result: Result<PerspectiveSelectionV2, MkoError>,
    one: PerspectiveV2,
)
    requires
        call_ensures(select_perspectives, (config, chosen, current), result),
    ensures
        result is Ok ==> (result->Ok_0.deep_view().perspectives.contains(one) <==> chosen@.contains(
            one,
        )),
        result is Ok && chosen@.contains(PerspectiveV2::Investment) ==> current.unit_kinds@.contains(
            KnowledgeUnitKindV2::Counterargument,
        ) && current.unit_kinds@.contains(KnowledgeUnitKindV2::OpenQuestion),
        chosen@.len() == 0 ==> result is Err,
{
    crate::record_laws::selections_hold_what_was_chosen(chosen@, one);
    crate::record_laws::selections_hold_what_was_chosen(chosen@, PerspectiveV2::Investment);
    if chosen@.len() == 0 {
        let kept = crate::perspective_v2::canonical_perspectives(chosen@);
        if kept.len() > 0 {
            crate::record_laws::selections_hold_what_was_chosen(chosen@, kept[0]);
            assert(kept.contains(kept[0]));
        }
    }
}

/// A confirmation is published exactly where it is what was shown and the phrase was typed.
pub proof fn confirmations_are_typed(
    canonical: &PreparedPerspectiveConfirmationV2,
    prepared: &PreparedPerspectiveConfirmationV2,
    confirmation: &str,
    result: Result<(), MkoError>,
)
    requires
        call_ensures(
            publish_perspective_confirmation_v2,
            (canonical, prepared, confirmation),
            result,
        ),
    ensures
        result is Ok <==> canonical.deep_view() == prepared.deep_view() && confirmation@
            == prepared.deep_view().confirmation_phrase,
{
}

/// An Asset is prepared exactly where it is a PDF that is registered or extracted and its file
/// has the fingerprint that was registered; what is staged is what is written.
pub proof fn prepared_assets_are_as_registered(
    asset: &AssetRecord,
    before: &FileSnapshot,
    staged: &[u8],
    bytes: &[u8],
    preparable: Result<(), MkoError>,
    unchanged: Result<(), MkoError>,
    written: Result<(), MkoError>,
)
    requires
        call_ensures(check_preparable, (asset,), preparable),
        call_ensures(check_provider_content, (asset, before), unchanged),
        call_ensures(check_staged_bundle, (staged, bytes), written),
    ensures
        preparable is Ok <==> (asset.asset_status == AssetStatus::Registered || asset.asset_status
            == AssetStatus::Extracted) && asset.media_type@ == "application/pdf"@,
        unchanged is Ok <==> before.fingerprint.deep_view() == asset.fingerprint.deep_view(),
        written is Ok <==> staged@ == bytes@,
{
}

} // verus!
