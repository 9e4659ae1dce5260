//! What adding promises: which items of a scan are taken on, what a single PDF comes to, and
//! under which names a copy may be made.

use crate::add::{
    add_plan, capture_outcome, destination_name, discovered_item_check, display_seeds,
    executable_seeds, first, has_content, has_seed, hash_prefix, import_check, import_name,
    is_batch_plan, item_seeds, pdf_at, pdf_with_content, provider_locator, recovery,
    recovery_action, report_seeds, scan_saw, selected_seeds, step_after_link, step_after_name,
    usable_name, with_diagnostics, AddPlanView, BackupAttestation, BatchItemSeed, BatchItemSeedView,
    BatchPlanView, ImportStepView, InsideFileView, Linking,
};
use crate::catalog::CatalogItemView;
use crate::error::ErrorView;
use crate::fingerprint::FileSnapshotView;
use crate::inbox::InboxScanResultView;
use crate::json_v1::{
    AddOutcome, DiagnosticDataView, ImportOutcome, NextAction, RecoveryKind, UserState,
};
use crate::model::{AssetRecordView, FingerprintView};
use crate::order::{sorting_keeps_items, stable_sort};
use crate::path_policy::{matching_names, portable_path};
use crate::provider_scan::ProviderPdfView;
use crate::text::join;
use crate::unicode::{collision_key, nfc};
use vstd::prelude::*;

verus! {

proof fn seeds_come_from_items(items: Seq<CatalogItemView>)
    ensures
        forall|i: int|
            0 <= i < items.len() && (#[trigger] items[i]).next_action != NextAction::Nothing
                ==> item_seeds(items).contains(
                BatchItemSeedView {
                    provider_locator: items[i].provider_locator,
                    user_state: items[i].user_state,
                    next_action: items[i].next_action,
                    asset_id: items[i].asset_id,
                    diagnostic: items[i].diagnostic,
                },
            ),
        forall|k: int|
            0 <= k < item_seeds(items).len() ==> (#[trigger] item_seeds(items)[k]).next_action
                != NextAction::Nothing && exists|i: int|
                0 <= i < items.len() && (#[trigger] items[i]).provider_locator == item_seeds(
                    items,
                )[k].provider_locator && items[i].asset_id == item_seeds(items)[k].asset_id
                    && items[i].user_state == item_seeds(items)[k].user_state
                    && items[i].next_action == item_seeds(items)[k].next_action
                    && items[i].diagnostic == item_seeds(items)[k].diagnostic,
        item_seeds(items).len() <= items.len(),
    decreases items.len(),
{
    if items.len() > 0 {
        let front = items.drop_last();
        let last = items.last();
        let before = item_seeds(front);
        let all = item_seeds(items);
        seeds_come_from_items(front);
        assert forall|i: int|
            0 <= i < items.len() && (#[trigger] items[i]).next_action
                != NextAction::Nothing implies all.contains(
            BatchItemSeedView {
                provider_locator: items[i].provider_locator,
                user_state: items[i].user_state,
                next_action: items[i].next_action,
                asset_id: items[i].asset_id,
                diagnostic: items[i].diagnostic,
            },
        ) by {
            let wanted = BatchItemSeedView {
                provider_locator: items[i].provider_locator,
                user_state: items[i].user_state,
                next_action: items[i].next_action,
                asset_id: items[i].asset_id,
                diagnostic: items[i].diagnostic,
            };
            if i < front.len() {
                assert(front[i] == items[i]);
                assert(before.contains(wanted));
                let k = choose|k: int| 0 <= k < before.len() && before[k] == wanted;
                assert(all[k] == wanted);
            } else {
                assert(all.last() == wanted);
            }
        }
        assert forall|k: int| 0 <= k < all.len() implies (#[trigger] all[k]).next_action
            != NextAction::Nothing && exists|i: int|
            0 <= i < items.len() && (#[trigger] items[i]).provider_locator
                == all[k].provider_locator && items[i].asset_id == all[k].asset_id
                && items[i].user_state == all[k].user_state && items[i].next_action
                == all[k].next_action && items[i].diagnostic == all[k].diagnostic by {
            if k < before.len() {
                assert(all[k] == before[k]);
                let i = choose|i: int|
                    0 <= i < front.len() && (#[trigger] front[i]).provider_locator
                        == before[k].provider_locator && front[i].asset_id == before[k].asset_id
                        && front[i].user_state == before[k].user_state && front[i].next_action
                        == before[k].next_action && front[i].diagnostic == before[k].diagnostic;
                assert(items[i] == front[i]);
            } else {
                assert(items[items.len() - 1] == last);
            }
        }
    }
}

/// Every item of a scan that is not done is offered, as the scan found it, and an item that
/// is done is not.
pub proof fn unfinished_items_are_offered(items: Seq<CatalogItemView>, i: int)
    requires
        0 <= i < items.len(),
    ensures
        items[i].next_action != NextAction::Nothing ==> item_seeds(items).contains(
            BatchItemSeedView {
                provider_locator: items[i].provider_locator,
                user_state: items[i].user_state,
                next_action: items[i].next_action,
                asset_id: items[i].asset_id,
                diagnostic: items[i].diagnostic,
            },
        ),
        forall|k: int|
            0 <= k < item_seeds(items).len() ==> (#[trigger] item_seeds(items)[k]).next_action
                != NextAction::Nothing,
{
    seeds_come_from_items(items);
}

proof fn diagnostics_only_add(
    seeds: Seq<BatchItemSeedView>,
    diagnostics: Seq<DiagnosticDataView>,
)
    ensures
        seeds.is_prefix_of(with_diagnostics(seeds, diagnostics)),
        forall|k: int|
            seeds.len() <= k < with_diagnostics(seeds, diagnostics).len() ==> (
            #[trigger] with_diagnostics(seeds, diagnostics)[k]).user_state == UserState::Blocked
                && with_diagnostics(seeds, diagnostics)[k].asset_id is None
                && with_diagnostics(seeds, diagnostics)[k].diagnostic is Some
                && diagnostics.contains(with_diagnostics(seeds, diagnostics)[k].diagnostic->0)
                && with_diagnostics(seeds, diagnostics)[k].diagnostic->0.path == Some(
                with_diagnostics(seeds, diagnostics)[k].provider_locator,
            ),
        forall|d: int|
            0 <= d < diagnostics.len() && (#[trigger] diagnostics[d]).path is Some && (
            diagnostics[d].code == "invalid_pdf"@ || diagnostics[d].code == "pdf_too_large"@
                || diagnostics[d].code == "scan_file_unreadable"@) && portable_path(
                diagnostics[d].path->0,
            ) is Ok ==> has_seed(with_diagnostics(seeds, diagnostics), diagnostics[d].path->0),
    decreases diagnostics.len(),
{
    if diagnostics.len() > 0 {
        let front = diagnostics.drop_last();
        let before = with_diagnostics(seeds, front);
        let all = with_diagnostics(seeds, diagnostics);
        diagnostics_only_add(seeds, front);
        assert(before.is_prefix_of(all));
        assert forall|k: int| seeds.len() <= k < all.len() implies (#[trigger] all[k]).user_state
            == UserState::Blocked && all[k].asset_id is None && all[k].diagnostic is Some
            && diagnostics.contains(all[k].diagnostic->0) && all[k].diagnostic->0.path == Some(
            all[k].provider_locator,
        ) by {
            if k < before.len() {
                assert(all[k] == before[k]);
                assert(front.contains(before[k].diagnostic->0));
                let d = choose|d: int|
                    0 <= d < front.len() && front[d] == before[k].diagnostic->0;
                assert(diagnostics[d] == front[d]);
            } else {
                assert(diagnostics[diagnostics.len() - 1] == diagnostics.last());
            }
        }
        assert forall|d: int|
            0 <= d < diagnostics.len() && (#[trigger] diagnostics[d]).path is Some && (
            diagnostics[d].code == "invalid_pdf"@ || diagnostics[d].code == "pdf_too_large"@
                || diagnostics[d].code == "scan_file_unreadable"@) && portable_path(
                diagnostics[d].path->0,
            ) is Ok implies has_seed(all, diagnostics[d].path->0) by {
            if d < front.len() {
                assert(front[d] == diagnostics[d]);
                assert(has_seed(before, diagnostics[d].path->0));
                let k = choose|k: int|
                    0 <= k < before.len() && (#[trigger] before[k]).provider_locator
                        == diagnostics[d].path->0;
                assert(all[k] == before[k]);
            } else if has_seed(before, diagnostics[d].path->0) {
                let k = choose|k: int|
                    0 <= k < before.len() && (#[trigger] before[k]).provider_locator
                        == diagnostics[d].path->0;
                assert(all[k] == before[k]);
            } else {
                assert(all.last().provider_locator == diagnostics[d].path->0);
                assert(all[all.len() - 1].provider_locator == diagnostics[d].path->0);
            }
        }
    }
}

/// What the scan could not read as a PDF is offered too: as blocked, under the place that the
/// finding names and with that finding. The items of the scan come first and stay as they are.
pub proof fn unreadable_files_are_offered(report: InboxScanResultView)
    ensures
        ({
            let findings = report.warnings + report.errors;
            let seeds = report_seeds(report);
            &&& item_seeds(report.items).is_prefix_of(seeds)
            &&& forall|k: int|
                item_seeds(report.items).len() <= k < seeds.len() ==> (
                #[trigger] seeds[k]).user_state == UserState::Blocked && seeds[k].asset_id is None
                    && seeds[k].diagnostic is Some && seeds[k].diagnostic->0.path == Some(
                    seeds[k].provider_locator,
                )
            &&& forall|d: int|
                0 <= d < findings.len() && (#[trigger] findings[d]).path is Some && (
                findings[d].code == "invalid_pdf"@ || findings[d].code == "pdf_too_large"@
                    || findings[d].code == "scan_file_unreadable"@) && portable_path(
                    findings[d].path->0,
                ) is Ok ==> exists|k: int|
                    0 <= k < seeds.len() && (#[trigger] seeds[k]).provider_locator
                        == findings[d].path->0
        }),
{
    diagnostics_only_add(item_seeds(report.items), report.warnings + report.errors);
}

/// What one run takes on is offered by the scan, as it was offered; where the limit covers
/// all that was offered, all of it is taken on. The plan keeps the verdict on the scan, the
/// attestation and what the scan left over, and counts what it leaves itself.
pub proof fn plans_take_on_what_is_offered(
    plan: BatchPlanView,
    report: InboxScanResultView,
    mutation_safe: bool,
    attestation: BackupAttestation,
)
    requires
        is_batch_plan(plan, report, mutation_safe, attestation),
    ensures
        forall|k: int|
            0 <= k < plan.seeds.len() ==> report_seeds(report).contains(#[trigger] plan.seeds[k]),
        plan.seeds.len() <= report.scan_limits.max_batch_items,
        plan.seeds.len() + plan.left_out == report_seeds(report).len(),
        report_seeds(report).len() <= report.scan_limits.max_batch_items ==> plan.left_out == 0
            && plan.seeds.to_multiset() == report_seeds(report).to_multiset(),
        plan.mutation_safe == mutation_safe,
        plan.backup_attestation == attestation,
        plan.scan_complete == report.scan_complete,
        plan.remaining == report.remaining,
{
    let seeds = report_seeds(report);
    let limit = report.scan_limits.max_batch_items as nat;
    selection_is_offered(seeds, limit);
    crate::add::selection_fills_the_limit(seeds, limit);
    assert forall|k: int| 0 <= k < plan.seeds.len() implies seeds.contains(
        #[trigger] plan.seeds[k],
    ) by {
        assert(selected_seeds(seeds, limit).contains(plan.seeds[k]));
    }
}

proof fn parts_make_the_whole(seeds: Seq<BatchItemSeedView>)
    ensures
        executable_seeds(seeds).to_multiset().add(display_seeds(seeds).to_multiset())
            =~= seeds.to_multiset(),
        executable_seeds(seeds).len() + display_seeds(seeds).len() == seeds.len(),
        forall|k: int|
            0 <= k < executable_seeds(seeds).len() ==> {
                let action = (#[trigger] executable_seeds(seeds)[k]).next_action;
                action == NextAction::Add || action == NextAction::Prepare || action
                    == NextAction::WriteDraft
            },
        forall|k: int|
            0 <= k < display_seeds(seeds).len() ==> {
                let action = (#[trigger] display_seeds(seeds)[k]).next_action;
                action != NextAction::Add && action != NextAction::Prepare && action
                    != NextAction::WriteDraft
            },
    decreases seeds.len(),
{
    broadcast use vstd::seq_lib::group_to_multiset_ensures;

    if seeds.len() > 0 {
        parts_make_the_whole(seeds.drop_last());
        assert(seeds == seeds.drop_last().push(seeds.last()));
    }
}

proof fn selection_is_offered(seeds: Seq<BatchItemSeedView>, limit: nat)
    ensures
        forall|seed: BatchItemSeedView|
            #[trigger] selected_seeds(seeds, limit).contains(seed) ==> seeds.contains(seed),
        seeds.len() <= limit ==> selected_seeds(seeds, limit).to_multiset()
            =~= seeds.to_multiset(),
{
    broadcast use vstd::seq_lib::group_to_multiset_ensures;

    let work = executable_seeds(seeds);
    let show = display_seeds(seeds);
    let sorted_work = stable_sort::<BatchItemSeed>(work);
    let sorted_show = stable_sort::<BatchItemSeed>(show);
    let taken = first(sorted_work, limit);
    let shown = first(sorted_show, (limit - taken.len()) as nat);
    let all = selected_seeds(seeds, limit);
    parts_make_the_whole(seeds);
    sorting_keeps_items::<BatchItemSeed>(work);
    sorting_keeps_items::<BatchItemSeed>(show);
    sorting_keeps_items::<BatchItemSeed>(taken + shown);
    assert forall|seed: BatchItemSeedView| #[trigger] all.contains(seed) implies seeds.contains(
        seed,
    ) by {
        assert(all.to_multiset().count(seed) > 0);
        assert((taken + shown).to_multiset().count(seed) > 0);
        assert((taken + shown).contains(seed));
        let k = choose|k: int| 0 <= k < (taken + shown).len() && (taken + shown)[k] == seed;
        if k < taken.len() {
            assert(sorted_work[k] == seed);
            assert(sorted_work.contains(seed));
            assert(work.to_multiset().count(seed) > 0);
        } else {
            assert(sorted_show[k - taken.len()] == seed);
            assert(sorted_show.contains(seed));
            assert(show.to_multiset().count(seed) > 0);
        }
        assert(seeds.to_multiset().count(seed) > 0);
    }
    if seeds.len() <= limit {
        assert(taken == sorted_work);
        assert(shown == sorted_show);
        vstd::seq_lib::lemma_multiset_commutative(sorted_work, sorted_show);
    }
}

/// An item that can only be shown is taken on only where every item that a run can carry
/// forward, by adding, preparing or drafting it, is taken on too.
pub proof fn work_is_taken_on_first(
    seeds: Seq<BatchItemSeedView>,
    limit: nat,
    work: BatchItemSeedView,
    shown: BatchItemSeedView,
)
    requires
        seeds.contains(work),
        work.next_action == NextAction::Add || work.next_action == NextAction::Prepare
            || work.next_action == NextAction::WriteDraft,
        selected_seeds(seeds, limit).contains(shown),
        shown.next_action != NextAction::Add,
        shown.next_action != NextAction::Prepare,
        shown.next_action != NextAction::WriteDraft,
    ensures
        selected_seeds(seeds, limit).contains(work),
{
    broadcast use vstd::seq_lib::group_to_multiset_ensures;

    let able = executable_seeds(seeds);
    let other = display_seeds(seeds);
    let sorted_able = stable_sort::<BatchItemSeed>(able);
    let sorted_other = stable_sort::<BatchItemSeed>(other);
    let taken = first(sorted_able, limit);
    let rest = first(sorted_other, (limit - taken.len()) as nat);
    let all = selected_seeds(seeds, limit);
    parts_make_the_whole(seeds);
    sorting_keeps_items::<BatchItemSeed>(able);
    sorting_keeps_items::<BatchItemSeed>(other);
    sorting_keeps_items::<BatchItemSeed>(taken + rest);
    assert(seeds.to_multiset().count(work) > 0);
    if other.to_multiset().count(work) > 0 {
        assert(other.contains(work));
        let k = choose|k: int| 0 <= k < other.len() && other[k] == work;
        assert(other[k].next_action == work.next_action);
    }
    assert(able.to_multiset().count(work) > 0);
    assert(sorted_able.contains(work));
    assert(all.to_multiset().count(shown) > 0);
    assert((taken + rest).contains(shown));
    let k = choose|k: int| 0 <= k < (taken + rest).len() && (taken + rest)[k] == shown;
    if k < taken.len() {
        assert(sorted_able[k] == shown);
        assert(sorted_able.contains(shown));
        assert(able.to_multiset().count(shown) > 0);
        assert(able.contains(shown));
        let j = choose|j: int| 0 <= j < able.len() && able[j] == shown;
        assert(able[j].next_action == shown.next_action);
    }
    assert(rest.len() > 0);
    assert(taken == sorted_able);
    let j = choose|j: int| 0 <= j < sorted_able.len() && sorted_able[j] == work;
    assert((taken + rest)[j] == work);
    assert((taken + rest).contains(work));
    assert((taken + rest).to_multiset().count(work) > 0);
    assert(all.to_multiset().count(work) > 0);
}

/// A finding is helped against by what it is: a missing file by hydrating it, what was locked
/// or could not be read by trying again, and all else by repairing it.
pub proof fn findings_call_for_their_action()
    ensures
        recovery_action("provider_missing"@) == NextAction::Hydrate,
        recovery_action("lock_active"@) == NextAction::Retry,
        recovery_action("lock_scan_incomplete"@) == NextAction::Retry,
        recovery_action("provider_scan_incomplete"@) == NextAction::Retry,
        recovery_action("scan_file_unreadable"@) == NextAction::Retry,
        recovery_action("invalid_pdf"@) == NextAction::Repair,
        recovery_action("pdf_too_large"@) == NextAction::Repair,
        recovery("provider_missing"@)->0.kind == RecoveryKind::Hydrate,
        recovery("backup_confirmation_required"@)->0.kind == RecoveryKind::VerifyBackup,
        recovery("fingerprint_changed"@)->0.kind == RecoveryKind::Retry,
        recovery("invalid_pdf"@)->0.kind == RecoveryKind::Repair,
        recovery("pdf_too_large"@)->0.kind == RecoveryKind::Repair,
{
    reveal_strlit("provider_missing");
    reveal_strlit("provider_hydration_failed");
    reveal_strlit("provider_not_hydrated");
    reveal_strlit("backup_confirmation_required");
    reveal_strlit("lock_active");
    reveal_strlit("lock_scan_incomplete");
    reveal_strlit("provider_scan_incomplete");
    reveal_strlit("provider_import_locked");
    reveal_strlit("registry_locked");
    reveal_strlit("lock_held");
    reveal_strlit("fingerprint_changed");
    reveal_strlit("file_unreadable");
    reveal_strlit("scan_file_unreadable");
    reveal_strlit("invalid_pdf");
    reveal_strlit("pdf_too_large");
    assert("invalid_pdf"@[0] == 'i' && "lock_active"@[0] == 'l');
    assert("pdf_too_large"@[0] == 'p' && "provider_missing"@[1] == 'r');
    assert("pdf_too_large"@[1] == 'd');
    assert("backup_confirmation_required"@[0] == 'b');
    assert("provider_missing"@.len() == 16 && "provider_scan_incomplete"@.len() == 24);
    assert("fingerprint_changed"@[0] == 'f' && "file_unreadable"@.len() == 15);
}

proof fn the_first_at_a_place(pdfs: Seq<ProviderPdfView>, locator: Seq<char>, k: int)
    requires
        0 <= k < pdfs.len(),
        pdfs[k].provider_locator == locator,
        forall|j: int| 0 <= j < k ==> (#[trigger] pdfs[j]).provider_locator != locator,
    ensures
        pdf_at(pdfs, locator) == Some(pdfs[k]),
    decreases k,
{
    if k > 0 {
        assert(pdfs[0].provider_locator != locator);
        let rest = pdfs.drop_first();
        assert forall|j: int| 0 <= j < k - 1 implies (#[trigger] rest[j]).provider_locator
            != locator by {
            assert(rest[j] == pdfs[j + 1]);
        }
        the_first_at_a_place(rest, locator, k - 1);
    }
}

proof fn no_pdf_at_a_place(pdfs: Seq<ProviderPdfView>, locator: Seq<char>)
    requires
        forall|j: int| 0 <= j < pdfs.len() ==> (#[trigger] pdfs[j]).provider_locator != locator,
    ensures
        pdf_at(pdfs, locator) is None,
    decreases pdfs.len(),
{
    if pdfs.len() > 0 {
        assert(pdfs[0].provider_locator != locator);
        let rest = pdfs.drop_first();
        assert forall|j: int| 0 <= j < rest.len() implies (#[trigger] rest[j]).provider_locator
            != locator by {
            assert(rest[j] == pdfs[j + 1]);
        }
        no_pdf_at_a_place(rest, locator);
    }
}

proof fn no_pdf_with_content(pdfs: Seq<ProviderPdfView>, snapshot: FileSnapshotView)
    requires
        forall|j: int|
            0 <= j < pdfs.len() ==> (#[trigger] pdfs[j]).fingerprint != snapshot.fingerprint
                || pdfs[j].size_bytes != snapshot.size_bytes,
    ensures
        pdf_with_content(pdfs, snapshot) is None,
    decreases pdfs.len(),
{
    if pdfs.len() > 0 {
        assert(!has_content(pdfs[0], snapshot));
        let rest = pdfs.drop_first();
        assert forall|j: int| 0 <= j < rest.len() implies (#[trigger] rest[j]).fingerprint
            != snapshot.fingerprint || rest[j].size_bytes != snapshot.size_bytes by {
            assert(rest[j] == pdfs[j + 1]);
        }
        no_pdf_with_content(rest, snapshot);
    }
}

/// A PDF that is registered is added again from the place that it was registered at: as
/// already in the inbox where it was named there, and as a copy that is used again where it
/// was not. Nothing is added where that place no longer holds the content.
pub proof fn registered_pdfs_keep_their_place(
    attestation: BackupAttestation,
    snapshot: FileSnapshotView,
    inside: Option<InsideFileView>,
    asset: AssetRecordView,
    pdfs: Seq<ProviderPdfView>,
    k: int,
)
    requires
        0 <= k < pdfs.len(),
        pdfs[k].provider_locator == asset.provider.locator,
        forall|j: int|
            0 <= j < k ==> (#[trigger] pdfs[j]).provider_locator != asset.provider.locator,
    ensures
        ({
            let plan = add_plan(false, attestation, snapshot, inside, Some(asset), pdfs);
            let holds = pdfs[k].fingerprint == snapshot.fingerprint && pdfs[k].size_bytes
                == snapshot.size_bytes;
            &&& holds && inside is Some && inside->0.relative_path == pdfs[k].relative_path
                ==> plan == Ok::<AddPlanView, ErrorView>(
                AddPlanView::Use {
                    provider_locator: asset.provider.locator,
                    relative_path: pdfs[k].relative_path,
                    import_outcome: ImportOutcome::AlreadyInInbox,
                },
            )
            &&& holds && (inside is None || inside->0.relative_path != pdfs[k].relative_path)
                ==> plan == Ok::<AddPlanView, ErrorView>(
                AddPlanView::Use {
                    provider_locator: asset.provider.locator,
                    relative_path: pdfs[k].relative_path,
                    import_outcome: ImportOutcome::ReusedInboxCopy,
                },
            )
            &&& !holds ==> plan is Err && plan->Err_0.code == "registry_provider_mismatch"@
        }),
{
    the_first_at_a_place(pdfs, asset.provider.locator, k);
}

/// A registered PDF whose place is gone is not added again.
pub proof fn missing_places_are_refused(
    attestation: BackupAttestation,
    snapshot: FileSnapshotView,
    inside: Option<InsideFileView>,
    asset: AssetRecordView,
    pdfs: Seq<ProviderPdfView>,
)
    requires
        forall|j: int|
            0 <= j < pdfs.len() ==> (#[trigger] pdfs[j]).provider_locator != asset.provider.locator,
    ensures
        add_plan(false, attestation, snapshot, inside, Some(asset), pdfs) is Err,
        add_plan(false, attestation, snapshot, inside, Some(asset), pdfs)->Err_0.code
            == "registry_provider_missing"@,
{
    no_pdf_at_a_place(pdfs, asset.provider.locator);
}

/// A new PDF in the inbox is registered where it stands, under the place that its names make
/// in composed form, where a verified second copy is attested and the scan saw it with this
/// content.
pub proof fn new_inbox_pdfs_stay_in_place(
    temporary_source: bool,
    snapshot: FileSnapshotView,
    file: InsideFileView,
    pdfs: Seq<ProviderPdfView>,
    k: int,
)
    requires
        0 <= k < pdfs.len(),
        pdfs[k].relative_path == file.relative_path,
        pdfs[k].fingerprint == snapshot.fingerprint,
        pdfs[k].size_bytes == snapshot.size_bytes,
        forall|i: int| 0 <= i < file.names.len() ==> (#[trigger] file.names[i]) is Some,
        portable_path(
            join(file.names.map_values(|name: Option<Seq<char>>| nfc(name->0)), "/"@),
        ) is Ok,
    ensures
        add_plan(
            temporary_source,
            BackupAttestation::UserVerified,
            snapshot,
            Some(file),
            None,
            pdfs,
        ) == Ok::<AddPlanView, ErrorView>(
            AddPlanView::Use {
                provider_locator: join(
                    file.names.map_values(|name: Option<Seq<char>>| nfc(name->0)),
                    "/"@,
                ),
                relative_path: file.relative_path,
                import_outcome: ImportOutcome::AlreadyInInbox,
            },
        ),
{
    assert(has_content(pdfs[k], snapshot));
    assert(scan_saw(pdfs, file.relative_path, snapshot));
}

/// A PDF from outside that no file of the inbox holds is copied into it.
pub proof fn unknown_content_is_copied(
    attestation: BackupAttestation,
    snapshot: FileSnapshotView,
    pdfs: Seq<ProviderPdfView>,
)
    requires
        forall|j: int|
            0 <= j < pdfs.len() ==> (#[trigger] pdfs[j]).fingerprint != snapshot.fingerprint
                || pdfs[j].size_bytes != snapshot.size_bytes,
    ensures
        add_plan(false, attestation, snapshot, None, None, pdfs) == Ok::<AddPlanView, ErrorView>(
            AddPlanView::Import,
        ),
{
    no_pdf_with_content(pdfs, snapshot);
}

/// A capture that made a record adds it, and one that found its record leaves it as existing.
pub proof fn captures_tell_what_they_did()
    ensures
        capture_outcome("created"@) == Ok::<AddOutcome, ErrorView>(AddOutcome::Created),
        capture_outcome("existing"@) == Ok::<AddOutcome, ErrorView>(AddOutcome::Existing),
{
    reveal_strlit("created");
    reveal_strlit("existing");
    assert("created"@.len() == 7 && "existing"@.len() == 8);
}

/// A discovered item is captured exactly where its place is portable, the scan read it, and
/// it still has the fingerprint and the size that the scan read.
pub proof fn changed_items_are_not_captured(
    locator: Seq<char>,
    expected: Option<FileSnapshotView>,
    actual: FileSnapshotView,
)
    ensures
        discovered_item_check(locator, expected, actual) is Ok <==> portable_path(locator) is Ok
            && expected is Some && expected->0.fingerprint == actual.fingerprint
            && expected->0.size_bytes == actual.size_bytes,
        portable_path(locator) is Ok && expected is Some && !(expected->0.fingerprint
            == actual.fingerprint && expected->0.size_bytes == actual.size_bytes)
            ==> discovered_item_check(locator, expected, actual)->Err_0.code
            == "fingerprint_changed"@,
{
}

/// A copy is published exactly where the source did not change, the copy is good, and, unless
/// a second copy is attested, the original still stands outside with the same content.
pub proof fn imports_keep_the_original(
    source_after: FileSnapshotView,
    copy: Result<(), ErrorView>,
    attestation: BackupAttestation,
    original: Option<Result<FileSnapshotView, ErrorView>>,
    expected: FileSnapshotView,
)
    ensures
        import_check(source_after, copy, attestation, original, expected) is Ok <==> {
            &&& source_after == expected
            &&& copy is Ok
            &&& attestation == BackupAttestation::OutsideOriginalRetained ==> original is Some
                && original->0 is Ok && original->0->Ok_0.fingerprint == expected.fingerprint
                && original->0->Ok_0.size_bytes == expected.size_bytes
        },
{
}

/// A PDF is imported under its own name in composed form; one whose name the inbox leaves out
/// of its scans gets a name from the first twelve digits of its hash.
pub proof fn imports_are_named_by_the_file(
    own: Seq<char>,
    fingerprint: FingerprintView,
    digits: Seq<char>,
)
    requires
        fingerprint.value == "sha256:"@ + digits,
        digits.len() >= 12,
    ensures
        portable_path(nfc(own)) is Ok ==> import_name(Some(own), false, fingerprint) == Ok::<
            Seq<char>,
            ErrorView,
        >(nfc(own)),
        portable_path("import-"@ + digits.take(12) + ".pdf"@) is Ok ==> import_name(
            Some(own),
            true,
            fingerprint,
        ) == Ok::<Seq<char>, ErrorView>("import-"@ + digits.take(12) + ".pdf"@),
        import_name(None, false, fingerprint) is Err,
{
    let value = fingerprint.value;
    assert("sha256:"@.is_prefix_of(value));
    assert(value.skip("sha256:"@.len() as int) =~= digits);
    assert(hash_prefix(fingerprint, 12) == digits.take(12));
}

proof fn names_that_collide(names: Seq<Option<Seq<char>>>, wanted: Seq<char>)
    ensures
        forall|k: int|
            0 <= k < matching_names(names, wanted).len() ==> names.contains(
                Some(#[trigger] matching_names(names, wanted)[k]),
            ) && collision_key(matching_names(names, wanted)[k]) == collision_key(wanted),
        forall|i: int|
            0 <= i < names.len() && (#[trigger] names[i]) is Some && collision_key(names[i]->0)
                == collision_key(wanted) ==> matching_names(names, wanted).contains(names[i]->0),
    decreases names.len(),
{
    if names.len() > 0 {
        let front = names.drop_last();
        let before = matching_names(front, wanted);
        let all = matching_names(names, wanted);
        names_that_collide(front, wanted);
        assert forall|k: int| 0 <= k < all.len() implies names.contains(Some(#[trigger] all[k]))
            && collision_key(all[k]) == collision_key(wanted) by {
            if k < before.len() {
                assert(all[k] == before[k]);
                let i = choose|i: int| 0 <= i < front.len() && front[i] == Some(before[k]);
                assert(names[i] == Some(all[k]));
            } else {
                assert(names[names.len() - 1] == Some(all[k]));
            }
        }
        assert forall|i: int|
            0 <= i < names.len() && (#[trigger] names[i]) is Some && collision_key(names[i]->0)
                == collision_key(wanted) implies all.contains(names[i]->0) by {
            if i < front.len() {
                assert(front[i] == names[i]);
                assert(before.contains(names[i]->0));
                let k = choose|k: int| 0 <= k < before.len() && before[k] == names[i]->0;
                assert(all[k] == names[i]->0);
            } else {
                assert(all.last() == names[i]->0);
            }
        }
    }
}

proof fn usable_names_are_free(
    names: Seq<Option<Seq<char>>>,
    identical: Seq<Seq<char>>,
    candidate: Seq<char>,
    i: int,
)
    requires
        usable_name(names, identical, candidate) == Ok::<bool, ErrorView>(true),
        0 <= i < names.len(),
    ensures
        names[i] is Some,
        collision_key(names[i]->0) == collision_key(candidate) ==> identical.contains(names[i]->0),
{
    names_that_collide(names, candidate);
    let found = matching_names(names, candidate);
    assert(names[i] is Some);
    if collision_key(names[i]->0) == collision_key(candidate) {
        assert(found.contains(names[i]->0));
        let k = choose|k: int| 0 <= k < found.len() && found[k] == names[i]->0;
        assert(found[0] == names[i]->0);
    }
}

/// A copy never takes the name of another file, not even one that differs only by case or by
/// composition: whatever stands under a colliding name is the same PDF. A name that nothing
/// collides with is used as it is.
pub proof fn copies_take_no_name_of_another(
    names: Seq<Option<Seq<char>>>,
    identical: Seq<Seq<char>>,
    source_name: Seq<char>,
    fingerprint: FingerprintView,
    i: int,
)
    requires
        0 <= i < names.len(),
        destination_name(names, identical, source_name, fingerprint) is Ok,
    ensures
        ({
            let name = destination_name(names, identical, source_name, fingerprint)->Ok_0;
            &&& names[i] is Some
            &&& collision_key(names[i]->0) == collision_key(name) ==> identical.contains(names[i]->0)
            &&& (forall|j: int|
                0 <= j < names.len() ==> collision_key((#[trigger] names[j])->0) != collision_key(
                    source_name,
                )) ==> name == source_name
        }),
{
    crate::add::imports_never_overwrite(names, identical, source_name, fingerprint);
    let name = destination_name(names, identical, source_name, fingerprint)->Ok_0;
    usable_names_are_free(names, identical, name, i);
    names_that_collide(names, source_name);
    let found = matching_names(names, source_name);
    if forall|j: int|
        0 <= j < names.len() ==> collision_key((#[trigger] names[j])->0) != collision_key(
            source_name,
        ) {
        if found.len() > 0 {
            assert(names.contains(Some(found[0])));
            let j = choose|j: int| 0 <= j < names.len() && names[j] == Some(found[0]);
            assert(collision_key(names[j]->0) == collision_key(source_name));
        }
    }
}

/// A copy is made only under a name where nothing stands; where the same PDF stands already
/// the import is done, and where another thing stands another name is chosen. What is done is
/// done under the name that was chosen.
pub proof fn import_steps_lead_on(name: Seq<char>, failure: ErrorView, detail: String)
    ensures
        step_after_name(name, None) == (ImportStepView::Copy { name }),
        step_after_name(name, Some(Ok(()))) == (ImportStepView::Done { name }),
        step_after_name(name, Some(Err(failure))) == ImportStepView::Choose,
        step_after_link(name, Linking::Linked, Ok(())) == Ok::<ImportStepView, ErrorView>(
            ImportStepView::Done { name },
        ),
        step_after_link(name, Linking::Linked, Err(failure)) == Err::<ImportStepView, ErrorView>(
            failure,
        ),
        step_after_link(name, Linking::Occupied, Ok(())) == Ok::<ImportStepView, ErrorView>(
            ImportStepView::Done { name },
        ),
        step_after_link(name, Linking::Occupied, Err(failure)) == Ok::<ImportStepView, ErrorView>(
            ImportStepView::Choose,
        ),
        step_after_link(name, Linking::Failed { detail }, Ok(())) is Err,
{
}

} // verus!
