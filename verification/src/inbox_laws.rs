//! What a scan of the inbox promises: which item every file and every registered Asset comes
//! to, what is to be done first, and what a report may leave out.

use crate::catalog::{catalog_item, CatalogBlocker, CatalogEvidence, SourceObservation};
use crate::digest::sha256_hex;
use crate::error::ErrorView;
use crate::fingerprint::{asset_id_of, content_fingerprint};
use crate::inbox::{
    asset_at, asset_with_id, count_in_state, documents_to_read, first_blocked, found_item,
    found_items, inbox_items, inbox_warnings, is_inbox_report, item_data, locked_asset,
    main_obstacle, mentions, missing_item, missing_items, most_urgent, observation_of,
    reported_warning, saturated_sum, source_document, source_of, was_found, FlatEntry,
    InboxEvidenceView, InboxScanResultView, SourceDocumentView,
};
use crate::catalog::{CatalogItem, CatalogItemView};
use crate::canonical_source::source_check;
use crate::json_v1::{DiagnosticDataView, NextAction, UserState};
use crate::model::{AssetRecordView, AssetStatus, FingerprintView, SourceRecordView, SourceStatus};
use crate::order::{sorting_keeps_items, sorting_orders, Ranked};
use crate::pdf::{pages_check, text_bytes};
use crate::provider_scan::{ProviderPdfView, ProviderScanWarningView, ScanLimits};
use crate::text::{is_lower_hex, text_at_most};
use vstd::prelude::*;
use vstd::utf8::encode_utf8;

verus! {

/// An item without a blocker stands where its Asset stands and calls for the step that comes
/// next: a new PDF is to be added, a registered one prepared, an extracted one drafted, one
/// that awaits review reviewed, and a processed one needs nothing. A missing file is to be
/// hydrated, a failed Asset tried again, and one that changed or was superseded repaired.
pub proof fn every_state_calls_for_its_step(
    locator: Seq<char>,
    asset_id: Option<Seq<char>>,
    source: SourceObservation,
    status: Option<AssetStatus>,
)
    ensures
        ({
            let item = catalog_item(
                locator,
                asset_id,
                CatalogEvidence { asset_status: status, source, blocker: CatalogBlocker::Nothing },
            );
            let pending = source == SourceObservation::ReviewPending;
            let approved = source == SourceObservation::Approved;
            &&& item.provider_locator == locator
            &&& item.asset_id == asset_id
            &&& status is None ==> item.user_state == UserState::New && item.next_action
                == NextAction::Add
            &&& status == Some(AssetStatus::Registered) ==> item.user_state
                == UserState::Registered && item.next_action == NextAction::Prepare
            &&& status == Some(AssetStatus::Extracted) ==> item.user_state
                == UserState::Incomplete && item.next_action == NextAction::WriteDraft
            &&& status == Some(AssetStatus::ReviewPending) && pending ==> item.user_state
                == UserState::ReviewPending && item.next_action == NextAction::Review
            &&& status == Some(AssetStatus::ReviewPending) && !pending ==> item.user_state
                == UserState::Blocked && item.next_action == NextAction::Repair
            &&& status == Some(AssetStatus::Processed) && approved ==> item.user_state
                == UserState::Processed && item.next_action == NextAction::Nothing
            &&& status == Some(AssetStatus::Processed) && !approved ==> item.user_state
                == UserState::Blocked && item.next_action == NextAction::Repair
            &&& status == Some(AssetStatus::Missing) ==> item.user_state == UserState::Blocked
                && item.next_action == NextAction::Hydrate && item.diagnostic->0.code
                == "provider_missing"@
            &&& status == Some(AssetStatus::Failed) ==> item.user_state == UserState::Blocked
                && item.next_action == NextAction::Retry && item.diagnostic->0.code
                == "asset_failed"@
            &&& status == Some(AssetStatus::Changed) || status == Some(AssetStatus::Superseded)
                ==> item.user_state == UserState::Blocked && item.next_action == NextAction::Repair
                && item.diagnostic->0.code == "registry_provider_mismatch"@
        }),
{
}

/// A blocker decides by itself what is to be done: a missing file is hydrated, a changed one
/// and a state that its Source denies are repaired, and a locked one is tried again.
pub proof fn every_blocker_calls_for_its_step(
    locator: Seq<char>,
    asset_id: Option<Seq<char>>,
    source: SourceObservation,
    status: Option<AssetStatus>,
    blocker: CatalogBlocker,
)
    requires
        blocker != CatalogBlocker::Nothing,
    ensures
        ({
            let item = catalog_item(
                locator,
                asset_id,
                CatalogEvidence { asset_status: status, source, blocker },
            );
            &&& item.provider_locator == locator
            &&& item.asset_id == asset_id
            &&& item.user_state == UserState::Blocked
            &&& item.diagnostic is Some
            &&& item.diagnostic->0.path == Some(locator)
            &&& blocker == CatalogBlocker::ProviderMissing ==> item.next_action
                == NextAction::Hydrate && item.diagnostic->0.code == "provider_missing"@
            &&& blocker == CatalogBlocker::ProviderChanged ==> item.next_action
                == NextAction::Repair && item.diagnostic->0.code == "registry_provider_mismatch"@
            &&& blocker == CatalogBlocker::ActiveLock ==> item.next_action == NextAction::Retry
                && item.diagnostic->0.code == "lock_active"@
            &&& blocker == CatalogBlocker::StateMismatch ==> item.next_action
                == NextAction::Repair && item.diagnostic->0.code == "source_state_mismatch"@
        }),
{
}

proof fn no_asset_at(assets: Seq<AssetRecordView>, locator: Seq<char>)
    requires
        forall|j: int|
            0 <= j < assets.len() ==> (#[trigger] assets[j]).provider.locator != locator,
    ensures
        asset_at(assets, locator) is None,
    decreases assets.len(),
{
    if assets.len() > 0 {
        assert(assets[assets.len() - 1].provider.locator != locator);
        let front = assets.drop_last();
        assert forall|j: int| 0 <= j < front.len() implies (#[trigger] front[j]).provider.locator
            != locator by {
            assert(front[j] == assets[j]);
        }
        no_asset_at(front, locator);
    }
}

proof fn the_only_asset_at(assets: Seq<AssetRecordView>, a: int)
    requires
        0 <= a < assets.len(),
        forall|j: int|
            0 <= j < assets.len() && j != a ==> (#[trigger] assets[j]).provider.locator
                != assets[a].provider.locator,
    ensures
        asset_at(assets, assets[a].provider.locator) == Some(assets[a]),
    decreases assets.len(),
{
    if a < assets.len() - 1 {
        assert(assets[assets.len() - 1].provider.locator != assets[a].provider.locator);
        let front = assets.drop_last();
        assert forall|j: int| 0 <= j < front.len() && j != a implies (
        #[trigger] front[j]).provider.locator != front[a].provider.locator by {
            assert(front[j] == assets[j]);
        }
        the_only_asset_at(front, a);
    }
}

/// A PDF at a place where nothing is registered is new, whatever else is registered.
pub proof fn unregistered_pdfs_are_new(
    pdf: ProviderPdfView,
    assets: Seq<AssetRecordView>,
    sources: Seq<SourceDocumentView>,
    locked_ids: Seq<Seq<char>>,
)
    requires
        forall|j: int|
            0 <= j < assets.len() ==> (#[trigger] assets[j]).provider.locator
                != pdf.provider_locator,
    ensures
        ({
            let item = found_item(pdf, assets, sources, locked_ids);
            &&& item.provider_locator == pdf.provider_locator
            &&& item.user_state == UserState::New
            &&& item.next_action == NextAction::Add
            &&& item.asset_id is None
            &&& item.diagnostic is None
        }),
{
    no_asset_at(assets, pdf.provider_locator);
}

/// A PDF at the place of a registered Asset belongs to it. While the Asset is locked it waits;
/// otherwise a file with another size or fingerprint is to be repaired, and one that agrees
/// stands where the Asset and its Source stand.
pub proof fn registered_pdfs_are_held_to_their_asset(
    pdf: ProviderPdfView,
    assets: Seq<AssetRecordView>,
    sources: Seq<SourceDocumentView>,
    locked_ids: Seq<Seq<char>>,
    a: int,
)
    requires
        0 <= a < assets.len(),
        assets[a].provider.locator == pdf.provider_locator,
        forall|j: int|
            0 <= j < assets.len() && j != a ==> (#[trigger] assets[j]).provider.locator
                != pdf.provider_locator,
    ensures
        ({
            let asset = assets[a];
            let item = found_item(pdf, assets, sources, locked_ids);
            let same = pdf.size_bytes == asset.size_bytes && pdf.fingerprint == asset.fingerprint;
            let source = source_of(asset.id, sources);
            &&& item.provider_locator == pdf.provider_locator
            &&& item.asset_id == Some(asset.id)
            &&& locked_ids.contains(asset.id) ==> item.user_state == UserState::Blocked
                && item.next_action == NextAction::Retry
            &&& !locked_ids.contains(asset.id) && !same ==> item.user_state == UserState::Blocked
                && item.next_action == NextAction::Repair && item.diagnostic->0.code
                == "registry_provider_mismatch"@
            &&& !locked_ids.contains(asset.id) && same && asset.asset_status
                == AssetStatus::Registered && source == SourceObservation::Absent
                ==> item.user_state == UserState::Registered && item.next_action
                == NextAction::Prepare
            &&& !locked_ids.contains(asset.id) && same && asset.asset_status
                == AssetStatus::Extracted && source == SourceObservation::Absent ==> item.user_state
                == UserState::Incomplete && item.next_action == NextAction::WriteDraft
            &&& !locked_ids.contains(asset.id) && same && asset.asset_status
                == AssetStatus::ReviewPending && source == SourceObservation::ReviewPending
                ==> item.user_state == UserState::ReviewPending && item.next_action
                == NextAction::Review
            &&& !locked_ids.contains(asset.id) && same && asset.asset_status
                == AssetStatus::Processed && source == SourceObservation::Approved
                ==> item.user_state == UserState::Processed && item.next_action
                == NextAction::Nothing
            &&& !locked_ids.contains(asset.id) && same && (asset.asset_status
                == AssetStatus::Registered || asset.asset_status == AssetStatus::Extracted)
                && source != SourceObservation::Absent ==> item.user_state == UserState::Blocked
                && item.next_action == NextAction::Repair
        }),
{
    the_only_asset_at(assets, a);
    if crate::inbox::lists(locked_ids, assets[a].id) {
        let i = choose|i: int| 0 <= i < locked_ids.len() && #[trigger] locked_ids[i] == assets[a].id;
        assert(locked_ids.contains(assets[a].id));
    }
}

/// The Source of an Asset is the only one that relates to it: where none does it is absent,
/// and where two do it is invalid.
pub proof fn rival_sources_are_invalid(
    asset_id: Seq<char>,
    sources: Seq<SourceDocumentView>,
    i: int,
    j: int,
)
    requires
        0 <= i < j < sources.len(),
        sources[i].asset_id == asset_id,
        sources[j].asset_id == asset_id,
    ensures
        source_of(asset_id, sources) == SourceObservation::Invalid,
    decreases sources.len(),
{
    let front = sources.drop_last();
    if sources.last().asset_id != asset_id {
        assert(front[i] == sources[i] && front[j] == sources[j]);
        rival_sources_are_invalid(asset_id, front, i, j);
    } else {
        assert(front[i].asset_id == asset_id);
        assert(mentions(asset_id, front));
    }
}

/// Where exactly one Source relates to an Asset it tells how the Asset stands, and where none
/// does nothing is known.
pub proof fn the_only_source_tells(asset_id: Seq<char>, sources: Seq<SourceDocumentView>, i: int)
    requires
        forall|j: int|
            0 <= j < sources.len() && j != i ==> (#[trigger] sources[j]).asset_id != asset_id,
    ensures
        0 <= i < sources.len() && sources[i].asset_id == asset_id ==> source_of(asset_id, sources)
            == sources[i].observation,
        !(0 <= i < sources.len()) || sources[i].asset_id != asset_id ==> source_of(
            asset_id,
            sources,
        ) == SourceObservation::Absent,
    decreases sources.len(),
{
    if sources.len() > 0 {
        let front = sources.drop_last();
        let last = sources.len() - 1;
        assert(sources[last] == sources.last());
        if sources.last().asset_id != asset_id {
            assert forall|j: int| 0 <= j < front.len() && j != i implies (
            #[trigger] front[j]).asset_id != asset_id by {
                assert(front[j] == sources[j]);
            }
            the_only_source_tells(asset_id, front, i);
            if 0 <= i < front.len() {
                assert(front[i] == sources[i]);
            }
        } else {
            assert(i == last);
            if mentions(asset_id, front) {
                let j = choose|j: int| 0 <= j < front.len() && (#[trigger] front[j]).asset_id == asset_id;
                assert(sources[j] == front[j]);
            }
        }
    }
}

proof fn unfound_assets_are_missing(evidence: InboxEvidenceView, n: int, a: int)
    requires
        0 <= a < n <= evidence.assets.len(),
        !was_found(evidence.assets[a].id, evidence.pdfs, evidence.assets),
    ensures
        missing_items(evidence, n).contains(missing_item(evidence.assets[a], evidence.sources)),
    decreases n,
{
    let all = missing_items(evidence, n);
    let before = missing_items(evidence, n - 1);
    let wanted = missing_item(evidence.assets[a], evidence.sources);
    if a < n - 1 {
        unfound_assets_are_missing(evidence, n - 1, a);
        let k = choose|k: int| 0 <= k < before.len() && before[k] == wanted;
        assert(all[k] == wanted);
    } else {
        assert(all.last() == wanted);
    }
}

/// A scan lists every PDF of the inbox, and every registered Asset whose file it did not find:
/// as one that is to be hydrated, under the place that it was registered at. The list is
/// ordered by place.
pub proof fn scans_list_every_file_and_asset(evidence: InboxEvidenceView, p: int, a: int)
    requires
        0 <= p < evidence.pdfs.len(),
        0 <= a < evidence.assets.len(),
    ensures
        inbox_items(evidence).contains(
            found_item(
                evidence.pdfs[p],
                evidence.assets,
                evidence.sources,
                evidence.locked_ids,
            ),
        ),
        inbox_items(evidence).len() >= evidence.pdfs.len(),
        (forall|i: int|
            0 <= i < evidence.pdfs.len() ==> (#[trigger] evidence.pdfs[i]).provider_locator
                != evidence.assets[a].provider.locator) && (forall|i: int, j: int|
            0 <= i < j < evidence.assets.len() ==> (#[trigger] evidence.assets[i]).id != (
            #[trigger] evidence.assets[j]).id) ==> exists|k: int|
            0 <= k < inbox_items(evidence).len() && (#[trigger] inbox_items(
                evidence,
            )[k]).provider_locator == evidence.assets[a].provider.locator && inbox_items(
                evidence,
            )[k].asset_id == Some(evidence.assets[a].id) && inbox_items(evidence)[k].user_state
                == UserState::Blocked && inbox_items(evidence)[k].next_action
                == NextAction::Hydrate,
        forall|j: int, k: int|
            0 <= j < k < inbox_items(evidence).len() ==> text_at_most(
                (#[trigger] inbox_items(evidence)[j]).provider_locator,
                (#[trigger] inbox_items(evidence)[k]).provider_locator,
            ),
{
    broadcast use vstd::seq_lib::group_to_multiset_ensures;

    let found = found_items(evidence);
    let n = evidence.assets.len() as int;
    let missing = missing_items(evidence, n);
    let all = found + missing;
    let items = inbox_items(evidence);
    sorting_keeps_items::<CatalogItem>(all);
    sorting_orders::<CatalogItem>(all);
    assert(all[p] == found[p]);
    assert(all.contains(found[p]));
    assert(all.to_multiset().count(found[p]) > 0);
    assert(items.contains(found[p]));
    assert forall|j: int, k: int| 0 <= j < k < items.len() implies text_at_most(
        (#[trigger] items[j]).provider_locator,
        (#[trigger] items[k]).provider_locator,
    ) by {
        assert(<CatalogItem as Ranked>::leq(items[j], items[k]));
    }
    if (forall|i: int|
        0 <= i < evidence.pdfs.len() ==> (#[trigger] evidence.pdfs[i]).provider_locator
            != evidence.assets[a].provider.locator) && (forall|i: int, j: int|
        0 <= i < j < n ==> (#[trigger] evidence.assets[i]).id != (
        #[trigger] evidence.assets[j]).id) {
        let id = evidence.assets[a].id;
        if was_found(id, evidence.pdfs, evidence.assets) {
            let i = choose|i: int|
                0 <= i < evidence.pdfs.len() && asset_at(
                    evidence.assets,
                    (#[trigger] evidence.pdfs[i]).provider_locator,
                ) is Some && asset_at(evidence.assets, evidence.pdfs[i].provider_locator)->0.id
                    == id;
            let at = asset_found_stands_there(evidence.assets, evidence.pdfs[i].provider_locator);
            if at != a {
                if at < a {
                    assert(evidence.assets[at].id != evidence.assets[a].id);
                } else {
                    assert(evidence.assets[a].id != evidence.assets[at].id);
                }
            }
        }
        unfound_assets_are_missing(evidence, n, a);
        let wanted = missing_item(evidence.assets[a], evidence.sources);
        let k = choose|k: int| 0 <= k < missing.len() && missing[k] == wanted;
        assert(all[found.len() + k] == wanted);
        assert(all.contains(wanted));
        assert(all.to_multiset().count(wanted) > 0);
        assert(items.contains(wanted));
        let m = choose|m: int| 0 <= m < items.len() && items[m] == wanted;
        assert(items[m].provider_locator == evidence.assets[a].provider.locator);
    }
}

proof fn asset_found_stands_there(assets: Seq<AssetRecordView>, locator: Seq<char>) -> (at: int)
    requires
        asset_at(assets, locator) is Some,
    ensures
        0 <= at < assets.len(),
        assets[at] == asset_at(assets, locator)->0,
        assets[at].provider.locator == locator,
    decreases assets.len(),
{
    if assets.last().provider.locator == locator {
        assets.len() - 1
    } else {
        asset_found_stands_there(assets.drop_last(), locator)
    }
}

/// A report shows as many items as the limit allows, from the front of the list, and tells
/// how many it leaves out. It covers the inbox only where the scan, the registry and the
/// Sources were read whole and nothing is left out. Its counts are over all items, shown or
/// not.
pub proof fn reports_show_the_front(
    report: InboxScanResultView,
    evidence: InboxEvidenceView,
    limits: ScanLimits,
    k: int,
)
    requires
        is_inbox_report(report, evidence, limits),
        0 <= k < report.items.len(),
    ensures
        report.items[k] == inbox_items(evidence)[k],
        report.items.len() == (if inbox_items(evidence).len() <= limits.max_batch_items {
            inbox_items(evidence).len() as int
        } else {
            limits.max_batch_items as int
        }),
        report.items.len() + report.remaining == inbox_items(evidence).len(),
        report.scan_complete <==> evidence.scan_complete && evidence.assets_complete
            && evidence.sources_complete && report.remaining == 0,
        report.scan_limits == limits,
        report.state_counts.fresh == count_in_state(inbox_items(evidence), UserState::New),
        report.state_counts.registered == count_in_state(
            inbox_items(evidence),
            UserState::Registered,
        ),
        report.state_counts.incomplete == count_in_state(
            inbox_items(evidence),
            UserState::Incomplete,
        ),
        report.state_counts.review_pending == count_in_state(
            inbox_items(evidence),
            UserState::ReviewPending,
        ),
        report.state_counts.processed == count_in_state(
            inbox_items(evidence),
            UserState::Processed,
        ),
        report.state_counts.blocked == count_in_state(inbox_items(evidence), UserState::Blocked),
{
}

/// An item counts in its own state and in no other.
pub proof fn items_count_in_their_state(
    items: Seq<CatalogItemView>,
    item: CatalogItemView,
    state: UserState,
)
    ensures
        item.user_state == state ==> count_in_state(items.push(item), state) == count_in_state(
            items,
            state,
        ) + 1,
        item.user_state != state ==> count_in_state(items.push(item), state) == count_in_state(
            items,
            state,
        ),
        count_in_state(Seq::<CatalogItemView>::empty(), state) == 0,
{
    assert(items.push(item).drop_last() == items);
}

/// What is recommended is called for by some item, and no item calls for anything more
/// urgent: configuring comes before repairing, hydrating, trying again, reviewing, drafting,
/// preparing and adding. Nothing is recommended exactly where no item calls for anything.
pub proof fn the_most_urgent_step_is_recommended(
    items: Seq<CatalogItemView>,
    k: int,
    ranked: Seq<NextAction>,
    j: int,
)
    requires
        0 <= k < items.len(),
        ranked == seq![
            NextAction::Configure,
            NextAction::Repair,
            NextAction::Hydrate,
            NextAction::Retry,
            NextAction::Review,
            NextAction::WriteDraft,
            NextAction::Prepare,
            NextAction::Add,
            NextAction::Nothing,
        ],
        0 <= j < 9,
        most_urgent(items) == ranked[j],
    ensures
        exists|i: int| 0 <= i < items.len() && (#[trigger] items[i]).next_action == ranked[j],
        forall|h: int| 0 <= h < j ==> items[k].next_action != #[trigger] ranked[h],
{
    assert(items[k].next_action == items[k].next_action);
}

/// A warning of the scan is told under its own place; one about a limit says that a limit was
/// reached, and which.
pub proof fn limits_are_told(warning: ProviderScanWarningView)
    ensures
        reported_warning(warning).path == warning.provider_locator,
        "scan_"@.is_prefix_of(warning.code) && "_limit"@.is_suffix_of(warning.code)
            ==> reported_warning(warning).code == "scan_limit_reached"@,
        !("scan_"@.is_prefix_of(warning.code) && "_limit"@.is_suffix_of(warning.code))
            ==> reported_warning(warning).code == warning.code,
        warning.code == "scan_time_limit"@ ==> reported_warning(warning).message
            == "The inbox scan reached its time limit."@,
        warning.code != "scan_time_limit"@ && warning.code != "scan_entry_limit"@ && warning.code
            != "scan_byte_limit"@ && warning.code != "scan_depth_limit"@ ==> reported_warning(
            warning,
        ).message == warning.message,
{
}

/// Every warning of the scan is told, and so are a catalog that was not read whole and items
/// that are not shown.
pub proof fn warnings_are_told(evidence: InboxEvidenceView, limits: ScanLimits, w: int)
    requires
        0 <= w < evidence.scan_warnings.len(),
    ensures
        inbox_warnings(evidence, limits)[w] == reported_warning(evidence.scan_warnings[w]),
        inbox_warnings(evidence, limits).len() >= evidence.scan_warnings.len(),
        !evidence.assets_complete || !evidence.sources_complete ==> inbox_warnings(
            evidence,
            limits,
        )[evidence.scan_warnings.len() as int].code == "repository_scan_limit_reached"@,
        inbox_items(evidence).len() > limits.max_batch_items ==> inbox_warnings(
            evidence,
            limits,
        ).last().code == "actionable_limit_reached"@,
        evidence.assets_complete && evidence.sources_complete && inbox_items(evidence).len()
            <= limits.max_batch_items ==> inbox_warnings(evidence, limits).len()
            == evidence.scan_warnings.len(),
{
}

proof fn the_first_blocked(items: Seq<CatalogItemView>, k: int)
    requires
        0 <= k < items.len(),
        items[k].user_state == UserState::Blocked,
        forall|j: int| 0 <= j < k ==> (#[trigger] items[j]).user_state != UserState::Blocked,
    ensures
        first_blocked(items) == Some(items[k]),
    decreases k,
{
    if k > 0 {
        assert(items[0].user_state != UserState::Blocked);
        let rest = items.drop_first();
        assert forall|j: int| 0 <= j < k - 1 implies (#[trigger] rest[j]).user_state
            != UserState::Blocked by {
            assert(rest[j] == items[j + 1]);
        }
        the_first_blocked(rest, k - 1);
    }
}

/// What stands in the way first is an error, and where there is none the first item that is
/// blocked.
pub proof fn errors_stand_in_the_way_first(
    errors: Seq<DiagnosticDataView>,
    items: Seq<CatalogItemView>,
    k: int,
)
    requires
        0 <= k < items.len(),
        items[k].user_state == UserState::Blocked,
        forall|j: int| 0 <= j < k ==> (#[trigger] items[j]).user_state != UserState::Blocked,
    ensures
        errors.len() > 0 ==> main_obstacle(errors, items) == Some(errors[0]),
        errors.len() == 0 ==> main_obstacle(errors, items) == items[k].diagnostic,
{
    the_first_blocked(items, k);
}

/// A Source counts only where it passes every check and is pending or approved; one that was
/// rejected, is stale or is archived does not.
pub proof fn only_sound_sources_count(status: SourceStatus)
    ensures
        observation_of(false, status) == SourceObservation::Invalid,
        observation_of(true, SourceStatus::ReviewPending) == SourceObservation::ReviewPending,
        observation_of(true, SourceStatus::Approved) == SourceObservation::Approved,
        observation_of(true, SourceStatus::Rejected) == SourceObservation::Invalid,
        observation_of(true, SourceStatus::Stale) == SourceObservation::Invalid,
        observation_of(true, SourceStatus::Archived) == SourceObservation::Invalid,
{
}

/// A Source is read for the first Asset that it relates to, which must be registered.
pub proof fn sources_are_read_for_their_asset(
    name: Seq<char>,
    source: SourceRecordView,
    body: Seq<char>,
    assets: Seq<AssetRecordView>,
    revision: Result<Seq<char>, ErrorView>,
)
    ensures
        source_document(name, source, body, assets, revision) matches Ok(document) ==> {
            &&& source.relations.asset_ids.len() > 0
            &&& document.asset_id == source.relations.asset_ids[0]
            &&& asset_with_id(assets, document.asset_id) is Some
            &&& document.observation == SourceObservation::Approved ==> source.status
                == SourceStatus::Approved && source_check(
                "sources/"@ + name,
                source,
                body,
                asset_with_id(assets, document.asset_id)->0,
                revision,
            ) is Ok
        },
        source.relations.asset_ids.len() == 0 ==> source_document(
            name,
            source,
            body,
            assets,
            revision,
        ) is Err,
{
}

/// What is read of a directory are its Markdown files, each of them regular; where the
/// reading covers the directory none of them is left out, and fewer than the limit were
/// looked at.
pub proof fn documents_that_are_read(
    entries: Seq<FlatEntry>,
    limits: ScanLimits,
    i: int,
    total: u64,
    e: int,
)
    requires
        0 <= i <= e < entries.len(),
        documents_to_read(entries, limits, i, total) is Ok,
        documents_to_read(entries, limits, i, total)->Ok_0.1,
        entries[e].regular_file,
        entries[e].markdown,
    ensures
        entries[e].name is Some,
        documents_to_read(entries, limits, i, total)->Ok_0.0.contains(entries[e].name->0@),
        e < limits.max_entries,
    decreases entries.len() - i,
{
    let next = saturated_sum(total, entries[i].size_bytes);
    if !entries[i].regular_file || !entries[i].markdown {
        documents_that_are_read(entries, limits, i + 1, total, e);
    } else {
        let rest = documents_to_read(entries, limits, i + 1, next)->Ok_0.0;
        let all = documents_to_read(entries, limits, i, total)->Ok_0.0;
        if e == i {
            assert(all[0] == entries[e].name->0@);
        } else {
            documents_that_are_read(entries, limits, i + 1, next, e);
            let k = choose|k: int| 0 <= k < rest.len() && rest[k] == entries[e].name->0@;
            assert(all[k + 1] == entries[e].name->0@);
        }
    }
}

/// A lock names the Asset that it is for.
pub proof fn locks_name_their_asset(id: Seq<char>)
    ensures
        locked_asset(id + ".lock"@) == Some(id),
        !".lock"@.is_suffix_of(id + ".lock.takeover"@) ==> locked_asset(id + ".lock.takeover"@)
            == Some(id),
{
    let name = id + ".lock"@;
    assert(".lock"@.is_suffix_of(name));
    assert(name.take(name.len() - ".lock"@.len()) =~= id);
    let taken = id + ".lock.takeover"@;
    assert(".lock.takeover"@.is_suffix_of(taken));
    assert(taken.take(taken.len() - ".lock.takeover"@.len()) =~= id);
}

/// An item is told with its place, its state, its Asset and its next step.
pub proof fn items_are_told_as_they_are(item: CatalogItemView)
    ensures
        item_data(item).provider_locator == item.provider_locator,
        item_data(item).user_state == item.user_state,
        item_data(item).asset_id == item.asset_id,
        item_data(item).next_action == item.next_action,
{
}

/// Extracted pages are within the limits exactly where there are at most a thousand of them,
/// with at most 20 MiB of text; the text of pages is that of the pages one by one.
pub proof fn pages_are_within_the_limits(pages: Seq<Seq<char>>, page: Seq<char>)
    ensures
        pages_check(pages) is Ok <==> pages.len() <= 1_000 && text_bytes(pages) <= 20_971_520,
        text_bytes(pages.push(page)) == text_bytes(pages) + encode_utf8(page).len(),
        text_bytes(Seq::<Seq<char>>::empty()) == 0,
        pages.len() > 1_000 ==> pages_check(pages)->Err_0.code == "page_limit_exceeded"@,
        pages.len() <= 1_000 && text_bytes(pages) > 20_971_520 ==> pages_check(pages)->Err_0.code
            == "extracted_text_too_large"@,
{
    assert(pages.push(page).drop_last() == pages);
}

/// The ID of an Asset tells the hash of its content, in whole.
pub proof fn asset_ids_tell_the_hash(hash: Seq<char>, content: Seq<u8>)
    ensures
        is_lower_hex(hash, 64) ==> asset_id_of(
            FingerprintView { method: "sha256"@, value: "sha256:"@ + hash },
        ) == Ok::<Seq<char>, ErrorView>("personal-asset-"@ + hash),
        !is_lower_hex(hash, 64) ==> asset_id_of(
            FingerprintView { method: "sha256"@, value: "sha256:"@ + hash },
        ) is Err,
        content_fingerprint(content).method == "sha256"@,
        content_fingerprint(content).value == "sha256:"@ + sha256_hex(content),
{
    let value = "sha256:"@ + hash;
    assert("sha256:"@.is_prefix_of(value));
    assert(value.skip("sha256:"@.len() as int) =~= hash);
}

} // verus!
