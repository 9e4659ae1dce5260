//! The inbox as a whole: every item with its state, and what to do first.

use crate::canonical_source::{source_check, validate_canonical_source};
use crate::catalog::{
    catalog_item, classify_catalog_item, CatalogBlocker, CatalogEvidence, CatalogItem,
    CatalogItemView, SourceObservation,
};
use crate::error::{error, outcome, ErrorView, MkoError};
use crate::fingerprint::same_fingerprint;
use crate::json_v1::{
    DiagnosticData, DiagnosticDataView, InboxData, InboxDataView, InboxItemData, InboxItemDataView,
    NextAction, ScanLimitsData, StateCounts, UserState,
};
use crate::model::{
    AssetRecord, AssetRecordView, AssetStatus, SourceRecord, SourceRecordView, SourceStatus,
};
use crate::order::{
    lists_text, dedup, option_at_most, option_not_after, option_total, option_transitive,
    remove_repeats, sort, stable_sort, text_total, text_transitive, Comparable, Ranked,
};
use crate::provider_scan::{
    ProviderPdf, ProviderPdfView, ProviderScanWarning, ProviderScanWarningView, ScanLimits,
};
use crate::text::{
    before_suffix, cat2, cat4, copy_option, decimal, decimal_digits, ends_with, not_after, same,
    same_option, starts_with, strip_suffix, text_at_most, text_order_is_antisymmetric,
};
use vstd::prelude::*;

verus! {

/// What to scan, and within which bounds.
#[derive(Clone, Debug, PartialEq, Eq)]
pub struct InboxScanRequest {
    repository_root: String,
    provider_root: String,
    limits: ScanLimits,
}

#[verifier::ext_equal]
pub struct InboxScanRequestView {
    pub repository_root: Seq<char>,
    pub provider_root: Seq<char>,
    pub limits: ScanLimits,
}

impl DeepView for InboxScanRequest {
    type V = InboxScanRequestView;

    closed spec fn deep_view(&self) -> InboxScanRequestView {
        InboxScanRequestView {
            repository_root: self.repository_root@,
            provider_root: self.provider_root@,
            limits: self.limits,
        }
    }
}

impl InboxScanRequest {
    pub fn new(repository_root: &str, provider_root: &str, limits: ScanLimits) -> (request: Self)
        ensures
            request.deep_view() == (InboxScanRequestView {
                repository_root: repository_root@,
                provider_root: provider_root@,
                limits,
            }),
    {
        InboxScanRequest {
            repository_root: repository_root.to_owned(),
            provider_root: provider_root.to_owned(),
            limits,
        }
    }

    pub fn with_limits(self, limits: ScanLimits) -> (request: Self)
        ensures
            request.deep_view() == (InboxScanRequestView { limits, ..self.deep_view() }),
    {
        InboxScanRequest {
            repository_root: self.repository_root,
            provider_root: self.provider_root,
            limits,
        }
    }

    pub fn limits(&self) -> (limits: ScanLimits)
        ensures
            limits == self.deep_view().limits,
    {
        self.limits
    }

    pub fn repository_root(&self) -> (path: &str)
        ensures
            path@ == self.deep_view().repository_root,
    {
        self.repository_root.as_str()
    }

    pub fn provider_root(&self) -> (path: &str)
        ensures
            path@ == self.deep_view().provider_root,
    {
        self.provider_root.as_str()
    }
}

/// The inbox as a person sees it.
#[derive(Clone, Debug, PartialEq, Eq)]
pub struct InboxScanResult {
    pub scan_complete: bool,
    pub scan_limits: ScanLimits,
    pub items: Vec<CatalogItem>,
    pub errors: Vec<DiagnosticData>,
    pub warnings: Vec<DiagnosticData>,
    pub remaining: u64,
    pub state_counts: StateCounts,
    pub primary_blocker: Option<DiagnosticData>,
    pub recommended_action: NextAction,
}

#[verifier::ext_equal]
pub struct InboxScanResultView {
    pub scan_complete: bool,
    pub scan_limits: ScanLimits,
    pub items: Seq<CatalogItemView>,
    pub errors: Seq<DiagnosticDataView>,
    pub warnings: Seq<DiagnosticDataView>,
    pub remaining: u64,
    pub state_counts: StateCounts,
    pub primary_blocker: Option<DiagnosticDataView>,
    pub recommended_action: NextAction,
}

impl DeepView for InboxScanResult {
    type V = InboxScanResultView;

    open spec fn deep_view(&self) -> InboxScanResultView {
        InboxScanResultView {
            scan_complete: self.scan_complete,
            scan_limits: self.scan_limits,
            items: self.items.deep_view(),
            errors: self.errors.deep_view(),
            warnings: self.warnings.deep_view(),
            remaining: self.remaining,
            state_counts: self.state_counts,
            primary_blocker: self.primary_blocker.deep_view(),
            recommended_action: self.recommended_action,
        }
    }
}

/// A Source document of the repository: the Asset it is about, and what it is worth.
#[derive(Clone, Debug, PartialEq, Eq)]
pub struct SourceDocument {
    pub asset_id: String,
    pub observation: SourceObservation,
}

#[verifier::ext_equal]
pub struct SourceDocumentView {
    pub asset_id: Seq<char>,
    pub observation: SourceObservation,
}

impl DeepView for SourceDocument {
    type V = SourceDocumentView;

    open spec fn deep_view(&self) -> SourceDocumentView {
        SourceDocumentView {
            asset_id: self.asset_id@,
            observation: self.observation,
        }
    }
}

/// All that was read of the provider and the repository.
#[derive(Clone, Debug, PartialEq, Eq)]
pub struct InboxEvidence {
    pub scan_complete: bool,
    pub scan_warnings: Vec<ProviderScanWarning>,
    pub pdfs: Vec<ProviderPdf>,
    pub assets: Vec<AssetRecord>,
    pub asset_errors: Vec<DiagnosticData>,
    pub assets_complete: bool,
    pub sources: Vec<SourceDocument>,
    pub source_errors: Vec<DiagnosticData>,
    pub sources_complete: bool,
    pub locked_ids: Vec<String>,
}

#[verifier::ext_equal]
pub struct InboxEvidenceView {
    pub scan_complete: bool,
    pub scan_warnings: Seq<ProviderScanWarningView>,
    pub pdfs: Seq<ProviderPdfView>,
    pub assets: Seq<AssetRecordView>,
    pub asset_errors: Seq<DiagnosticDataView>,
    pub assets_complete: bool,
    pub sources: Seq<SourceDocumentView>,
    pub source_errors: Seq<DiagnosticDataView>,
    pub sources_complete: bool,
    pub locked_ids: Seq<Seq<char>>,
}

impl DeepView for InboxEvidence {
    type V = InboxEvidenceView;

    open spec fn deep_view(&self) -> InboxEvidenceView {
        InboxEvidenceView {
            scan_complete: self.scan_complete,
            scan_warnings: self.scan_warnings.deep_view(),
            pdfs: self.pdfs.deep_view(),
            assets: self.assets.deep_view(),
            asset_errors: self.asset_errors.deep_view(),
            assets_complete: self.assets_complete,
            sources: self.sources.deep_view(),
            source_errors: self.source_errors.deep_view(),
            sources_complete: self.sources_complete,
            locked_ids: self.locked_ids.deep_view(),
        }
    }
}

impl Ranked for CatalogItem {
    open spec fn leq(left: CatalogItemView, right: CatalogItemView) -> bool {
        text_at_most(left.provider_locator, right.provider_locator)
    }

    proof fn leq_total(left: CatalogItemView, right: CatalogItemView) {
        text_total(left.provider_locator, right.provider_locator);
    }

    proof fn leq_transitive(a: CatalogItemView, b: CatalogItemView, c: CatalogItemView) {
        text_transitive(a.provider_locator, b.provider_locator, c.provider_locator);
    }

    fn ranks_at_most(&self, other: &Self) -> (result: bool) {
        not_after(self.provider_locator.as_str(), other.provider_locator.as_str())
    }
}

impl Ranked for DiagnosticData {
    /// By code, then by path.
    open spec fn leq(left: DiagnosticDataView, right: DiagnosticDataView) -> bool {
        if left.code != right.code {
            text_at_most(left.code, right.code)
        } else {
            option_at_most(left.path, right.path)
        }
    }

    proof fn leq_total(left: DiagnosticDataView, right: DiagnosticDataView) {
        text_total(left.code, right.code);
        option_total(left.path, right.path);
    }

    proof fn leq_transitive(a: DiagnosticDataView, b: DiagnosticDataView, c: DiagnosticDataView) {
        if a.code == b.code && b.code == c.code {
            option_transitive(a.path, b.path, c.path);
        } else if a.code != b.code && b.code != c.code {
            text_transitive(a.code, b.code, c.code);
            if a.code == c.code {
                text_order_is_antisymmetric(a.code, b.code);
            }
        }
    }

    fn ranks_at_most(&self, other: &Self) -> (result: bool) {
        if !same(self.code.as_str(), other.code.as_str()) {
            not_after(self.code.as_str(), other.code.as_str())
        } else {
            option_not_after(&self.path, &other.path)
        }
    }
}

impl Comparable for DiagnosticData {
    fn holds_same(&self, other: &Self) -> (result: bool) {
        same(self.code.as_str(), other.code.as_str()) && same(
            self.message.as_str(),
            other.message.as_str(),
        ) && same_option(&self.path, &other.path)
    }
}

/// What the Source documents say of an Asset: nothing, what the only one says, or
/// nothing that can be relied on where there are several.
pub open spec fn source_of(asset_id: Seq<char>, sources: Seq<SourceDocumentView>) -> SourceObservation
    decreases sources.len(),
{
    if sources.len() == 0 {
        SourceObservation::Absent
    } else if sources.last().asset_id != asset_id {
        source_of(asset_id, sources.drop_last())
    } else if mentions(asset_id, sources.drop_last()) {
        SourceObservation::Invalid
    } else {
        sources.last().observation
    }
}

/// Some Source document is about the Asset.
pub open spec fn mentions(asset_id: Seq<char>, sources: Seq<SourceDocumentView>) -> bool {
    exists|i: int| 0 <= i < sources.len() && (#[trigger] sources[i]).asset_id == asset_id
}

/// One error for each Source document about an Asset that an earlier one is about.
pub open spec fn duplicate_errors(sources: Seq<SourceDocumentView>) -> Seq<DiagnosticDataView>
    decreases sources.len(),
{
    if sources.len() == 0 {
        Seq::empty()
    } else {
        let before = duplicate_errors(sources.drop_last());
        let asset_id = sources.last().asset_id;
        if mentions(asset_id, sources.drop_last()) {
            before.push(
                DiagnosticDataView {
                    code: "duplicate_conflict"@,
                    message: "Multiple Source documents relate to the same Asset."@,
                    path: Some(asset_id),
                },
            )
        } else {
            before
        }
    }
}

/// Whether the Source agrees with the status of the Asset.
pub open spec fn source_agrees(status: AssetStatus, source: SourceObservation) -> bool {
    match status {
        AssetStatus::Registered => source == SourceObservation::Absent,
        AssetStatus::Extracted => source == SourceObservation::Absent,
        AssetStatus::ReviewPending => source == SourceObservation::ReviewPending,
        AssetStatus::Processed => source == SourceObservation::Approved,
        AssetStatus::Changed => true,
        AssetStatus::Missing => true,
        AssetStatus::Superseded => true,
        AssetStatus::Failed => true,
    }
}

/// What stands in the way of a registered item, the most urgent first.
pub open spec fn blocker(
    status: AssetStatus,
    source: SourceObservation,
    locked: bool,
    provider_matches: bool,
) -> CatalogBlocker {
    if locked {
        CatalogBlocker::ActiveLock
    } else if !provider_matches {
        CatalogBlocker::ProviderChanged
    } else if source_agrees(status, source) {
        CatalogBlocker::Nothing
    } else {
        CatalogBlocker::StateMismatch
    }
}

fn blocker_for(
    status: AssetStatus,
    source: SourceObservation,
    locked: bool,
    provider_matches: bool,
) -> (result: CatalogBlocker)
    ensures
        result == blocker(status, source, locked, provider_matches),
{
    if locked {
        return CatalogBlocker::ActiveLock;
    }
    if !provider_matches {
        return CatalogBlocker::ProviderChanged;
    }
    let matches = match status {
        AssetStatus::Registered | AssetStatus::Extracted => source == SourceObservation::Absent,
        AssetStatus::ReviewPending => source == SourceObservation::ReviewPending,
        AssetStatus::Processed => source == SourceObservation::Approved,
        AssetStatus::Changed
        | AssetStatus::Missing
        | AssetStatus::Superseded
        | AssetStatus::Failed => true,
    };
    if matches {
        CatalogBlocker::Nothing
    } else {
        CatalogBlocker::StateMismatch
    }
}

fn source_for(asset_id: &str, sources: &Vec<SourceDocument>) -> (result: SourceObservation)
    ensures
        result == source_of(asset_id@, sources.deep_view()),
{
    let ghost all = sources.deep_view();
    let mut result = SourceObservation::Absent;
    let mut mentioned = false;
    let mut i: usize = 0;
    while i < sources.len()
        invariant
            i <= sources.len(),
            all == sources.deep_view(),
            result == source_of(asset_id@, all.take(i as int)),
            mentioned == mentions(asset_id@, all.take(i as int)),
        decreases sources.len() - i,
    {
        assert(all.take(i + 1).drop_last() == all.take(i as int));
        assert(all.take(i + 1).last() == sources@[i as int].deep_view());
        assert forall|k: int| 0 <= k < i implies all.take(i as int)[k] == all.take(i + 1)[k] by {}
        if same(sources[i].asset_id.as_str(), asset_id) {
            result = if mentioned {
                SourceObservation::Invalid
            } else {
                sources[i].observation
            };
            mentioned = true;
            assert(all.take(i + 1)[i as int].asset_id == asset_id@);
        } else {
            proof {
                if mentioned {
                    let k = choose|k: int|
                        0 <= k < all.take(i as int).len() && (#[trigger] all.take(
                            i as int,
                        )[k]).asset_id == asset_id@;
                    assert(all.take(i + 1)[k].asset_id == asset_id@);
                }
            }
        }
        i += 1;
    }
    assert(all.take(i as int) == all);
    result
}

fn mentions_asset(asset_id: &str, sources: &Vec<SourceDocument>, end: usize) -> (found: bool)
    requires
        end <= sources.len(),
    ensures
        found == mentions(asset_id@, sources.deep_view().take(end as int)),
{
    let ghost all = sources.deep_view();
    let mut i: usize = 0;
    while i < end
        invariant
            i <= end <= sources.len(),
            all == sources.deep_view(),
            forall|k: int| 0 <= k < i ==> (#[trigger] all[k]).asset_id != asset_id@,
        decreases end - i,
    {
        if same(sources[i].asset_id.as_str(), asset_id) {
            assert(all.take(end as int)[i as int].asset_id == asset_id@);
            return true;
        }
        assert(all[i as int] == sources@[i as int].deep_view());
        i += 1;
    }
    assert forall|k: int| 0 <= k < end implies (#[trigger] all.take(end as int)[k]).asset_id
        != asset_id@ by {
        assert(all.take(end as int)[k] == all[k]);
    }
    false
}

fn find_duplicates(sources: &Vec<SourceDocument>, errors: &mut Vec<DiagnosticData>)
    ensures
        final(errors).deep_view() == old(errors).deep_view() + duplicate_errors(
            sources.deep_view(),
        ),
{
    let ghost all = sources.deep_view();
    let ghost start = errors.deep_view();
    let mut i: usize = 0;
    assert(start + duplicate_errors(all.take(0)) == start);
    while i < sources.len()
        invariant
            i <= sources.len(),
            all == sources.deep_view(),
            errors.deep_view() == start + duplicate_errors(all.take(i as int)),
        decreases sources.len() - i,
    {
        assert(all.take(i + 1).drop_last() == all.take(i as int));
        assert(all.take(i + 1).last() == sources@[i as int].deep_view());
        if mentions_asset(sources[i].asset_id.as_str(), sources, i) {
            let ghost before = errors.deep_view();
            let diagnostic = DiagnosticData {
                code: "duplicate_conflict".to_owned(),
                message: "Multiple Source documents relate to the same Asset.".to_owned(),
                path: Some(sources[i].asset_id.clone()),
            };
            errors.push(diagnostic);
            assert(errors.deep_view() == before.push(diagnostic.deep_view()));
            assert(errors.deep_view() == start + duplicate_errors(all.take(i + 1)));
        }
        i += 1;
    }
    assert(all.take(i as int) == all);
}

/// The Asset that is registered at a place of the inbox; of several, the last one.
pub open spec fn asset_at(assets: Seq<AssetRecordView>, locator: Seq<char>) -> Option<AssetRecordView>
    decreases assets.len(),
{
    if assets.len() == 0 {
        None
    } else if assets.last().provider.locator == locator {
        Some(assets.last())
    } else {
        asset_at(assets.drop_last(), locator)
    }
}

fn find_asset(assets: &Vec<AssetRecord>, locator: &str) -> (found: Option<usize>)
    ensures
        match found {
            Some(i) => i < assets.len() && asset_at(assets.deep_view(), locator@) == Some(
                assets@[i as int].deep_view(),
            ),
            None => asset_at(assets.deep_view(), locator@) is None,
        },
{
    let ghost all = assets.deep_view();
    let mut i: usize = assets.len();
    assert(all.take(i as int) == all);
    while i > 0
        invariant
            i <= assets.len(),
            all == assets.deep_view(),
            asset_at(all, locator@) == asset_at(all.take(i as int), locator@),
        decreases i,
    {
        assert(all.take(i as int).last() == assets@[i - 1].deep_view());
        assert(all.take(i as int).drop_last() == all.take(i - 1));
        if same(assets[i - 1].provider.locator.as_str(), locator) {
            return Some(i - 1);
        }
        i -= 1;
    }
    None
}

/// The name is on the list.
pub open spec fn lists(names: Seq<Seq<char>>, name: Seq<char>) -> bool {
    exists|i: int| 0 <= i < names.len() && #[trigger] names[i] == name
}

pub(crate) fn is_listed(names: &Vec<String>, name: &str) -> (found: bool)
    ensures
        found == lists(names.deep_view(), name@),
{
    lists_text(names, name)
}

/// The item of a PDF that the scan found.
pub open spec fn found_item(
    pdf: ProviderPdfView,
    assets: Seq<AssetRecordView>,
    sources: Seq<SourceDocumentView>,
    locked_ids: Seq<Seq<char>>,
) -> CatalogItemView {
    match asset_at(assets, pdf.provider_locator) {
        None => catalog_item(
            pdf.provider_locator,
            None,
            CatalogEvidence {
                asset_status: None,
                source: SourceObservation::Absent,
                blocker: CatalogBlocker::Nothing,
            },
        ),
        Some(asset) => {
            let source = source_of(asset.id, sources);
            catalog_item(
                pdf.provider_locator,
                Some(asset.id),
                CatalogEvidence {
                    asset_status: Some(asset.asset_status),
                    source,
                    blocker: blocker(
                        asset.asset_status,
                        source,
                        lists(locked_ids, asset.id),
                        pdf.size_bytes == asset.size_bytes && pdf.fingerprint == asset.fingerprint,
                    ),
                },
            )
        },
    }
}

/// The item of a registered PDF that the scan did not find.
pub open spec fn missing_item(
    asset: AssetRecordView,
    sources: Seq<SourceDocumentView>,
) -> CatalogItemView {
    catalog_item(
        asset.provider.locator,
        Some(asset.id),
        CatalogEvidence {
            asset_status: Some(asset.asset_status),
            source: source_of(asset.id, sources),
            blocker: CatalogBlocker::ProviderMissing,
        },
    )
}

/// The scan found the PDF of the Asset with this ID.
pub open spec fn was_found(
    asset_id: Seq<char>,
    pdfs: Seq<ProviderPdfView>,
    assets: Seq<AssetRecordView>,
) -> bool {
    exists|i: int|
        0 <= i < pdfs.len() && asset_at(
            assets,
            (#[trigger] pdfs[i]).provider_locator,
        ) is Some && asset_at(assets, pdfs[i].provider_locator)->0.id == asset_id
}

/// The items of all PDFs that the scan found, in its order.
pub open spec fn found_items(evidence: InboxEvidenceView) -> Seq<CatalogItemView> {
    evidence.pdfs.map_values(
        |pdf: ProviderPdfView|
            found_item(pdf, evidence.assets, evidence.sources, evidence.locked_ids),
    )
}

/// The items of the registered PDFs among the first `n` that the scan did not find.
pub open spec fn missing_items(evidence: InboxEvidenceView, n: int) -> Seq<CatalogItemView>
    decreases n,
{
    if n <= 0 {
        Seq::empty()
    } else {
        let before = missing_items(evidence, n - 1);
        let asset = evidence.assets[n - 1];
        if was_found(asset.id, evidence.pdfs, evidence.assets) {
            before
        } else {
            before.push(missing_item(asset, evidence.sources))
        }
    }
}

/// Every item of the inbox, by its place in it.
pub open spec fn inbox_items(evidence: InboxEvidenceView) -> Seq<CatalogItemView> {
    stable_sort::<CatalogItem>(
        found_items(evidence) + missing_items(evidence, evidence.assets.len() as int),
    )
}

fn catalog_of(evidence: &InboxEvidence) -> (catalog: Vec<CatalogItem>)
    ensures
        catalog.deep_view() == inbox_items(evidence.deep_view()),
{
    let ghost view = evidence.deep_view();
    let mut catalog: Vec<CatalogItem> = Vec::new();
    let mut seen: Vec<String> = Vec::new();
    let mut i: usize = 0;
    assert(catalog.deep_view() == found_items(view).take(0));
    while i < evidence.pdfs.len()
        invariant
            i <= evidence.pdfs.len(),
            view == evidence.deep_view(),
            catalog.deep_view() == found_items(view).take(i as int),
            forall|id: Seq<char>|
                lists(seen.deep_view(), id) <==> #[trigger] was_found(
                    id,
                    view.pdfs.take(i as int),
                    view.assets,
                ),
        decreases evidence.pdfs.len() - i,
    {
        let pdf = &evidence.pdfs[i];
        let ghost before = catalog.deep_view();
        let ghost seen_before = seen.deep_view();
        assert(view.pdfs[i as int] == pdf.deep_view());
        let item = match find_asset(&evidence.assets, pdf.provider_locator.as_str()) {
            None => {
                proof {
                    assert forall|id: Seq<char>|
                        lists(seen.deep_view(), id) <==> #[trigger] was_found(
                            id,
                            view.pdfs.take(i + 1),
                            view.assets,
                        ) by {
                        was_found_step(id, view.pdfs, view.assets, i as int);
                        assert(was_found(id, view.pdfs.take(i as int), view.assets) == lists(
                            seen.deep_view(),
                            id,
                        ));
                    }
                }
                classify_catalog_item(
                    pdf.provider_locator.clone(),
                    None,
                    CatalogEvidence {
                        asset_status: None,
                        source: SourceObservation::Absent,
                        blocker: CatalogBlocker::Nothing,
                    },
                )
            },
            Some(at) => {
                let asset = &evidence.assets[at];
                let source = source_for(asset.id.as_str(), &evidence.sources);
                let locked = is_listed(&evidence.locked_ids, asset.id.as_str());
                let matches = pdf.size_bytes == asset.size_bytes && same_fingerprint(
                    &pdf.fingerprint,
                    &asset.fingerprint,
                );
                seen.push(asset.id.clone());
                proof {
                    assert(seen.deep_view() == seen_before.push(asset.id@));
                    assert forall|id: Seq<char>|
                        lists(seen.deep_view(), id) <==> #[trigger] was_found(
                            id,
                            view.pdfs.take(i + 1),
                            view.assets,
                        ) by {
                        was_found_step(id, view.pdfs, view.assets, i as int);
                        assert(was_found(id, view.pdfs.take(i as int), view.assets) == lists(
                            seen_before,
                            id,
                        ));
                        lists_step(seen_before, asset.id@, id);
                    }
                }
                let blocker = blocker_for(asset.asset_status, source, locked, matches);
                classify_catalog_item(
                    pdf.provider_locator.clone(),
                    Some(asset.id.clone()),
                    CatalogEvidence { asset_status: Some(asset.asset_status), source, blocker },
                )
            },
        };
        catalog.push(item);
        assert(catalog.deep_view() == before.push(item.deep_view()));
        assert(found_items(view).take(i + 1) == found_items(view).take(i as int).push(
            found_items(view)[i as int],
        ));
        i += 1;
    }
    assert(view.pdfs.take(i as int) == view.pdfs);
    assert(found_items(view).take(i as int) == found_items(view));
    let ghost front = catalog.deep_view();
    assert(front + missing_items(view, 0) == front);
    let mut k: usize = 0;
    while k < evidence.assets.len()
        invariant
            k <= evidence.assets.len(),
            view == evidence.deep_view(),
            catalog.deep_view() == front + missing_items(view, k as int),
            forall|id: Seq<char>|
                lists(seen.deep_view(), id) <==> #[trigger] was_found(id, view.pdfs, view.assets),
        decreases evidence.assets.len() - k,
    {
        let asset = &evidence.assets[k];
        assert(view.assets[k as int] == asset.deep_view());
        let found = is_listed(&seen, asset.id.as_str());
        assert(found == was_found(asset.id@, view.pdfs, view.assets));
        if !found {
            let ghost before = catalog.deep_view();
            let source = source_for(asset.id.as_str(), &evidence.sources);
            let item = classify_catalog_item(
                asset.provider.locator.clone(),
                Some(asset.id.clone()),
                CatalogEvidence {
                    asset_status: Some(asset.asset_status),
                    source,
                    blocker: CatalogBlocker::ProviderMissing,
                },
            );
            catalog.push(item);
            assert(catalog.deep_view() == before.push(item.deep_view()));
            assert(catalog.deep_view() == front + missing_items(view, k + 1));
        }
        k += 1;
    }
    sort(catalog)
}

proof fn was_found_step(
    id: Seq<char>,
    pdfs: Seq<ProviderPdfView>,
    assets: Seq<AssetRecordView>,
    i: int,
)
    requires
        0 <= i < pdfs.len(),
    ensures
        was_found(id, pdfs.take(i + 1), assets) <==> (was_found(id, pdfs.take(i), assets) || (
        asset_at(assets, pdfs[i].provider_locator) is Some && asset_at(
            assets,
            pdfs[i].provider_locator,
        )->0.id == id)),
{
    let shorter = pdfs.take(i);
    let longer = pdfs.take(i + 1);
    if was_found(id, shorter, assets) {
        let k = choose|k: int|
            0 <= k < shorter.len() && asset_at(
                assets,
                (#[trigger] shorter[k]).provider_locator,
            ) is Some && asset_at(assets, shorter[k].provider_locator)->0.id == id;
        assert(longer[k] == shorter[k]);
    }
    if was_found(id, longer, assets) {
        let k = choose|k: int|
            0 <= k < longer.len() && asset_at(
                assets,
                (#[trigger] longer[k]).provider_locator,
            ) is Some && asset_at(assets, longer[k].provider_locator)->0.id == id;
        if k < i {
            assert(shorter[k] == longer[k]);
        } else {
            assert(longer[k] == pdfs[i]);
        }
    }
    assert(longer[i] == pdfs[i]);
}

pub(crate) proof fn lists_step(names: Seq<Seq<char>>, added: Seq<char>, name: Seq<char>)
    ensures
        lists(names.push(added), name) <==> (lists(names, name) || added == name),
{
    let longer = names.push(added);
    if lists(names, name) {
        let k = choose|k: int| 0 <= k < names.len() && #[trigger] names[k] == name;
        assert(longer[k] == name);
    }
    if added == name {
        assert(longer[names.len() as int] == name);
    }
    if lists(longer, name) {
        let k = choose|k: int| 0 <= k < longer.len() && #[trigger] longer[k] == name;
        if k < names.len() {
            assert(names[k] == name);
        }
    }
}

/// How many items stand in a state.
pub open spec fn count_in_state(items: Seq<CatalogItemView>, state: UserState) -> nat
    decreases items.len(),
{
    if items.len() == 0 {
        0
    } else {
        count_in_state(items.drop_last(), state) + (if items.last().user_state == state {
            1nat
        } else {
            0nat
        })
    }
}

/// The counts of all six states.
pub open spec fn counts_match(counts: StateCounts, items: Seq<CatalogItemView>) -> bool {
    &&& counts.fresh == count_in_state(items, UserState::New)
    &&& counts.registered == count_in_state(items, UserState::Registered)
    &&& counts.incomplete == count_in_state(items, UserState::Incomplete)
    &&& counts.review_pending == count_in_state(items, UserState::ReviewPending)
    &&& counts.processed == count_in_state(items, UserState::Processed)
    &&& counts.blocked == count_in_state(items, UserState::Blocked)
}

/// Every item stands in exactly one state.
pub proof fn states_partition_items(items: Seq<CatalogItemView>)
    ensures
        count_in_state(items, UserState::New) + count_in_state(items, UserState::Registered)
            + count_in_state(items, UserState::Incomplete) + count_in_state(
            items,
            UserState::ReviewPending,
        ) + count_in_state(items, UserState::Processed) + count_in_state(items, UserState::Blocked)
            == items.len(),
    decreases items.len(),
{
    if items.len() > 0 {
        states_partition_items(items.drop_last());
    }
}

fn count_states(items: &Vec<CatalogItem>) -> (counts: StateCounts)
    ensures
        counts_match(counts, items.deep_view()),
{
    let ghost all = items.deep_view();
    let mut counts = StateCounts {
        fresh: 0,
        registered: 0,
        incomplete: 0,
        review_pending: 0,
        processed: 0,
        blocked: 0,
    };
    let mut i: usize = 0;
    while i < items.len()
        invariant
            i <= items.len(),
            all == items.deep_view(),
            counts_match(counts, all.take(i as int)),
        decreases items.len() - i,
    {
        assert(all.take(i + 1).drop_last() == all.take(i as int));
        assert(all.take(i + 1).last() == items@[i as int].deep_view());
        proof {
            states_partition_items(all.take(i as int));
        }
        match items[i].user_state {
            UserState::New => {
                counts.fresh = counts.fresh + 1;
            },
            UserState::Registered => {
                counts.registered = counts.registered + 1;
            },
            UserState::Incomplete => {
                counts.incomplete = counts.incomplete + 1;
            },
            UserState::ReviewPending => {
                counts.review_pending = counts.review_pending + 1;
            },
            UserState::Processed => {
                counts.processed = counts.processed + 1;
            },
            UserState::Blocked => {
                counts.blocked = counts.blocked + 1;
            },
        }
        i += 1;
    }
    assert(all.take(i as int) == all);
    counts
}

/// Some item calls for the action.
pub open spec fn calls_for(items: Seq<CatalogItemView>, action: NextAction) -> bool {
    exists|i: int| 0 <= i < items.len() && (#[trigger] items[i]).next_action == action
}

/// The most urgent action that some item calls for.
pub open spec fn most_urgent(items: Seq<CatalogItemView>) -> NextAction {
    if calls_for(items, NextAction::Configure) {
        NextAction::Configure
    } else if calls_for(items, NextAction::Repair) {
        NextAction::Repair
    } else if calls_for(items, NextAction::Hydrate) {
        NextAction::Hydrate
    } else if calls_for(items, NextAction::Retry) {
        NextAction::Retry
    } else if calls_for(items, NextAction::Review) {
        NextAction::Review
    } else if calls_for(items, NextAction::WriteDraft) {
        NextAction::WriteDraft
    } else if calls_for(items, NextAction::Prepare) {
        NextAction::Prepare
    } else if calls_for(items, NextAction::Add) {
        NextAction::Add
    } else {
        NextAction::Nothing
    }
}

fn any_calls_for(items: &Vec<CatalogItem>, action: NextAction) -> (found: bool)
    ensures
        found == calls_for(items.deep_view(), action),
{
    let mut i: usize = 0;
    while i < items.len()
        invariant
            i <= items.len(),
            forall|k: int| 0 <= k < i ==> (#[trigger] items@[k]).next_action != action,
        decreases items.len() - i,
    {
        if items[i].next_action == action {
            assert(items.deep_view()[i as int].next_action == action);
            return true;
        }
        i += 1;
    }
    assert forall|k: int| 0 <= k < items.len() implies (#[trigger] items.deep_view()[k]).next_action
        != action by {
        assert(items@[k].next_action != action);
    }
    false
}

fn recommended_action(items: &Vec<CatalogItem>) -> (action: NextAction)
    ensures
        action == most_urgent(items.deep_view()),
{
    if any_calls_for(items, NextAction::Configure) {
        NextAction::Configure
    } else if any_calls_for(items, NextAction::Repair) {
        NextAction::Repair
    } else if any_calls_for(items, NextAction::Hydrate) {
        NextAction::Hydrate
    } else if any_calls_for(items, NextAction::Retry) {
        NextAction::Retry
    } else if any_calls_for(items, NextAction::Review) {
        NextAction::Review
    } else if any_calls_for(items, NextAction::WriteDraft) {
        NextAction::WriteDraft
    } else if any_calls_for(items, NextAction::Prepare) {
        NextAction::Prepare
    } else if any_calls_for(items, NextAction::Add) {
        NextAction::Add
    } else {
        NextAction::Nothing
    }
}

/// A scan warning as it is reported: the bounds of the scan share one code and have
/// fixed messages.
pub open spec fn reported_warning(warning: ProviderScanWarningView) -> DiagnosticDataView {
    DiagnosticDataView {
        code: if "scan_"@.is_prefix_of(warning.code) && "_limit"@.is_suffix_of(warning.code) {
            "scan_limit_reached"@
        } else {
            warning.code
        },
        message: if warning.code == "scan_time_limit"@ {
            "The inbox scan reached its time limit."@
        } else if warning.code == "scan_entry_limit"@ {
            "The inbox scan reached its entry limit."@
        } else if warning.code == "scan_byte_limit"@ {
            "The inbox scan reached its aggregate byte limit."@
        } else if warning.code == "scan_depth_limit"@ {
            "The inbox scan reached its depth limit."@
        } else {
            warning.message
        },
        path: warning.provider_locator,
    }
}

fn scan_warning(warning: &ProviderScanWarning) -> (diagnostic: DiagnosticData)
    ensures
        diagnostic.deep_view() == reported_warning(warning.deep_view()),
{
    let code = warning.code.as_str();
    let message = if same(code, "scan_time_limit") {
        "The inbox scan reached its time limit.".to_owned()
    } else if same(code, "scan_entry_limit") {
        "The inbox scan reached its entry limit.".to_owned()
    } else if same(code, "scan_byte_limit") {
        "The inbox scan reached its aggregate byte limit.".to_owned()
    } else if same(code, "scan_depth_limit") {
        "The inbox scan reached its depth limit.".to_owned()
    } else {
        warning.message.clone()
    };
    DiagnosticData {
        code: if starts_with(code, "scan_") && ends_with(code, "_limit") {
            "scan_limit_reached".to_owned()
        } else {
            warning.code.clone()
        },
        message,
        path: copy_option(&warning.provider_locator),
    }
}

/// Everything that went wrong while the repository was read, in the order it was found.
pub open spec fn inbox_errors(evidence: InboxEvidenceView) -> Seq<DiagnosticDataView> {
    evidence.asset_errors + evidence.source_errors + duplicate_errors(evidence.sources)
}

/// How many items do not fit into one answer.
pub open spec fn hidden_items(evidence: InboxEvidenceView, limits: ScanLimits) -> nat {
    let total = inbox_items(evidence).len();
    if total > limits.max_batch_items {
        (total - limits.max_batch_items) as nat
    } else {
        0
    }
}

/// All warnings, in the order they come up.
pub open spec fn inbox_warnings(evidence: InboxEvidenceView, limits: ScanLimits) -> Seq<
    DiagnosticDataView,
> {
    let scanned = evidence.scan_warnings.map_values(
        |warning: ProviderScanWarningView| reported_warning(warning),
    );
    let bounded = if !evidence.assets_complete || !evidence.sources_complete {
        scanned.push(
            DiagnosticDataView {
                code: "repository_scan_limit_reached"@,
                message: "The repository catalog scan reached a fixed limit."@,
                path: None,
            },
        )
    } else {
        scanned
    };
    if hidden_items(evidence, limits) > 0 {
        bounded.push(
            DiagnosticDataView {
                code: "actionable_limit_reached"@,
                message: decimal_digits(limits.max_batch_items as nat)
                    + " actionable inbox items shown; "@ + decimal_digits(
                    hidden_items(evidence, limits),
                ) + " remaining."@,
                path: None,
            },
        )
    } else {
        bounded
    }
}

/// The first blocked item.
pub open spec fn first_blocked(items: Seq<CatalogItemView>) -> Option<CatalogItemView>
    decreases items.len(),
{
    if items.len() == 0 {
        None
    } else if items[0].user_state == UserState::Blocked {
        Some(items[0])
    } else {
        first_blocked(items.drop_first())
    }
}

/// What to show as the main obstacle: the first error, or else the first blocked item.
pub open spec fn main_obstacle(
    errors: Seq<DiagnosticDataView>,
    items: Seq<CatalogItemView>,
) -> Option<DiagnosticDataView> {
    if errors.len() > 0 {
        Some(errors[0])
    } else {
        match first_blocked(items) {
            Some(item) => item.diagnostic,
            None => None,
        }
    }
}

/// What the evidence makes of the inbox, within the limits.
pub open spec fn is_inbox_report(
    report: InboxScanResultView,
    evidence: InboxEvidenceView,
    limits: ScanLimits,
) -> bool {
    let all = inbox_items(evidence);
    let hidden = hidden_items(evidence, limits);
    &&& report.scan_complete == (evidence.scan_complete && evidence.assets_complete
        && evidence.sources_complete && hidden == 0)
    &&& report.scan_limits == limits
    &&& report.items == all.take(all.len() - hidden)
    &&& report.errors == dedup(stable_sort::<DiagnosticData>(inbox_errors(evidence)))
    &&& report.warnings == dedup(stable_sort::<DiagnosticData>(inbox_warnings(evidence, limits)))
    &&& report.remaining == hidden
    &&& counts_match(report.state_counts, all)
    &&& report.primary_blocker == main_obstacle(inbox_errors(evidence), all)
    &&& report.recommended_action == most_urgent(all)
}

fn find_blocked(items: &Vec<CatalogItem>) -> (found: Option<DiagnosticData>)
    ensures
        found.deep_view() == (match first_blocked(items.deep_view()) {
            Some(item) => item.diagnostic,
            None => None,
        }),
{
    let ghost all = items.deep_view();
    let mut i: usize = 0;
    assert(all.skip(0) == all);
    while i < items.len()
        invariant
            i <= items.len(),
            all == items.deep_view(),
            first_blocked(all) == first_blocked(all.skip(i as int)),
        decreases items.len() - i,
    {
        assert(all.skip(i as int)[0] == items@[i as int].deep_view());
        assert(all.skip(i as int).drop_first() == all.skip(i + 1));
        if items[i].user_state == UserState::Blocked {
            return match &items[i].diagnostic {
                Some(diagnostic) => Some(diagnostic.duplicate()),
                None => None,
            };
        }
        i += 1;
    }
    None
}

fn append(into: &mut Vec<DiagnosticData>, from: Vec<DiagnosticData>)
    ensures
        final(into).deep_view() == old(into).deep_view() + from.deep_view(),
{
    let mut from = from;
    let ghost front = into.deep_view();
    let ghost back = from.deep_view();
    into.append(&mut from);
    assert(into.deep_view() == front + back);
}

/// Puts together what was read of the provider and the repository.
pub fn scan_inbox(request: InboxScanRequest, evidence: InboxEvidence) -> (report: InboxScanResult)
    ensures
        is_inbox_report(
            report.deep_view(),
            evidence.deep_view(),
            request.deep_view().limits,
        ),
{
    let limits = request.limits;
    let ghost view = evidence.deep_view();
    let mut warnings: Vec<DiagnosticData> = Vec::new();
    let ghost scanned = view.scan_warnings.map_values(
        |warning: ProviderScanWarningView| reported_warning(warning),
    );
    let mut i: usize = 0;
    assert(warnings.deep_view() == scanned.take(0));
    while i < evidence.scan_warnings.len()
        invariant
            i <= evidence.scan_warnings.len(),
            view == evidence.deep_view(),
            scanned == view.scan_warnings.map_values(
                |warning: ProviderScanWarningView| reported_warning(warning),
            ),
            warnings.deep_view() == scanned.take(i as int),
        decreases evidence.scan_warnings.len() - i,
    {
        let ghost before = warnings.deep_view();
        assert(view.scan_warnings[i as int] == evidence.scan_warnings@[i as int].deep_view());
        let diagnostic = scan_warning(&evidence.scan_warnings[i]);
        warnings.push(diagnostic);
        assert(warnings.deep_view() == before.push(diagnostic.deep_view()));
        assert(scanned.take(i + 1) == scanned.take(i as int).push(scanned[i as int]));
        i += 1;
    }
    assert(scanned.take(i as int) == scanned);
    if !evidence.assets_complete || !evidence.sources_complete {
        let ghost before = warnings.deep_view();
        let diagnostic = DiagnosticData {
            code: "repository_scan_limit_reached".to_owned(),
            message: "The repository catalog scan reached a fixed limit.".to_owned(),
            path: None,
        };
        warnings.push(diagnostic);
        assert(warnings.deep_view() == before.push(diagnostic.deep_view()));
    }
    let mut catalog = catalog_of(&evidence);
    let ghost all = catalog.deep_view();
    let mut errors = evidence.asset_errors;
    append(&mut errors, evidence.source_errors);
    find_duplicates(&evidence.sources, &mut errors);
    let state_counts = count_states(&catalog);
    let primary_blocker = if errors.len() > 0 {
        assert(errors.deep_view()[0] == errors@[0].deep_view());
        Some(errors[0].duplicate())
    } else {
        find_blocked(&catalog)
    };
    let recommended_action = recommended_action(&catalog);
    let total: u64 = catalog.len() as u64;
    let remaining: u64 = if total > limits.max_batch_items {
        total - limits.max_batch_items
    } else {
        0
    };
    if remaining > 0 {
        let shown = decimal(limits.max_batch_items);
        let hidden = decimal(remaining);
        let message = cat4(
            shown.as_str(),
            " actionable inbox items shown; ",
            hidden.as_str(),
            " remaining.",
        );
        let ghost before = warnings.deep_view();
        let diagnostic = DiagnosticData {
            code: "actionable_limit_reached".to_owned(),
            message,
            path: None,
        };
        warnings.push(diagnostic);
        assert(warnings.deep_view() == before.push(diagnostic.deep_view()));
        catalog.truncate(limits.max_batch_items as usize);
    }
    assert(catalog.deep_view() == all.take(all.len() - remaining));
    InboxScanResult {
        scan_complete: evidence.scan_complete && evidence.assets_complete
            && evidence.sources_complete && remaining == 0,
        scan_limits: limits,
        items: catalog,
        errors: remove_repeats(sort(errors)),
        warnings: remove_repeats(sort(warnings)),
        remaining,
        state_counts,
        primary_blocker,
        recommended_action,
    }
}

/// The Asset that a lock file belongs to.
pub open spec fn locked_asset(file_name: Seq<char>) -> Option<Seq<char>> {
    match before_suffix(file_name, ".lock"@) {
        Some(id) => Some(id),
        None => before_suffix(file_name, ".lock.takeover"@),
    }
}

pub fn lock_asset_id(file_name: &str) -> (id: Option<String>)
    ensures
        id.deep_view() == locked_asset(file_name@),
{
    match strip_suffix(file_name, ".lock") {
        Some(id) => Some(id.to_owned()),
        None => match strip_suffix(file_name, ".lock.takeover") {
            Some(id) => Some(id.to_owned()),
            None => None,
        },
    }
}

/// The part of an item that the first version of the command results shows.
pub open spec fn item_data(item: CatalogItemView) -> InboxItemDataView {
    InboxItemDataView {
        provider_locator: item.provider_locator,
        user_state: item.user_state,
        asset_id: item.asset_id,
        next_action: item.next_action,
    }
}

impl InboxScanResult {
    /// The report as the first version of the command results shows it.
    pub fn into_data(self) -> (data: InboxData)
        ensures
            data.deep_view() == (InboxDataView {
                scan_complete: self.scan_complete,
                scan_limits: ScanLimitsData {
                    max_entries: self.scan_limits.max_entries,
                    max_total_bytes: self.scan_limits.max_total_bytes,
                    max_elapsed_ms: self.scan_limits.max_elapsed_ms,
                    max_depth: self.scan_limits.max_depth,
                    max_batch_items: self.scan_limits.max_batch_items,
                },
                items: self.deep_view().items.map_values(|item: CatalogItemView| item_data(item)),
                errors: self.errors.deep_view(),
                warnings: self.warnings.deep_view(),
            }),
    {
        let ghost shown = self.deep_view().items.map_values(
            |item: CatalogItemView| item_data(item),
        );
        let mut items: Vec<InboxItemData> = Vec::new();
        let mut i: usize = 0;
        assert(items.deep_view() == shown.take(0));
        while i < self.items.len()
            invariant
                i <= self.items.len(),
                shown == self.deep_view().items.map_values(
                    |item: CatalogItemView| item_data(item),
                ),
                items.deep_view() == shown.take(i as int),
            decreases self.items.len() - i,
        {
            let ghost before = items.deep_view();
            let item = InboxItemData {
                provider_locator: self.items[i].provider_locator.clone(),
                user_state: self.items[i].user_state,
                asset_id: copy_option(&self.items[i].asset_id),
                next_action: self.items[i].next_action,
            };
            items.push(item);
            assert(items.deep_view() == before.push(item.deep_view()));
            assert(self.deep_view().items[i as int] == self.items@[i as int].deep_view());
            assert(shown.take(i + 1) == shown.take(i as int).push(shown[i as int]));
            i += 1;
        }
        assert(shown.take(i as int) == shown);
        InboxData {
            scan_complete: self.scan_complete,
            scan_limits: ScanLimitsData {
                max_entries: self.scan_limits.max_entries,
                max_total_bytes: self.scan_limits.max_total_bytes,
                max_elapsed_ms: self.scan_limits.max_elapsed_ms,
                max_depth: self.scan_limits.max_depth,
                max_batch_items: self.scan_limits.max_batch_items,
            },
            items,
            errors: self.errors,
            warnings: self.warnings,
        }
    }
}

/// An item whose Source documents disagree with its status is not worked on.
pub proof fn disagreement_blocks(pdf: ProviderPdfView, evidence: InboxEvidenceView)
    requires
        asset_at(evidence.assets, pdf.provider_locator) is Some,
        ({
            let asset = asset_at(evidence.assets, pdf.provider_locator)->0;
            !source_agrees(asset.asset_status, source_of(asset.id, evidence.sources))
        }),
    ensures
        found_item(pdf, evidence.assets, evidence.sources, evidence.locked_ids).user_state
            == UserState::Blocked,
{
}

/// Nothing is lost: the scan result shows every item of the inbox or counts it as
/// remaining.
pub proof fn nothing_is_lost(
    report: InboxScanResultView,
    evidence: InboxEvidenceView,
    limits: ScanLimits,
)
    requires
        is_inbox_report(report, evidence, limits),
    ensures
        report.items.len() + report.remaining == inbox_items(evidence).len(),
        report.remaining > 0 ==> !report.scan_complete,
{
}

/// The Asset with an ID; of several, the last one.
pub open spec fn asset_with_id(assets: Seq<AssetRecordView>, id: Seq<char>) -> Option<AssetRecordView>
    decreases assets.len(),
{
    if assets.len() == 0 {
        None
    } else if assets.last().id == id {
        Some(assets.last())
    } else {
        asset_with_id(assets.drop_last(), id)
    }
}

pub(crate) fn find_asset_with_id(assets: &Vec<AssetRecord>, id: &str) -> (found: Option<usize>)
    ensures
        match found {
            Some(i) => i < assets.len() && asset_with_id(assets.deep_view(), id@) == Some(
                assets@[i as int].deep_view(),
            ),
            None => asset_with_id(assets.deep_view(), id@) is None,
        },
{
    let ghost all = assets.deep_view();
    let mut i: usize = assets.len();
    assert(all.take(i as int) == all);
    while i > 0
        invariant
            i <= assets.len(),
            all == assets.deep_view(),
            asset_with_id(all, id@) == asset_with_id(all.take(i as int), id@),
        decreases i,
    {
        assert(all.take(i as int).last() == assets@[i - 1].deep_view());
        assert(all.take(i as int).drop_last() == all.take(i - 1));
        if same(assets[i - 1].id.as_str(), id) {
            return Some(i - 1);
        }
        i -= 1;
    }
    None
}

/// What a Source document is worth: nothing that can be relied on unless it is canonical
/// and waits for review or is approved.
pub open spec fn observation_of(canonical: bool, status: SourceStatus) -> SourceObservation {
    if !canonical {
        SourceObservation::Invalid
    } else {
        match status {
            SourceStatus::ReviewPending => SourceObservation::ReviewPending,
            SourceStatus::Approved => SourceObservation::Approved,
            SourceStatus::Rejected => SourceObservation::Invalid,
            SourceStatus::Stale => SourceObservation::Invalid,
            SourceStatus::Archived => SourceObservation::Invalid,
        }
    }
}

/// What a document of the sources directory says.
pub open spec fn source_document(
    name: Seq<char>,
    source: SourceRecordView,
    body: Seq<char>,
    assets: Seq<AssetRecordView>,
    revision: Result<Seq<char>, ErrorView>,
) -> Result<SourceDocumentView, ErrorView> {
    if source.relations.asset_ids.len() == 0 {
        Err(error("source_invalid"@, "Source has no related Asset."@))
    } else {
        let asset_id = source.relations.asset_ids[0];
        match asset_with_id(assets, asset_id) {
            None => Err(error("relation_missing"@, "Source Asset is absent."@)),
            Some(asset) => Ok(
                SourceDocumentView {
                    asset_id,
                    observation: observation_of(
                        source_check("sources/"@ + name, source, body, asset, revision) is Ok,
                        source.status,
                    ),
                },
            ),
        }
    }
}

/// `revision` is the revision of the content of the document, as it was computed.
pub fn read_source(
    name: &str,
    source: &SourceRecord,
    body: &str,
    assets: &Vec<AssetRecord>,
    revision: Result<String, MkoError>,
) -> (result: Result<SourceDocument, MkoError>)
    ensures
        outcome(result) == source_document(
            name@,
            source.deep_view(),
            body@,
            assets.deep_view(),
            outcome(revision),
        ),
{
    if source.relations.asset_ids.len() == 0 {
        return Err(MkoError::new("source_invalid", "Source has no related Asset."));
    }
    let asset_id = source.relations.asset_ids[0].as_str();
    assert(source.deep_view().relations.asset_ids[0] == asset_id@);
    let asset = match find_asset_with_id(assets, asset_id) {
        Some(at) => &assets[at],
        None => {
            return Err(MkoError::new("relation_missing", "Source Asset is absent."));
        },
    };
    let path = cat2("sources/", name);
    let canonical = validate_canonical_source(path.as_str(), source, body, asset, revision).is_ok();
    let observation = if !canonical {
        SourceObservation::Invalid
    } else {
        match source.status {
            SourceStatus::ReviewPending => SourceObservation::ReviewPending,
            SourceStatus::Approved => SourceObservation::Approved,
            SourceStatus::Rejected
            | SourceStatus::Stale
            | SourceStatus::Archived => SourceObservation::Invalid,
        }
    };
    Ok(SourceDocument { asset_id: asset_id.to_owned(), observation })
}

/// Refuses a registry record that does not stand under its own ID.
pub fn read_asset_file(name: &str, asset: AssetRecord) -> (result: Result<AssetRecord, MkoError>)
    ensures
        outcome(result) == (if name@ == asset.id@ + ".md"@ {
            Ok(asset.deep_view())
        } else {
            Err(error("registry_conflict"@, "Registry filename and Asset ID disagree."@))
        }),
{
    let expected = cat2(asset.id.as_str(), ".md");
    if !same(name, expected.as_str()) {
        return Err(MkoError::new("registry_conflict", "Registry filename and Asset ID disagree."));
    }
    Ok(asset)
}

/// One entry of a directory of Markdown documents.
#[derive(Clone, Debug, PartialEq, Eq)]
pub struct FlatEntry {
    /// Nothing for a name that is not valid UTF-8.
    pub name: Option<String>,
    pub regular_file: bool,
    pub markdown: bool,
    pub size_bytes: u64,
}

/// The sum, or the largest number where the sum is larger.
pub open spec fn saturated_sum(left: u64, right: u64) -> u64 {
    if left + right > u64::MAX {
        u64::MAX
    } else {
        (left + right) as u64
    }
}

/// The documents to read from the `i`-th entry on, and whether that covers the directory:
/// reading stops at the bound on entries and at the bound on bytes.
pub open spec fn documents_to_read(
    entries: Seq<FlatEntry>,
    limits: ScanLimits,
    i: int,
    total: u64,
) -> Result<(Seq<Seq<char>>, bool), ErrorView>
    decreases entries.len() - i,
{
    if i < 0 || i >= entries.len() {
        Ok((Seq::empty(), true))
    } else if i >= limits.max_entries {
        Ok((Seq::empty(), false))
    } else if !entries[i].regular_file || !entries[i].markdown {
        documents_to_read(entries, limits, i + 1, total)
    } else if saturated_sum(total, entries[i].size_bytes) > limits.max_total_bytes {
        Ok((Seq::empty(), false))
    } else if entries[i].name is None {
        Err(error("invalid_path"@, "Repository filename is not UTF-8."@))
    } else {
        match documents_to_read(
            entries,
            limits,
            i + 1,
            saturated_sum(total, entries[i].size_bytes),
        ) {
            Err(failure) => Err(failure),
            Ok((names, complete)) => Ok((seq![entries[i].name->0@] + names, complete)),
        }
    }
}

/// Chooses the documents of a directory that are read; `entries` stand in the order of
/// their paths.
pub fn read_flat_markdown(entries: &Vec<FlatEntry>, limits: ScanLimits) -> (result: Result<
    (Vec<String>, bool),
    MkoError,
>)
    ensures
        match result {
            Ok((names, complete)) => documents_to_read(entries@, limits, 0, 0) == Ok::<
                (Seq<Seq<char>>, bool),
                ErrorView,
            >((names.deep_view(), complete)),
            Err(failure) => documents_to_read(entries@, limits, 0, 0) == Err::<
                (Seq<Seq<char>>, bool),
                ErrorView,
            >(failure.deep_view()),
        },
{
    let mut names: Vec<String> = Vec::new();
    let mut total: u64 = 0;
    let mut i: usize = 0;
    let ghost whole = documents_to_read(entries@, limits, 0, 0);
    assert(names.deep_view() == Seq::<Seq<char>>::empty());
    proof {
        prepend_nothing(documents_to_read(entries@, limits, 0, 0));
    }
    while i < entries.len()
        invariant
            i <= entries.len(),
            whole == documents_to_read(entries@, limits, 0, 0),
            whole == prepended(
                names.deep_view(),
                documents_to_read(entries@, limits, i as int, total),
            ),
        decreases entries.len() - i,
    {
        if i as u64 >= limits.max_entries {
            assert(names.deep_view() + Seq::<Seq<char>>::empty() == names.deep_view());
            return Ok((names, false));
        }
        let entry = &entries[i];
        if entry.regular_file && entry.markdown {
            let sum: u64 = total.saturating_add(entry.size_bytes);
            if sum > limits.max_total_bytes {
                assert(names.deep_view() + Seq::<Seq<char>>::empty() == names.deep_view());
                return Ok((names, false));
            }
            match &entry.name {
                None => {
                    return Err(MkoError::new("invalid_path", "Repository filename is not UTF-8."));
                },
                Some(name) => {
                    let ghost before = names.deep_view();
                    let ghost rest = documents_to_read(
                        entries@,
                        limits,
                        i + 1,
                        sum,
                    );
                    names.push(name.clone());
                    total = sum;
                    proof {
                        assert(names.deep_view() == before.push(name@));
                        if rest is Ok {
                            assert(before + (seq![name@] + rest->Ok_0.0) == names.deep_view()
                                + rest->Ok_0.0);
                        }
                    }
                },
            }
        }
        i += 1;
    }
    assert(names.deep_view() + Seq::<Seq<char>>::empty() == names.deep_view());
    Ok((names, true))
}

spec fn prepended(
    names: Seq<Seq<char>>,
    rest: Result<(Seq<Seq<char>>, bool), ErrorView>,
) -> Result<(Seq<Seq<char>>, bool), ErrorView> {
    match rest {
        Ok((more, complete)) => Ok((names + more, complete)),
        Err(failure) => Err(failure),
    }
}

proof fn prepend_nothing(rest: Result<(Seq<Seq<char>>, bool), ErrorView>)
    ensures
        prepended(Seq::empty(), rest) == rest,
{
    if rest is Ok {
        assert(Seq::<Seq<char>>::empty() + rest->Ok_0.0 == rest->Ok_0.0);
    }
}

} // verus!
