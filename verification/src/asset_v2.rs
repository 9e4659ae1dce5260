//! Assets of the second repository format: how PDFs of the inbox are registered, and when a
//! registration is in order.

use crate::asset_validation::{prefixed_hash, valid_prefixed_hash};
use crate::error::{error, outcome, verdict, ErrorView, MkoError};
use crate::fingerprint::{
    asset_id, asset_id_of, has_same_content, same_content, FileSnapshot, FileSnapshotView,
    MAX_ASSET_BYTES,
};
use crate::local_path::{is_within, within, LocalPath, LocalPathView};
use crate::model::{Fingerprint, Timestamp};
use crate::order::{
    option_at_most, option_not_after, option_total, option_transitive, sort, stable_sort,
    text_total, text_transitive, Ranked,
};
use crate::path_policy::{portable_path, validate_portable_relative_path};
use crate::paths::{file_name, file_name_of, names_of, path_names};
use crate::provider_scan::{ProviderScanWarning, ProviderScanWarningView};
use crate::text::{
    after_prefix, byte_len, cat2, cat3, decimal, decimal_digits, not_after, same, strip_prefix,
    text_at_most, text_order_is_antisymmetric,
};
use crate::unicode::{nfc, to_nfc};
use vstd::prelude::*;
use vstd::utf8::encode_utf8;

verus! {

/// The largest record of an Asset.
pub const MAX_ASSET_RECORD_BYTES: u64 = 32_768;

/// The longest title that a record falls back to.
pub const MAX_TITLE_FALLBACK_BYTES: usize = 4096;

#[derive(Clone, Copy, Debug, PartialEq, Eq, Structural)]
pub enum HydrationConfirmationV2 {
    NotConfirmed,
    Confirmed,
}

#[derive(Clone, Copy, Debug, PartialEq, Eq, Structural)]
pub enum AssetRegistrationOutcomeV2 {
    Created,
    Existing,
}

#[derive(Clone, Copy, Debug, PartialEq, Eq, Structural)]
pub enum AssetRecordTypeV2 {
    Asset,
}

/// Where the bytes of an Asset were found first.
#[derive(Clone, Debug, PartialEq, Eq)]
pub struct AssetProviderBindingV2 {
    pub provider_type: String,
    pub logical_locator: String,
    pub size_bytes: u64,
    pub modified_at: Option<Timestamp>,
}

#[verifier::ext_equal]
pub struct AssetProviderBindingV2View {
    pub provider_type: Seq<char>,
    pub logical_locator: Seq<char>,
    pub size_bytes: u64,
    pub modified_at: Option<Timestamp>,
}

impl DeepView for AssetProviderBindingV2 {
    type V = AssetProviderBindingV2View;

    open spec fn deep_view(&self) -> AssetProviderBindingV2View {
        AssetProviderBindingV2View {
            provider_type: self.provider_type@,
            logical_locator: self.logical_locator@,
            size_bytes: self.size_bytes,
            modified_at: self.modified_at,
        }
    }
}

impl AssetProviderBindingV2 {
    /// A copy that holds the same.
    pub(crate) fn duplicate(&self) -> (copy: Self)
        ensures
            copy.deep_view() == self.deep_view(),
    {
        AssetProviderBindingV2 {
            provider_type: self.provider_type.clone(),
            logical_locator: self.logical_locator.clone(),
            size_bytes: self.size_bytes,
            modified_at: self.modified_at,
        }
    }
}

/// The identity of an Asset. It never changes.
#[derive(Clone, Debug, PartialEq, Eq)]
pub struct AssetRecordV2 {
    pub schema_version: u32,
    pub id: String,
    pub record_type: AssetRecordTypeV2,
    pub fingerprint: String,
    pub title_fallback: String,
    pub media_type: String,
    pub provider: AssetProviderBindingV2,
}

#[verifier::ext_equal]
pub struct AssetRecordV2View {
    pub schema_version: u32,
    pub id: Seq<char>,
    pub record_type: AssetRecordTypeV2,
    pub fingerprint: Seq<char>,
    pub title_fallback: Seq<char>,
    pub media_type: Seq<char>,
    pub provider: AssetProviderBindingV2View,
}

impl DeepView for AssetRecordV2 {
    type V = AssetRecordV2View;

    open spec fn deep_view(&self) -> AssetRecordV2View {
        AssetRecordV2View {
            schema_version: self.schema_version,
            id: self.id@,
            record_type: self.record_type,
            fingerprint: self.fingerprint@,
            title_fallback: self.title_fallback@,
            media_type: self.media_type@,
            provider: self.provider.deep_view(),
        }
    }
}

impl AssetRecordV2 {
    /// A copy that holds the same.
    pub(crate) fn duplicate(&self) -> (copy: Self)
        ensures
            copy.deep_view() == self.deep_view(),
    {
        AssetRecordV2 {
            schema_version: self.schema_version,
            id: self.id.clone(),
            record_type: self.record_type,
            fingerprint: self.fingerprint.clone(),
            title_fallback: self.title_fallback.clone(),
            media_type: self.media_type.clone(),
            provider: self.provider.duplicate(),
        }
    }
}

#[derive(Clone, Debug, PartialEq, Eq)]
pub struct AssetRegistrationResultV2 {
    pub asset: AssetRecordV2,
    pub registry_path: String,
    pub outcome: AssetRegistrationOutcomeV2,
}

#[verifier::ext_equal]
pub struct AssetRegistrationResultV2View {
    pub asset: AssetRecordV2View,
    pub registry_path: Seq<char>,
    pub outcome: AssetRegistrationOutcomeV2,
}

impl DeepView for AssetRegistrationResultV2 {
    type V = AssetRegistrationResultV2View;

    open spec fn deep_view(&self) -> AssetRegistrationResultV2View {
        AssetRegistrationResultV2View {
            asset: self.asset.deep_view(),
            registry_path: self.registry_path@,
            outcome: self.outcome,
        }
    }
}

#[derive(Clone, Debug, PartialEq, Eq)]
pub struct RegisterAssetRequestV2 {
    pub repository_root: String,
    pub provider_root: String,
    pub logical_locator: String,
    pub hydration_confirmation: HydrationConfirmationV2,
}

#[verifier::ext_equal]
pub struct RegisterAssetRequestV2View {
    pub repository_root: Seq<char>,
    pub provider_root: Seq<char>,
    pub logical_locator: Seq<char>,
    pub hydration_confirmation: HydrationConfirmationV2,
}

impl DeepView for RegisterAssetRequestV2 {
    type V = RegisterAssetRequestV2View;

    open spec fn deep_view(&self) -> RegisterAssetRequestV2View {
        RegisterAssetRequestV2View {
            repository_root: self.repository_root@,
            provider_root: self.provider_root@,
            logical_locator: self.logical_locator@,
            hydration_confirmation: self.hydration_confirmation,
        }
    }
}

#[derive(Clone, Debug, PartialEq, Eq)]
pub struct RegisterInboxAssetsRequestV2 {
    pub repository_root: String,
    pub provider_root: String,
    pub hydration_confirmation: HydrationConfirmationV2,
}

#[verifier::ext_equal]
pub struct RegisterInboxAssetsRequestV2View {
    pub repository_root: Seq<char>,
    pub provider_root: Seq<char>,
    pub hydration_confirmation: HydrationConfirmationV2,
}

impl DeepView for RegisterInboxAssetsRequestV2 {
    type V = RegisterInboxAssetsRequestV2View;

    open spec fn deep_view(&self) -> RegisterInboxAssetsRequestV2View {
        RegisterInboxAssetsRequestV2View {
            repository_root: self.repository_root@,
            provider_root: self.provider_root@,
            hydration_confirmation: self.hydration_confirmation,
        }
    }
}

/// What became of one item of the inbox.
#[derive(Clone, Debug, PartialEq, Eq)]
pub struct InboxAssetRegistrationItemV2 {
    pub logical_locator: String,
    pub registration: Option<AssetRegistrationResultV2>,
    pub error: Option<MkoError>,
}

#[verifier::ext_equal]
pub struct InboxAssetRegistrationItemV2View {
    pub logical_locator: Seq<char>,
    pub registration: Option<AssetRegistrationResultV2View>,
    pub error: Option<ErrorView>,
}

impl DeepView for InboxAssetRegistrationItemV2 {
    type V = InboxAssetRegistrationItemV2View;

    open spec fn deep_view(&self) -> InboxAssetRegistrationItemV2View {
        InboxAssetRegistrationItemV2View {
            logical_locator: self.logical_locator@,
            registration: self.registration.deep_view(),
            error: self.error.deep_view(),
        }
    }
}

/// What became of a page of the inbox.
#[derive(Clone, Debug, PartialEq, Eq)]
pub struct InboxAssetRegistrationResultV2 {
    /// False where discovery was incomplete, or where known items remain.
    pub scan_complete: bool,
    pub items: Vec<InboxAssetRegistrationItemV2>,
    pub warnings: Vec<ProviderScanWarning>,
    /// How many known items were left out.
    pub remaining: u64,
}

#[verifier::ext_equal]
pub struct InboxAssetRegistrationResultV2View {
    pub scan_complete: bool,
    pub items: Seq<InboxAssetRegistrationItemV2View>,
    pub warnings: Seq<ProviderScanWarningView>,
    pub remaining: u64,
}

impl DeepView for InboxAssetRegistrationResultV2 {
    type V = InboxAssetRegistrationResultV2View;

    open spec fn deep_view(&self) -> InboxAssetRegistrationResultV2View {
        InboxAssetRegistrationResultV2View {
            scan_complete: self.scan_complete,
            items: self.items.deep_view(),
            warnings: self.warnings.deep_view(),
            remaining: self.remaining,
        }
    }
}

/// What an inbox holds, by how far it is registered.
#[derive(Clone, Debug, PartialEq, Eq)]
pub struct InboxAssetInspectionV2 {
    pub new_count: u64,
    pub registered_count: u64,
    pub blocked_count: u64,
    pub registered_asset_ids: Vec<String>,
    pub scan_complete: bool,
}

#[verifier::ext_equal]
pub struct InboxAssetInspectionV2View {
    pub new_count: u64,
    pub registered_count: u64,
    pub blocked_count: u64,
    pub registered_asset_ids: Seq<Seq<char>>,
    pub scan_complete: bool,
}

impl DeepView for InboxAssetInspectionV2 {
    type V = InboxAssetInspectionV2View;

    open spec fn deep_view(&self) -> InboxAssetInspectionV2View {
        InboxAssetInspectionV2View {
            new_count: self.new_count,
            registered_count: self.registered_count,
            blocked_count: self.blocked_count,
            registered_asset_ids: self.registered_asset_ids.deep_view(),
            scan_complete: self.scan_complete,
        }
    }
}

/// An entry of the catalog of the inbox.
#[derive(Clone, Debug, PartialEq, Eq)]
pub enum InboxCatalogEntryV2 {
    Readable { provider_locator: String },
    Placeholder { provider_locator: String },
}

/// An item that may be registered, unless it is blocked.
#[derive(Clone, Debug, PartialEq, Eq)]
pub struct InboxCandidateV2 {
    pub locator: String,
    pub blocked: Option<MkoError>,
}

#[verifier::ext_equal]
pub struct InboxCandidateV2View {
    pub locator: Seq<char>,
    pub blocked: Option<ErrorView>,
}

impl DeepView for InboxCandidateV2 {
    type V = InboxCandidateV2View;

    open spec fn deep_view(&self) -> InboxCandidateV2View {
        InboxCandidateV2View { locator: self.locator@, blocked: self.blocked.deep_view() }
    }
}

/// What an entry of the catalog offers.
pub open spec fn offered(entry: InboxCatalogEntryV2) -> InboxCandidateV2View {
    match entry {
        InboxCatalogEntryV2::Readable { provider_locator } => InboxCandidateV2View {
            locator: provider_locator@,
            blocked: None,
        },
        InboxCatalogEntryV2::Placeholder { provider_locator } => InboxCandidateV2View {
            locator: provider_locator@,
            blocked: Some(
                error(
                    "asset_not_hydrated"@,
                    "provider PDF is not available as a fully local readable snapshot"@,
                ),
            ),
        },
    }
}

/// The place of a locator among candidates.
pub open spec fn candidate_at(candidates: Seq<InboxCandidateV2View>, locator: Seq<char>) -> Option<int>
    decreases candidates.len(),
{
    if candidates.len() == 0 {
        None
    } else if candidates.last().locator == locator {
        Some(candidates.len() - 1)
    } else {
        candidate_at(candidates.drop_last(), locator)
    }
}

/// Where a new locator belongs: behind all that do not come after it.
pub open spec fn candidate_place(candidates: Seq<InboxCandidateV2View>, locator: Seq<char>) -> int
    decreases candidates.len(),
{
    if candidates.len() == 0 || text_at_most(candidates.last().locator, locator) {
        candidates.len() as int
    } else {
        candidate_place(candidates.drop_last(), locator)
    }
}

/// The candidates with one more, which takes the place of one with the same locator.
pub open spec fn with_candidate(
    candidates: Seq<InboxCandidateV2View>,
    candidate: InboxCandidateV2View,
) -> Seq<InboxCandidateV2View> {
    match candidate_at(candidates, candidate.locator) {
        Some(at) => candidates.update(at, candidate),
        None => candidates.insert(candidate_place(candidates, candidate.locator), candidate),
    }
}

/// The candidates that the first `n` entries offer.
pub open spec fn offered_candidates(entries: Seq<InboxCatalogEntryV2>, n: int) -> Seq<
    InboxCandidateV2View,
>
    decreases n,
{
    if n <= 0 {
        Seq::empty()
    } else {
        with_candidate(offered_candidates(entries, n - 1), offered(entries[n - 1]))
    }
}

/// The candidates and the general warnings after the first `n` warnings: one that names a
/// locator blocks it, unless the locator is known already.
pub open spec fn warned_candidates(
    entries: Seq<InboxCatalogEntryV2>,
    warnings: Seq<ProviderScanWarningView>,
    n: int,
) -> (Seq<InboxCandidateV2View>, Seq<ProviderScanWarningView>)
    decreases n,
{
    if n <= 0 {
        (offered_candidates(entries, entries.len() as int), Seq::empty())
    } else {
        let (candidates, kept) = warned_candidates(entries, warnings, n - 1);
        let warning = warnings[n - 1];
        match warning.provider_locator {
            None => (candidates, kept.push(warning)),
            Some(locator) => if candidate_at(candidates, locator) is Some {
                (candidates, kept.push(warning))
            } else {
                (
                    with_candidate(
                        candidates,
                        InboxCandidateV2View {
                            locator,
                            blocked: Some(error(warning.code, warning.message)),
                        },
                    ),
                    kept,
                )
            },
        }
    }
}

/// A warning about one known item, which hides no other.
pub open spec fn is_item_warning(warning: ProviderScanWarningView) -> bool {
    &&& warning.provider_locator is Some
    &&& warning.code == "invalid_pdf"@ || warning.code == "file_too_large"@ || warning.code
        == "pdf_too_large"@ || warning.code == "fingerprint_changed"@ || warning.code
        == "scan_file_unreadable"@
}

fn item_warning_preserves_scan_completeness(warning: &ProviderScanWarning) -> (result: bool)
    ensures
        result == is_item_warning(warning.deep_view()),
{
    let code = warning.code.as_str();
    warning.provider_locator.is_some() && (same(code, "invalid_pdf") || same(code, "file_too_large")
        || same(code, "pdf_too_large") || same(code, "fingerprint_changed") || same(
        code,
        "scan_file_unreadable",
    ))
}

impl Ranked for ProviderScanWarning {
    open spec fn leq(left: ProviderScanWarningView, right: ProviderScanWarningView) -> bool {
        if left.code != right.code {
            text_at_most(left.code, right.code)
        } else {
            option_at_most(left.provider_locator, right.provider_locator)
        }
    }

    proof fn leq_total(left: ProviderScanWarningView, right: ProviderScanWarningView) {
        text_total(left.code, right.code);
        option_total(left.provider_locator, right.provider_locator);
    }

    proof fn leq_transitive(
        a: ProviderScanWarningView,
        b: ProviderScanWarningView,
        c: ProviderScanWarningView,
    ) {
        if a.code == b.code && b.code == c.code {
            option_transitive(a.provider_locator, b.provider_locator, c.provider_locator);
        } else if a.code == c.code {
            text_order_is_antisymmetric(a.code, b.code);
        } else if a.code != b.code && b.code != c.code {
            text_transitive(a.code, b.code, c.code);
        }
    }

    fn ranks_at_most(&self, other: &Self) -> (result: bool) {
        if !same(self.code.as_str(), other.code.as_str()) {
            not_after(self.code.as_str(), other.code.as_str())
        } else {
            option_not_after(&self.provider_locator, &other.provider_locator)
        }
    }
}

/// A page of the inbox: what is registered, and what is told beside it.
#[derive(Debug)]
pub struct InboxPageV2 {
    pub candidates: Vec<InboxCandidateV2>,
    pub warnings: Vec<ProviderScanWarning>,
    pub remaining: u64,
    pub scan_complete: bool,
}

#[verifier::ext_equal]
pub struct InboxPageV2View {
    pub candidates: Seq<InboxCandidateV2View>,
    pub warnings: Seq<ProviderScanWarningView>,
    pub remaining: u64,
    pub scan_complete: bool,
}

impl DeepView for InboxPageV2 {
    type V = InboxPageV2View;

    open spec fn deep_view(&self) -> InboxPageV2View {
        InboxPageV2View {
            candidates: self.candidates.deep_view(),
            warnings: self.warnings.deep_view(),
            remaining: self.remaining,
            scan_complete: self.scan_complete,
        }
    }
}

/// All that the catalog told was told of known items.
pub open spec fn discovery_is_complete(scan_complete: bool, warnings: Seq<ProviderScanWarningView>) -> bool {
    scan_complete || forall|i: int|
        0 <= i < warnings.len() ==> is_item_warning(#[trigger] warnings[i])
}

/// The warning that items were left out.
pub open spec fn left_out(remaining: nat) -> ProviderScanWarningView {
    ProviderScanWarningView {
        code: "batch_item_limit"@,
        message: decimal_digits(remaining)
            + " additional discovered Inbox item(s) remain outside this bounded batch"@,
        provider_locator: None,
    }
}

/// The first page of the candidates, in the order of their locators.
pub open spec fn inbox_page(
    scan_complete: bool,
    entries: Seq<InboxCatalogEntryV2>,
    warnings: Seq<ProviderScanWarningView>,
    batch_limit: u64,
) -> InboxPageV2View {
    let (candidates, kept) = warned_candidates(entries, warnings, warnings.len() as int);
    let remaining = if candidates.len() > batch_limit {
        (candidates.len() - batch_limit) as nat
    } else {
        0
    };
    InboxPageV2View {
        candidates: if candidates.len() > batch_limit {
            candidates.take(batch_limit as int)
        } else {
            candidates
        },
        warnings: stable_sort::<ProviderScanWarning>(
            if remaining > 0 {
                kept.push(left_out(remaining))
            } else {
                kept
            },
        ),
        remaining: remaining as u64,
        scan_complete: discovery_is_complete(scan_complete, warnings) && remaining == 0,
    }
}

fn find_candidate(candidates: &Vec<InboxCandidateV2>, locator: &str) -> (found: Option<usize>)
    ensures
        match found {
            Some(at) => at < candidates@.len() && candidate_at(candidates.deep_view(), locator@)
                == Some(at as int),
            None => candidate_at(candidates.deep_view(), locator@) is None,
        },
{
    let ghost all = candidates.deep_view();
    let mut n: usize = candidates.len();
    assert(all.take(n as int) == all);
    while n > 0
        invariant
            n <= candidates.len(),
            all == candidates.deep_view(),
            candidate_at(all, locator@) == candidate_at(all.take(n as int), locator@),
        decreases n,
    {
        assert(all.take(n as int).drop_last() == all.take(n - 1));
        assert(all.take(n as int).last() == candidates@[n - 1].deep_view());
        if same(candidates[n - 1].locator.as_str(), locator) {
            return Some(n - 1);
        }
        n -= 1;
    }
    None
}

fn find_candidate_place(candidates: &Vec<InboxCandidateV2>, locator: &str) -> (place: usize)
    ensures
        place <= candidates@.len(),
        place == candidate_place(candidates.deep_view(), locator@),
{
    let ghost all = candidates.deep_view();
    let mut n: usize = candidates.len();
    assert(all.take(n as int) == all);
    while n > 0
        invariant
            n <= candidates.len(),
            all == candidates.deep_view(),
            candidate_place(all, locator@) == candidate_place(all.take(n as int), locator@),
        decreases n,
    {
        assert(all.take(n as int).drop_last() == all.take(n - 1));
        assert(all.take(n as int).last() == candidates@[n - 1].deep_view());
        if not_after(candidates[n - 1].locator.as_str(), locator) {
            return n;
        }
        n -= 1;
    }
    0
}

fn put_candidate(candidates: &mut Vec<InboxCandidateV2>, candidate: InboxCandidateV2)
    ensures
        final(candidates).deep_view() == with_candidate(
            old(candidates).deep_view(),
            candidate.deep_view(),
        ),
{
    let ghost before = candidates.deep_view();
    let ghost view = candidate.deep_view();
    match find_candidate(candidates, candidate.locator.as_str()) {
        Some(at) => {
            candidates.set(at, candidate);
            assert(candidates.deep_view() == before.update(at as int, view));
        },
        None => {
            let place = find_candidate_place(candidates, candidate.locator.as_str());
            candidates.insert(place, candidate);
            assert(candidates.deep_view() == before.insert(place as int, view));
        },
    }
}

fn offer(entry: &InboxCatalogEntryV2) -> (candidate: InboxCandidateV2)
    ensures
        candidate.deep_view() == offered(*entry),
{
    match entry {
        InboxCatalogEntryV2::Readable { provider_locator } => InboxCandidateV2 {
            locator: provider_locator.clone(),
            blocked: None,
        },
        InboxCatalogEntryV2::Placeholder { provider_locator } => InboxCandidateV2 {
            locator: provider_locator.clone(),
            blocked: Some(
                MkoError::new(
                    "asset_not_hydrated",
                    "provider PDF is not available as a fully local readable snapshot",
                ),
            ),
        },
    }
}

#[verifier::loop_isolation(false)]
fn collect_candidates(entries: &Vec<InboxCatalogEntryV2>) -> (candidates: Vec<InboxCandidateV2>)
    ensures
        candidates.deep_view() == offered_candidates(entries@, entries@.len() as int),
{
    let mut candidates: Vec<InboxCandidateV2> = Vec::new();
    let mut i: usize = 0;
    assert(candidates.deep_view() == Seq::<InboxCandidateV2View>::empty());
    while i < entries.len()
        invariant
            i <= entries.len(),
            candidates.deep_view() == offered_candidates(entries@, i as int),
        decreases entries.len() - i,
    {
        let candidate = offer(&entries[i]);
        put_candidate(&mut candidates, candidate);
        i += 1;
    }
    candidates
}

#[verifier::loop_isolation(false)]
fn all_item_warnings(warnings: &Vec<ProviderScanWarning>) -> (result: bool)
    ensures
        result == forall|i: int|
            0 <= i < warnings.deep_view().len() ==> is_item_warning(
                #[trigger] warnings.deep_view()[i],
            ),
{
    let ghost all = warnings.deep_view();
    let mut i: usize = 0;
    while i < warnings.len()
        invariant
            i <= warnings.len(),
            forall|k: int| 0 <= k < i ==> is_item_warning(#[trigger] all[k]),
        decreases warnings.len() - i,
    {
        assert(all[i as int] == warnings@[i as int].deep_view());
        if !item_warning_preserves_scan_completeness(&warnings[i]) {
            return false;
        }
        i += 1;
    }
    true
}

/// Pages the catalog of an inbox.
#[verifier::loop_isolation(false)]
pub fn page_inbox_catalog_v2(
    scan_complete: bool,
    entries: &Vec<InboxCatalogEntryV2>,
    warnings: &Vec<ProviderScanWarning>,
    batch_limit: u64,
) -> (page: InboxPageV2)
    ensures
        page.deep_view() == inbox_page(scan_complete, entries@, warnings.deep_view(), batch_limit),
{
    let ghost told = warnings.deep_view();
    let complete = scan_complete || all_item_warnings(warnings);
    let mut candidates = collect_candidates(entries);
    let mut kept: Vec<ProviderScanWarning> = Vec::new();
    let mut i: usize = 0;
    assert(kept.deep_view() == Seq::<ProviderScanWarningView>::empty());
    while i < warnings.len()
        invariant
            i <= warnings.len(),
            (candidates.deep_view(), kept.deep_view()) == warned_candidates(
                entries@,
                told,
                i as int,
            ),
        decreases warnings.len() - i,
    {
        let warning = &warnings[i];
        assert(told[i as int] == warning.deep_view());
        let ghost before = kept.deep_view();
        let known = match &warning.provider_locator {
            None => true,
            Some(locator) => find_candidate(&candidates, locator.as_str()).is_some(),
        };
        if known {
            let copy = warning.duplicate();
            kept.push(copy);
            assert(kept.deep_view() == before.push(copy.deep_view()));
        } else {
            match &warning.provider_locator {
                Some(locator) => {
                    let candidate = InboxCandidateV2 {
                        locator: locator.clone(),
                        blocked: Some(
                            MkoError::new(warning.code.as_str(), warning.message.as_str()),
                        ),
                    };
                    put_candidate(&mut candidates, candidate);
                },
                None => {},
            }
        }
        i += 1;
    }
    let ghost all = candidates.deep_view();
    let count: u64 = candidates.len() as u64;
    let mut remaining: u64 = 0;
    if count > batch_limit {
        remaining = count - batch_limit;
        let digits = decimal(remaining);
        let warning = ProviderScanWarning {
            code: "batch_item_limit".to_owned(),
            message: cat2(
                digits.as_str(),
                " additional discovered Inbox item(s) remain outside this bounded batch",
            ),
            provider_locator: None,
        };
        let ghost before = kept.deep_view();
        kept.push(warning);
        assert(kept.deep_view() == before.push(warning.deep_view()));
        candidates.truncate(batch_limit as usize);
        assert(candidates.deep_view() == all.take(batch_limit as int));
    }
    let sorted = sort(kept);
    InboxPageV2 {
        candidates,
        warnings: sorted,
        remaining,
        scan_complete: complete && remaining == 0,
    }
}

/// What a registration came to.
pub open spec fn registration_outcomes(
    registrations: Seq<Result<AssetRegistrationResultV2, MkoError>>,
) -> Seq<Result<AssetRegistrationResultV2View, ErrorView>> {
    registrations.map_values(
        |registration: Result<AssetRegistrationResultV2, MkoError>| outcome(registration),
    )
}

/// The items of a page: what is blocked is told, and the registrations of the others, in
/// their order, are told beside them.
pub open spec fn page_items(
    candidates: Seq<InboxCandidateV2View>,
    registrations: Seq<Result<AssetRegistrationResultV2View, ErrorView>>,
) -> Seq<InboxAssetRegistrationItemV2View>
    decreases candidates.len(),
{
    if candidates.len() == 0 {
        Seq::empty()
    } else {
        let candidate = candidates[0];
        let (item, rest) = match candidate.blocked {
            Some(failure) => (
                InboxAssetRegistrationItemV2View {
                    logical_locator: candidate.locator,
                    registration: None,
                    error: Some(failure),
                },
                registrations,
            ),
            None => (
                InboxAssetRegistrationItemV2View {
                    logical_locator: candidate.locator,
                    registration: match registrations[0] {
                        Ok(done) => Some(done),
                        Err(_) => None,
                    },
                    error: match registrations[0] {
                        Ok(_) => None,
                        Err(failure) => Some(failure),
                    },
                },
                registrations.drop_first(),
            ),
        };
        seq![item] + page_items(candidates.drop_first(), rest)
    }
}

/// How many of the candidates are registered.
pub open spec fn unblocked_count(candidates: Seq<InboxCandidateV2View>) -> nat
    decreases candidates.len(),
{
    if candidates.len() == 0 {
        0
    } else {
        unblocked_count(candidates.drop_first()) + (if candidates[0].blocked is None {
            1nat
        } else {
            0nat
        })
    }
}

/// Puts the registrations of a page beside its items: `registrations` holds one for each
/// item that is not blocked, in their order.
#[verifier::loop_isolation(false)]
pub fn apply_inbox_catalog_v2(
    page: InboxPageV2,
    registrations: Vec<Result<AssetRegistrationResultV2, MkoError>>,
) -> (result: InboxAssetRegistrationResultV2)
    requires
        registrations@.len() == unblocked_count(page.deep_view().candidates),
    ensures
        result.deep_view() == (InboxAssetRegistrationResultV2View {
            scan_complete: page.deep_view().scan_complete,
            items: page_items(
                page.deep_view().candidates,
                registration_outcomes(registrations@),
            ),
            warnings: page.deep_view().warnings,
            remaining: page.deep_view().remaining,
        }),
{
    let ghost all = page.candidates.deep_view();
    let ghost given = registration_outcomes(registrations@);
    let mut left = registrations;
    let mut items: Vec<InboxAssetRegistrationItemV2> = Vec::new();
    let mut i: usize = 0;
    assert(all.skip(0) == all);
    assert(items.deep_view() + page_items(all.skip(0), given) == page_items(all, given));
    while i < page.candidates.len()
        invariant
            i <= page.candidates.len(),
            left@.len() == unblocked_count(all.skip(i as int)),
            items.deep_view() + page_items(
                all.skip(i as int),
                registration_outcomes(left@),
            ) == page_items(all, given),
        decreases page.candidates.len() - i,
    {
        let ghost rest = all.skip(i as int);
        let ghost before = items.deep_view();
        let ghost pending = registration_outcomes(left@);
        let candidate = &page.candidates[i];
        assert(rest[0] == candidate.deep_view());
        assert(rest.drop_first() == all.skip(i + 1));
        let item = match &candidate.blocked {
            Some(failure) => InboxAssetRegistrationItemV2 {
                logical_locator: candidate.locator.clone(),
                registration: None,
                error: Some(failure.duplicate()),
            },
            None => {
                let ghost held = left@;
                let first = left.remove(0);
                assert(registration_outcomes(left@) == pending.drop_first());
                assert(pending[0] == outcome(held[0]));
                match first {
                    Ok(done) => InboxAssetRegistrationItemV2 {
                        logical_locator: candidate.locator.clone(),
                        registration: Some(done),
                        error: None,
                    },
                    Err(failure) => InboxAssetRegistrationItemV2 {
                        logical_locator: candidate.locator.clone(),
                        registration: None,
                        error: Some(failure),
                    },
                }
            },
        };
        let ghost told = item.deep_view();
        items.push(item);
        assert(items.deep_view() == before.push(told));
        assert(before + (seq![told] + page_items(
            all.skip(i + 1),
            registration_outcomes(left@),
        )) == before.push(told) + page_items(all.skip(i + 1), registration_outcomes(left@)));
        i += 1;
    }
    assert(all.skip(i as int).len() == 0);
    assert(items.deep_view() == page_items(all, given));
    InboxAssetRegistrationResultV2 {
        scan_complete: page.scan_complete,
        items,
        warnings: page.warnings,
        remaining: page.remaining,
    }
}

/// What stands at the place of the record of an Asset.
#[derive(Clone, Copy, Debug, PartialEq, Eq, Structural)]
pub enum RegistryEntryState {
    Absent,
    Unreadable,
    Valid,
    Invalid,
}

/// An entry of the inbox as an inspection finds it.
#[derive(Clone, Debug, PartialEq, Eq)]
pub enum InspectedInboxEntryV2 {
    Placeholder,
    Readable { fingerprint: Fingerprint, registry: RegistryEntryState },
}

/// An inspection that has found nothing yet.
pub open spec fn empty_inspection(scan_complete: bool) -> InboxAssetInspectionV2View {
    InboxAssetInspectionV2View {
        new_count: 0,
        registered_count: 0,
        blocked_count: 0,
        registered_asset_ids: Seq::empty(),
        scan_complete,
    }
}

/// The inspection with one more entry.
pub open spec fn inspected_with(
    before: InboxAssetInspectionV2View,
    entry: InspectedInboxEntryV2,
) -> Result<InboxAssetInspectionV2View, ErrorView> {
    match entry {
        InspectedInboxEntryV2::Placeholder => Ok(
            InboxAssetInspectionV2View {
                blocked_count: (before.blocked_count + 1) as u64,
                ..before
            },
        ),
        InspectedInboxEntryV2::Readable { fingerprint, registry } => match asset_id_of(
            fingerprint.deep_view(),
        ) {
            Err(failure) => Err(failure),
            Ok(id) => Ok(
                match registry {
                    RegistryEntryState::Absent => InboxAssetInspectionV2View {
                        new_count: (before.new_count + 1) as u64,
                        ..before
                    },
                    RegistryEntryState::Valid => InboxAssetInspectionV2View {
                        registered_count: (before.registered_count + 1) as u64,
                        registered_asset_ids: before.registered_asset_ids.push(id),
                        ..before
                    },
                    _ => InboxAssetInspectionV2View {
                        blocked_count: (before.blocked_count + 1) as u64,
                        ..before
                    },
                },
            ),
        },
    }
}

/// The inspection of the first `n` entries.
pub open spec fn inspected_entries(
    scan_complete: bool,
    entries: Seq<InspectedInboxEntryV2>,
    n: int,
) -> Result<InboxAssetInspectionV2View, ErrorView>
    decreases n,
{
    if n <= 0 {
        Ok(empty_inspection(scan_complete))
    } else {
        match inspected_entries(scan_complete, entries, n - 1) {
            Err(failure) => Err(failure),
            Ok(before) => inspected_with(before, entries[n - 1]),
        }
    }
}

/// The inspection of an inbox: every warning counts as something that is blocked.
pub open spec fn inbox_inspection(
    scan_complete: bool,
    entries: Seq<InspectedInboxEntryV2>,
    warning_count: u64,
) -> Result<InboxAssetInspectionV2View, ErrorView> {
    match inspected_entries(scan_complete, entries, entries.len() as int) {
        Err(failure) => Err(failure),
        Ok(found) => Ok(
            InboxAssetInspectionV2View {
                blocked_count: if found.blocked_count + warning_count > u64::MAX {
                    u64::MAX
                } else {
                    (found.blocked_count + warning_count) as u64
                },
                ..found
            },
        ),
    }
}

proof fn inspection_fails_on(
    scan_complete: bool,
    entries: Seq<InspectedInboxEntryV2>,
    n: int,
    m: int,
)
    requires
        0 <= n <= m <= entries.len(),
        inspected_entries(scan_complete, entries, n) is Err,
    ensures
        inspected_entries(scan_complete, entries, m) == inspected_entries(
            scan_complete,
            entries,
            n,
        ),
    decreases m,
{
    if n < m {
        inspection_fails_on(scan_complete, entries, n, m - 1);
    }
}

/// Inspects an inbox without changing anything.
#[verifier::loop_isolation(false)]
pub fn inspect_inbox_pdf_assets_v2(
    scan_complete: bool,
    entries: &Vec<InspectedInboxEntryV2>,
    warning_count: u64,
) -> (result: Result<InboxAssetInspectionV2, MkoError>)
    ensures
        outcome(result) == inbox_inspection(scan_complete, entries@, warning_count),
{
    let mut found = InboxAssetInspectionV2 {
        new_count: 0,
        registered_count: 0,
        blocked_count: 0,
        registered_asset_ids: Vec::new(),
        scan_complete,
    };
    let mut i: usize = 0;
    assert(found.registered_asset_ids.deep_view() == Seq::<Seq<char>>::empty());
    while i < entries.len()
        invariant
            i <= entries.len(),
            found.new_count + found.registered_count + found.blocked_count == i,
            inspected_entries(scan_complete, entries@, i as int) == Ok::<
                InboxAssetInspectionV2View,
                ErrorView,
            >(found.deep_view()),
        decreases entries.len() - i,
    {
        match &entries[i] {
            InspectedInboxEntryV2::Placeholder => {
                found.blocked_count = found.blocked_count + 1;
            },
            InspectedInboxEntryV2::Readable { fingerprint, registry } => {
                let id = match asset_id(fingerprint) {
                    Ok(id) => id,
                    Err(failure) => {
                        proof {
                            inspection_fails_on(
                                scan_complete,
                                entries@,
                                i + 1,
                                entries@.len() as int,
                            );
                        }
                        return Err(failure);
                    },
                };
                match *registry {
                    RegistryEntryState::Absent => {
                        found.new_count = found.new_count + 1;
                    },
                    RegistryEntryState::Valid => {
                        let ghost before = found.registered_asset_ids.deep_view();
                        let ghost told = id@;
                        found.registered_count = found.registered_count + 1;
                        found.registered_asset_ids.push(id);
                        assert(found.registered_asset_ids.deep_view() == before.push(told));
                    },
                    _ => {
                        found.blocked_count = found.blocked_count + 1;
                    },
                }
            },
        }
        i += 1;
    }
    found.blocked_count = found.blocked_count.saturating_add(warning_count);
    Ok(found)
}

/// The rule on Asset IDs.
pub open spec fn asset_id_check(id: Seq<char>) -> Result<(), ErrorView> {
    if prefixed_hash(id, "personal-asset-"@) is Some {
        Ok(())
    } else {
        Err(
            error(
                "asset_id_invalid"@,
                "Asset ID must contain a full lowercase SHA-256 fingerprint"@,
            ),
        )
    }
}

pub fn validate_asset_id(id: &str) -> (result: Result<(), MkoError>)
    ensures
        verdict(result) == asset_id_check(id@),
{
    if valid_prefixed_hash(id, "personal-asset-").is_some() {
        Ok(())
    } else {
        Err(
            MkoError::new(
                "asset_id_invalid",
                "Asset ID must contain a full lowercase SHA-256 fingerprint",
            ),
        )
    }
}

/// A record whose ID is its fingerprint, of a PDF at a portable place.
pub open spec fn is_asset_record(asset: AssetRecordV2View) -> bool {
    &&& asset.schema_version == 2
    &&& after_prefix(asset.fingerprint, "sha256:"@) matches Some(hash) && asset.id
        == "personal-asset-"@ + hash
    &&& asset.title_fallback.len() > 0
    &&& encode_utf8(asset.title_fallback).len() <= MAX_TITLE_FALLBACK_BYTES
    &&& asset.media_type == "application/pdf"@
    &&& asset.provider.provider_type == "google-drive-filesystem"@
    &&& asset.provider.size_bytes <= MAX_ASSET_BYTES
    &&& portable_path(asset.provider.logical_locator) is Ok
}

pub open spec fn asset_record_check(asset: AssetRecordV2View) -> Result<(), ErrorView> {
    match asset_id_check(asset.id) {
        Err(failure) => Err(failure),
        Ok(_) => if is_asset_record(asset) {
            Ok(())
        } else {
            Err(
                error(
                    "asset_record_invalid"@,
                    "Asset registry record violates the schema-v2 PDF identity contract"@,
                ),
            )
        },
    }
}

/// Checks the record of an Asset.
pub fn validate_asset_record_v2(asset: &AssetRecordV2) -> (result: Result<(), MkoError>)
    ensures
        verdict(result) == asset_record_check(asset.deep_view()),
{
    match validate_asset_id(asset.id.as_str()) {
        Ok(_) => {},
        Err(failure) => {
            return Err(failure);
        },
    }
    let addressed = match strip_prefix(asset.fingerprint.as_str(), "sha256:") {
        Some(hash) => {
            let expected = cat2("personal-asset-", hash);
            same(asset.id.as_str(), expected.as_str())
        },
        None => false,
    };
    if asset.schema_version != 2 || !addressed || asset.title_fallback.as_str().is_empty()
        || byte_len(asset.title_fallback.as_str()) > MAX_TITLE_FALLBACK_BYTES || !same(
        asset.media_type.as_str(),
        "application/pdf",
    ) || !same(asset.provider.provider_type.as_str(), "google-drive-filesystem")
        || asset.provider.size_bytes > MAX_ASSET_BYTES || validate_portable_relative_path(
        asset.provider.logical_locator.as_str(),
    ).is_err() {
        return Err(
            MkoError::new(
                "asset_record_invalid",
                "Asset registry record violates the schema-v2 PDF identity contract",
            ),
        );
    }
    Ok(())
}

/// The rule on reading what may have to be downloaded first.
pub open spec fn hydration_check(
    size_bytes: u64,
    threshold_bytes: u64,
    confirmation: HydrationConfirmationV2,
) -> Result<(), ErrorView> {
    if size_bytes > MAX_ASSET_BYTES {
        Err(
            error(
                "file_too_large"@,
                "PDF exceeds 50 MiB; use the documented manual processing path"@,
            ),
        )
    } else if size_bytes > threshold_bytes && confirmation != HydrationConfirmationV2::Confirmed {
        Err(
            error(
                "hydration_confirmation_required"@,
                "provider reports "@ + decimal_digits(size_bytes as nat)
                    + " bytes; exact identity requires a complete read or download"@,
            ),
        )
    } else {
        Ok(())
    }
}

pub fn require_hydration_confirmation(
    size_bytes: u64,
    threshold_bytes: u64,
    confirmation: HydrationConfirmationV2,
) -> (result: Result<(), MkoError>)
    ensures
        verdict(result) == hydration_check(size_bytes, threshold_bytes, confirmation),
{
    if size_bytes > MAX_ASSET_BYTES {
        return Err(
            MkoError::new(
                "file_too_large",
                "PDF exceeds 50 MiB; use the documented manual processing path",
            ),
        );
    }
    if size_bytes > threshold_bytes && confirmation != HydrationConfirmationV2::Confirmed {
        let digits = decimal(size_bytes);
        let message = cat3(
            "provider reports ",
            digits.as_str(),
            " bytes; exact identity requires a complete read or download",
        );
        return Err(MkoError::new("hydration_confirmation_required", message.as_str()));
    }
    Ok(())
}

/// The root of a repository or of a provider: `canonical` is its canonical path, where it
/// is a real directory.
pub fn canonical_real_directory(
    code: &str,
    is_real_directory: bool,
    canonical: Result<String, String>,
) -> (result: Result<String, MkoError>)
    ensures
        outcome(result) == (if !is_real_directory {
            Err(error(code@, "root must be a real directory"@))
        } else {
            match canonical {
                Ok(path) => Ok(path@),
                Err(detail) => Err(error(code@, detail@)),
            }
        }),
{
    if !is_real_directory {
        return Err(MkoError::new(code, "root must be a real directory"));
    }
    match canonical {
        Ok(path) => Ok(path),
        Err(detail) => Err(MkoError::new(code, detail.as_str())),
    }
}

/// Neither root stands within the other.
pub open spec fn roots_check(repository_root: LocalPathView, provider_root: LocalPathView) -> Result<
    (),
    ErrorView,
> {
    if is_within(repository_root, provider_root) || is_within(provider_root, repository_root) {
        Err(
            error(
                "storage_roots_overlap"@,
                "the Git KB and provider roots must be disjoint so local plaintext cannot enter the provider"@,
            ),
        )
    } else {
        Ok(())
    }
}

pub fn validated_disjoint_roots(repository_root: &LocalPath, provider_root: &LocalPath) -> (result:
    Result<(), MkoError>)
    ensures
        verdict(result) == roots_check(repository_root.deep_view(), provider_root.deep_view()),
{
    if within(repository_root, provider_root) || within(provider_root, repository_root) {
        return Err(
            MkoError::new(
                "storage_roots_overlap",
                "the Git KB and provider roots must be disjoint so local plaintext cannot enter the provider",
            ),
        );
    }
    Ok(())
}

/// The place of a PDF below the provider must be portable and in its canonical spelling.
pub open spec fn locator_check(locator: Seq<char>) -> Result<(), ErrorView> {
    match portable_path(locator) {
        Err(failure) => Err(failure),
        Ok(_) => if nfc(locator) != locator {
            Err(
                error(
                    "path_not_portable"@,
                    "provider locator must already use canonical NFC spelling"@,
                ),
            )
        } else {
            Ok(())
        },
    }
}

/// The names that lead to a PDF below the provider: directories, and the file last.
pub fn provider_file_steps(locator: &str) -> (result: Result<Vec<String>, MkoError>)
    ensures
        outcome(result) == (match locator_check(locator@) {
            Err(failure) => Err(failure),
            Ok(_) => if path_names(locator@).len() == 0 {
                Err(error("path_not_portable"@, "provider locator must name a file"@))
            } else {
                Ok(path_names(locator@))
            },
        }),
{
    match validate_portable_relative_path(locator) {
        Ok(_) => {},
        Err(failure) => {
            return Err(failure);
        },
    }
    let normalized = to_nfc(locator);
    if !same(normalized.as_str(), locator) {
        return Err(
            MkoError::new(
                "path_not_portable",
                "provider locator must already use canonical NFC spelling",
            ),
        );
    }
    let names = names_of(locator);
    if names.len() == 0 {
        return Err(MkoError::new("path_not_portable", "provider locator must name a file"));
    }
    Ok(names)
}

/// What was found on the way to a PDF.
#[derive(Clone, Debug, PartialEq, Eq)]
pub enum ProviderStep {
    /// A real directory.
    Directory,
    /// Something that could not be opened as a directory.
    Unopened,
    /// A link, or something that is no directory.
    NotDirectory,
}

/// A directory on the way to a PDF must be a real one.
pub fn check_provider_step(step: &ProviderStep) -> (result: Result<(), MkoError>)
    ensures
        verdict(result) == (match *step {
            ProviderStep::Directory => Ok(()),
            ProviderStep::Unopened => Err(
                error(
                    "outside_allowed_root"@,
                    "provider locator contains an unreadable link or non-directory"@,
                ),
            ),
            ProviderStep::NotDirectory => Err(
                error(
                    "outside_allowed_root"@,
                    "provider locator contains a link or non-directory"@,
                ),
            ),
        }),
{
    match step {
        ProviderStep::Directory => Ok(()),
        ProviderStep::Unopened => Err(
            MkoError::new(
                "outside_allowed_root",
                "provider locator contains an unreadable link or non-directory",
            ),
        ),
        ProviderStep::NotDirectory => Err(
            MkoError::new(
                "outside_allowed_root",
                "provider locator contains a link or non-directory",
            ),
        ),
    }
}

/// What was found at the place of a PDF.
#[derive(Clone, Debug, PartialEq, Eq)]
pub enum ProviderFile {
    Absent { detail: String },
    Unreadable { detail: String },
    NotRegular,
    Regular { size_bytes: u64 },
}

/// A PDF must be a regular file; its size is told.
pub fn inspect_provider_file(file: &ProviderFile) -> (result: Result<u64, MkoError>)
    ensures
        match *file {
            ProviderFile::Regular { size_bytes } => result == Ok::<u64, MkoError>(size_bytes),
            ProviderFile::Absent { detail } => result matches Err(failure) && failure.deep_view()
                == error("asset_not_hydrated"@, detail@),
            ProviderFile::Unreadable { detail } => result matches Err(failure)
                && failure.deep_view() == error("file_unreadable"@, detail@),
            ProviderFile::NotRegular => result matches Err(failure) && failure.deep_view() == error(
                "file_unreadable"@,
                "provider Asset must be a regular non-link file"@,
            ),
        },
{
    match file {
        ProviderFile::Regular { size_bytes } => Ok(*size_bytes),
        ProviderFile::Absent { detail } => Err(
            MkoError::new("asset_not_hydrated", detail.as_str()),
        ),
        ProviderFile::Unreadable { detail } => Err(
            MkoError::new("file_unreadable", detail.as_str()),
        ),
        ProviderFile::NotRegular => Err(
            MkoError::new("file_unreadable", "provider Asset must be a regular non-link file"),
        ),
    }
}

pub open spec fn provider_changed() -> ErrorView {
    error(
        "registered_asset_changed"@,
        "provider content no longer matches the exact registered Asset snapshot"@,
    )
}

fn provider_changed_error() -> (failure: MkoError)
    ensures
        failure.deep_view() == provider_changed(),
{
    MkoError::new(
        "registered_asset_changed",
        "provider content no longer matches the exact registered Asset snapshot",
    )
}

/// The file that was opened must be the one that was inspected. `opened` is nothing where
/// the provider did not give it.
pub fn check_opened_file(opened: &Option<ProviderFile>, size_bytes: u64) -> (result: Result<
    (),
    MkoError,
>)
    ensures
        verdict(result) == (match *opened {
            None => Err(
                error(
                    "asset_not_hydrated"@,
                    "provider did not expose a fully local readable Asset snapshot"@,
                ),
            ),
            Some(ProviderFile::Regular { size_bytes: found }) => if found == size_bytes {
                Ok(())
            } else {
                Err(provider_changed())
            },
            Some(_) => Err(provider_changed()),
        }),
{
    match opened {
        None => Err(
            MkoError::new(
                "asset_not_hydrated",
                "provider did not expose a fully local readable Asset snapshot",
            ),
        ),
        Some(file) => match file {
            ProviderFile::Regular { size_bytes: found } => if *found == size_bytes {
                Ok(())
            } else {
                Err(provider_changed_error())
            },
            _ => Err(provider_changed_error()),
        },
    }
}

/// The title that a record falls back to: the name of the file.
pub open spec fn fallback_title(locator: Seq<char>) -> Result<Seq<char>, ErrorView> {
    match file_name(locator) {
        None => Err(
            error("path_not_portable"@, "provider locator has no UTF-8 filename"@),
        ),
        Some(name) => if nfc(name).len() == 0 || encode_utf8(nfc(name)).len()
            > MAX_TITLE_FALLBACK_BYTES {
            Err(error("asset_record_invalid"@, "Asset title fallback is invalid"@))
        } else {
            Ok(nfc(name))
        },
    }
}

fn title_fallback(locator: &str) -> (result: Result<String, MkoError>)
    ensures
        outcome(result) == fallback_title(locator@),
{
    let name = match file_name_of(locator) {
        Some(name) => name,
        None => {
            return Err(
                MkoError::new("path_not_portable", "provider locator has no UTF-8 filename"),
            );
        },
    };
    let title = to_nfc(name.as_str());
    if title.as_str().is_empty() || byte_len(title.as_str()) > MAX_TITLE_FALLBACK_BYTES {
        return Err(MkoError::new("asset_record_invalid", "Asset title fallback is invalid"));
    }
    Ok(title)
}

/// The record of a PDF that was read.
pub open spec fn record_of(
    locator: Seq<char>,
    provider_type: Seq<char>,
    inspected_size: u64,
    snapshot: FileSnapshotView,
) -> Result<AssetRecordV2View, ErrorView> {
    if snapshot.size_bytes != inspected_size {
        Err(provider_changed())
    } else {
        match asset_id_of(snapshot.fingerprint) {
            Err(failure) => Err(failure),
            Ok(id) => match fallback_title(locator) {
                Err(failure) => Err(failure),
                Ok(title) => {
                    let record = AssetRecordV2View {
                        schema_version: 2,
                        id,
                        record_type: AssetRecordTypeV2::Asset,
                        fingerprint: snapshot.fingerprint.value,
                        title_fallback: title,
                        media_type: "application/pdf"@,
                        provider: AssetProviderBindingV2View {
                            provider_type,
                            logical_locator: nfc(locator),
                            size_bytes: snapshot.size_bytes,
                            modified_at: Some(snapshot.modified_at),
                        },
                    };
                    match asset_record_check(record) {
                        Err(failure) => Err(failure),
                        Ok(_) => Ok(record),
                    }
                },
            },
        }
    }
}

/// Makes the record of a PDF that was inspected and then read.
pub fn draft_asset_record(
    locator: &str,
    provider_type: &str,
    inspected_size: u64,
    snapshot: &FileSnapshot,
) -> (result: Result<AssetRecordV2, MkoError>)
    ensures
        outcome(result) == record_of(locator@, provider_type@, inspected_size, snapshot.deep_view()),
{
    if snapshot.size_bytes != inspected_size {
        return Err(provider_changed_error());
    }
    let id = match asset_id(&snapshot.fingerprint) {
        Ok(id) => id,
        Err(failure) => {
            return Err(failure);
        },
    };
    let title = match title_fallback(locator) {
        Ok(title) => title,
        Err(failure) => {
            return Err(failure);
        },
    };
    let record = AssetRecordV2 {
        schema_version: 2,
        id,
        record_type: AssetRecordTypeV2::Asset,
        fingerprint: snapshot.fingerprint.value.clone(),
        title_fallback: title,
        media_type: "application/pdf".to_owned(),
        provider: AssetProviderBindingV2 {
            provider_type: provider_type.to_owned(),
            logical_locator: to_nfc(locator),
            size_bytes: snapshot.size_bytes,
            modified_at: Some(snapshot.modified_at),
        },
    };
    match validate_asset_record_v2(&record) {
        Ok(_) => Ok(record),
        Err(failure) => Err(failure),
    }
}

/// The canonical form of a record keeps within bounds.
pub fn check_record_size(len: u64) -> (result: Result<(), MkoError>)
    ensures
        verdict(result) == (if len <= MAX_ASSET_RECORD_BYTES {
            Ok(())
        } else {
            Err(
                error(
                    "asset_record_invalid"@,
                    "Asset registry record exceeds its bounded canonical representation"@,
                ),
            )
        }),
{
    if len > MAX_ASSET_RECORD_BYTES {
        return Err(
            MkoError::new(
                "asset_record_invalid",
                "Asset registry record exceeds its bounded canonical representation",
            ),
        );
    }
    Ok(())
}

/// A PDF that was read again must be the same.
pub fn revalidate_provider_snapshot(inspected_size: u64, actual: &FileSnapshot, expected: &FileSnapshot) -> (result:
    Result<(), MkoError>)
    ensures
        verdict(result) == (if inspected_size == expected.deep_view().size_bytes && same_content(
            actual.deep_view(),
            expected.deep_view(),
        ) {
            Ok(())
        } else {
            Err(provider_changed())
        }),
{
    if inspected_size != expected.size_bytes || !has_same_content(actual, expected) {
        return Err(provider_changed_error());
    }
    Ok(())
}

/// Two records of the same content are one Asset, wherever it was found. The place where
/// it was found first stays.
pub open spec fn is_same_asset(existing: AssetRecordV2View, record: AssetRecordV2View) -> bool {
    existing.id == record.id && existing.fingerprint == record.fingerprint && existing.media_type
        == record.media_type
}

/// The rule on a record that already stands at the place of a new one: `existing` is
/// nothing where it is no record, and `same_bytes` tells that nothing differs.
pub open spec fn existing_check(
    existing: Option<AssetRecordV2View>,
    same_bytes: bool,
    record: AssetRecordV2View,
) -> Result<(), ErrorView> {
    match existing {
        None => Err(
            error(
                "asset_registry_conflict"@,
                "existing Asset registry bytes are not a schema-v2 Asset"@,
            ),
        ),
        Some(found) => match asset_record_check(found) {
            Err(failure) => Err(failure),
            Ok(_) => if same_bytes || is_same_asset(found, record) {
                Ok(())
            } else {
                Err(
                    error(
                        "asset_registry_conflict"@,
                        "content-addressed Asset registry path contains different identity bytes"@,
                    ),
                )
            },
        },
    }
}

pub fn validate_existing_asset(
    existing: &Option<AssetRecordV2>,
    same_bytes: bool,
    record: &AssetRecordV2,
) -> (result: Result<(), MkoError>)
    ensures
        verdict(result) == existing_check(existing.deep_view(), same_bytes, record.deep_view()),
{
    let found = match existing {
        Some(found) => found,
        None => {
            return Err(
                MkoError::new(
                    "asset_registry_conflict",
                    "existing Asset registry bytes are not a schema-v2 Asset",
                ),
            );
        },
    };
    match validate_asset_record_v2(found) {
        Ok(_) => {},
        Err(failure) => {
            return Err(failure);
        },
    }
    if same_bytes || (same(found.id.as_str(), record.id.as_str()) && same(
        found.fingerprint.as_str(),
        record.fingerprint.as_str(),
    ) && same(found.media_type.as_str(), record.media_type.as_str())) {
        return Ok(());
    }
    Err(
        MkoError::new(
            "asset_registry_conflict",
            "content-addressed Asset registry path contains different identity bytes",
        ),
    )
}

/// The place of a record below the repository.
pub fn registry_path_of(asset_id: &str) -> (path: String)
    ensures
        path@ == "assets/registry/"@ + asset_id@ + ".json"@,
{
    cat3("assets/registry/", asset_id, ".json")
}

/// The registry that records are written to must be a real directory.
pub fn require_registry_directory(is_real_directory: bool) -> (result: Result<(), MkoError>)
    ensures
        verdict(result) == (if is_real_directory {
            Ok(())
        } else {
            Err(error("asset_registry_invalid"@, "managed directory must be a real directory"@))
        }),
{
    if is_real_directory {
        Ok(())
    } else {
        Err(MkoError::new("asset_registry_invalid", "managed directory must be a real directory"))
    }
}

/// How the writing of a record ended.
#[derive(Debug)]
pub enum RegistryWriteV2 {
    Created,
    /// A record was there before; `standing` is what it holds.
    Existing { standing: Result<AssetRecordV2, MkoError> },
}

/// What a registration comes to: the first record of a content stays.
pub open spec fn registration_of(record: AssetRecordV2View, written: RegistryWriteV2) -> Result<
    AssetRegistrationResultV2View,
    ErrorView,
> {
    let registry_path = "assets/registry/"@ + record.id + ".json"@;
    match written {
        RegistryWriteV2::Created => Ok(
            AssetRegistrationResultV2View {
                asset: record,
                registry_path,
                outcome: AssetRegistrationOutcomeV2::Created,
            },
        ),
        RegistryWriteV2::Existing { standing } => match outcome(standing) {
            Ok(asset) => Ok(
                AssetRegistrationResultV2View {
                    asset,
                    registry_path,
                    outcome: AssetRegistrationOutcomeV2::Existing,
                },
            ),
            Err(failure) => Err(failure),
        },
    }
}

pub fn register_pdf_asset_v2(record: AssetRecordV2, written: RegistryWriteV2) -> (result: Result<
    AssetRegistrationResultV2,
    MkoError,
>)
    ensures
        outcome(result) == registration_of(record.deep_view(), written),
{
    let registry_path = registry_path_of(record.id.as_str());
    match written {
        RegistryWriteV2::Created => Ok(
            AssetRegistrationResultV2 {
                asset: record,
                registry_path,
                outcome: AssetRegistrationOutcomeV2::Created,
            },
        ),
        RegistryWriteV2::Existing { standing } => match standing {
            Ok(asset) => Ok(
                AssetRegistrationResultV2 {
                    asset,
                    registry_path,
                    outcome: AssetRegistrationOutcomeV2::Existing,
                },
            ),
            Err(failure) => Err(failure),
        },
    }
}

/// The rule on a record that was read: it is the one that is asked for, in its canonical
/// form.
pub open spec fn registered_check(
    expected_id: Seq<char>,
    parsed: Result<AssetRecordV2View, Seq<char>>,
    is_canonical: bool,
) -> Result<AssetRecordV2View, ErrorView> {
    match parsed {
        Err(detail) => Err(error("asset_registry_invalid"@, detail)),
        Ok(record) => match asset_record_check(record) {
            Err(failure) => Err(failure),
            Ok(_) => if record.id != expected_id || !is_canonical {
                Err(
                    error(
                        "asset_registry_invalid"@,
                        "Asset registry bytes are not the expected canonical immutable record"@,
                    ),
                )
            } else {
                Ok(record)
            },
        },
    }
}

/// Takes up the record of an Asset: `parsed` is what its reader made of it, and
/// `is_canonical` tells that its bytes are in their canonical form.
pub fn read_asset_v2(
    asset_id: &str,
    parsed: Result<AssetRecordV2, String>,
    is_canonical: bool,
) -> (result: Result<AssetRecordV2, MkoError>)
    ensures
        outcome(result) == (match asset_id_check(asset_id@) {
            Err(failure) => Err(failure),
            Ok(_) => registered_check(
                asset_id@,
                match parsed {
                    Ok(record) => Ok(record.deep_view()),
                    Err(detail) => Err(detail@),
                },
                is_canonical,
            ),
        }),
{
    match validate_asset_id(asset_id) {
        Ok(_) => {},
        Err(failure) => {
            return Err(failure);
        },
    }
    let record = match parsed {
        Ok(record) => record,
        Err(detail) => {
            return Err(MkoError::new("asset_registry_invalid", detail.as_str()));
        },
    };
    match validate_asset_record_v2(&record) {
        Ok(_) => {},
        Err(failure) => {
            return Err(failure);
        },
    }
    if !same(record.id.as_str(), asset_id) || !is_canonical {
        return Err(
            MkoError::new(
                "asset_registry_invalid",
                "Asset registry bytes are not the expected canonical immutable record",
            ),
        );
    }
    Ok(record)
}

/// A managed file must be a regular one within its bound.
pub fn check_bounded_file(subject: &str, is_file: bool, is_symlink: bool, len: u64, limit: u64) -> (result:
    Result<(), MkoError>)
    ensures
        verdict(result) == (if is_file && !is_symlink && len <= limit {
            Ok(())
        } else {
            Err(
                error(
                    subject@ + "_invalid"@,
                    subject@ + " must be a bounded regular non-link file"@,
                ),
            )
        }),
{
    if !is_file || is_symlink || len > limit {
        let code = cat2(subject, "_invalid");
        let message = cat2(subject, " must be a bounded regular non-link file");
        return Err(MkoError::new(code.as_str(), message.as_str()));
    }
    Ok(())
}

/// What was read of a managed file must keep within its bound.
pub fn check_bounded_content(subject: &str, read: u64, limit: u64) -> (result: Result<(), MkoError>)
    ensures
        verdict(result) == (if read <= limit {
            Ok(())
        } else {
            Err(error(subject@ + "_invalid"@, subject@ + " exceeds its bounded input size"@))
        }),
{
    if read > limit {
        let code = cat2(subject, "_invalid");
        let message = cat2(subject, " exceeds its bounded input size");
        return Err(MkoError::new(code.as_str(), message.as_str()));
    }
    Ok(())
}

/// A record that is drafted keeps the rules on records.
pub proof fn drafted_records_are_valid(
    locator: Seq<char>,
    provider_type: Seq<char>,
    inspected_size: u64,
    snapshot: FileSnapshotView,
)
    requires
        record_of(locator, provider_type, inspected_size, snapshot) is Ok,
    ensures
        ({
            let record = record_of(locator, provider_type, inspected_size, snapshot)->Ok_0;
            &&& asset_record_check(record) is Ok
            &&& existing_check(Some(record), false, record) is Ok
            &&& asset_id_of(snapshot.fingerprint) == Ok::<Seq<char>, ErrorView>(record.id)
        }),
{
}

/// Registering the same content from another place finds the record that is there.
pub proof fn content_is_registered_once(
    existing: AssetRecordV2View,
    locator: Seq<char>,
    provider_type: Seq<char>,
    inspected_size: u64,
    snapshot: FileSnapshotView,
)
    requires
        asset_record_check(existing) is Ok,
        record_of(locator, provider_type, inspected_size, snapshot) is Ok,
        existing.fingerprint == snapshot.fingerprint.value,
    ensures
        existing_check(
            Some(existing),
            false,
            record_of(locator, provider_type, inspected_size, snapshot)->Ok_0,
        ) is Ok,
{
}

proof fn candidate_in_bounds(candidates: Seq<InboxCandidateV2View>, locator: Seq<char>)
    ensures
        candidate_at(candidates, locator) matches Some(at) ==> 0 <= at < candidates.len()
            && candidates[at].locator == locator,
        candidate_at(candidates, locator) is None ==> forall|k: int|
            0 <= k < candidates.len() ==> #[trigger] candidates[k].locator != locator,
        0 <= candidate_place(candidates, locator) <= candidates.len(),
    decreases candidates.len(),
{
    if candidates.len() > 0 {
        candidate_in_bounds(candidates.drop_last(), locator);
        assert forall|k: int|
            candidate_at(candidates, locator) is None && 0 <= k
                < candidates.len() implies #[trigger] candidates[k].locator != locator by {
            if k < candidates.len() - 1 {
                assert(candidates.drop_last()[k] == candidates[k]);
            }
        }
    }
}

/// No two candidates share a locator.
pub open spec fn has_unique_locators(candidates: Seq<InboxCandidateV2View>) -> bool {
    forall|j: int, k: int|
        0 <= j < k < candidates.len() ==> #[trigger] candidates[j].locator
            != #[trigger] candidates[k].locator
}

proof fn candidates_stay_unique(
    candidates: Seq<InboxCandidateV2View>,
    candidate: InboxCandidateV2View,
)
    requires
        has_unique_locators(candidates),
    ensures
        has_unique_locators(with_candidate(candidates, candidate)),
{
    candidate_in_bounds(candidates, candidate.locator);
    let after = with_candidate(candidates, candidate);
    assert forall|j: int, k: int| 0 <= j < k < after.len() implies #[trigger] after[j].locator
        != #[trigger] after[k].locator by {
        match candidate_at(candidates, candidate.locator) {
            Some(at) => {
                assert(candidates[j].locator != candidates[k].locator);
            },
            None => {
                let place = candidate_place(candidates, candidate.locator);
                let was_j = if j < place { j } else { j - 1 };
                let was_k = if k < place { k } else { k - 1 };
                if j != place {
                    assert(after[j] == candidates[was_j]);
                }
                if k != place {
                    assert(after[k] == candidates[was_k]);
                }
            },
        }
    }
}

/// The locators of the candidates ascend.
pub open spec fn has_ascending_locators(candidates: Seq<InboxCandidateV2View>) -> bool {
    forall|j: int, k: int|
        0 <= j < k < candidates.len() ==> text_at_most(
            #[trigger] candidates[j].locator,
            #[trigger] candidates[k].locator,
        )
}

proof fn candidate_place_parts(candidates: Seq<InboxCandidateV2View>, locator: Seq<char>)
    requires
        has_ascending_locators(candidates),
    ensures
        0 <= candidate_place(candidates, locator) <= candidates.len(),
        forall|k: int|
            0 <= k < candidate_place(candidates, locator) ==> text_at_most(
                #[trigger] candidates[k].locator,
                locator,
            ),
        forall|k: int|
            candidate_place(candidates, locator) <= k < candidates.len() ==> text_at_most(
                locator,
                #[trigger] candidates[k].locator,
            ),
    decreases candidates.len(),
{
    if candidates.len() > 0 {
        let last = candidates.last().locator;
        if text_at_most(last, locator) {
            assert forall|k: int| 0 <= k < candidates.len() implies text_at_most(
                #[trigger] candidates[k].locator,
                locator,
            ) by {
                if k < candidates.len() - 1 {
                    text_transitive(candidates[k].locator, last, locator);
                }
            }
        } else {
            let front = candidates.drop_last();
            assert(has_ascending_locators(front)) by {
                assert forall|j: int, k: int| 0 <= j < k < front.len() implies text_at_most(
                    #[trigger] front[j].locator,
                    #[trigger] front[k].locator,
                ) by {
                    assert(text_at_most(candidates[j].locator, candidates[k].locator));
                }
            }
            candidate_place_parts(front, locator);
            text_total(last, locator);
            let place = candidate_place(candidates, locator);
            assert forall|k: int| 0 <= k < place implies text_at_most(
                #[trigger] candidates[k].locator,
                locator,
            ) by {
                assert(front[k] == candidates[k]);
            }
            assert forall|k: int| place <= k < candidates.len() implies text_at_most(
                locator,
                #[trigger] candidates[k].locator,
            ) by {
                if k < candidates.len() - 1 {
                    assert(front[k] == candidates[k]);
                }
            }
        }
    }
}

proof fn candidates_stay_ascending(
    candidates: Seq<InboxCandidateV2View>,
    candidate: InboxCandidateV2View,
)
    requires
        has_ascending_locators(candidates),
    ensures
        has_ascending_locators(with_candidate(candidates, candidate)),
{
    candidate_in_bounds(candidates, candidate.locator);
    candidate_place_parts(candidates, candidate.locator);
    let after = with_candidate(candidates, candidate);
    assert forall|j: int, k: int| 0 <= j < k < after.len() implies text_at_most(
        #[trigger] after[j].locator,
        #[trigger] after[k].locator,
    ) by {
        match candidate_at(candidates, candidate.locator) {
            Some(at) => {
                assert(text_at_most(candidates[j].locator, candidates[k].locator));
            },
            None => {
                let place = candidate_place(candidates, candidate.locator);
                let was_j = if j < place { j } else { j - 1 };
                let was_k = if k < place { k } else { k - 1 };
                if j != place {
                    assert(after[j] == candidates[was_j]);
                }
                if k != place {
                    assert(after[k] == candidates[was_k]);
                }
            },
        }
    }
}

proof fn offered_are_unique(entries: Seq<InboxCatalogEntryV2>, n: int)
    ensures
        has_unique_locators(offered_candidates(entries, n)),
        has_ascending_locators(offered_candidates(entries, n)),
    decreases n,
{
    if n > 0 {
        offered_are_unique(entries, n - 1);
        candidates_stay_ascending(offered_candidates(entries, n - 1), offered(entries[n - 1]));
        candidates_stay_unique(offered_candidates(entries, n - 1), offered(entries[n - 1]));
    }
}

proof fn warned_are_unique(
    entries: Seq<InboxCatalogEntryV2>,
    warnings: Seq<ProviderScanWarningView>,
    n: int,
)
    ensures
        has_unique_locators(warned_candidates(entries, warnings, n).0),
        has_ascending_locators(warned_candidates(entries, warnings, n).0),
    decreases n,
{
    if n <= 0 {
        offered_are_unique(entries, entries.len() as int);
    } else {
        warned_are_unique(entries, warnings, n - 1);
        let warning = warnings[n - 1];
        if warning.provider_locator is Some {
            let blocked = InboxCandidateV2View {
                locator: warning.provider_locator->0,
                blocked: Some(error(warning.code, warning.message)),
            };
            candidates_stay_unique(warned_candidates(entries, warnings, n - 1).0, blocked);
            candidates_stay_ascending(warned_candidates(entries, warnings, n - 1).0, blocked);
        }
    }
}

/// A page never holds more items than its limit, nor the same item twice, and its items
/// come in the order of their locators.
pub proof fn pages_are_bounded(
    scan_complete: bool,
    entries: Seq<InboxCatalogEntryV2>,
    warnings: Seq<ProviderScanWarningView>,
    batch_limit: u64,
)
    ensures
        inbox_page(scan_complete, entries, warnings, batch_limit).candidates.len() <= batch_limit,
        has_unique_locators(
            inbox_page(scan_complete, entries, warnings, batch_limit).candidates,
        ),
        has_ascending_locators(
            inbox_page(scan_complete, entries, warnings, batch_limit).candidates,
        ),
{
    warned_are_unique(entries, warnings, warnings.len() as int);
}

} // verus!
