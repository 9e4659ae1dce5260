//! What an inbox item is to a person: its state, what to do next, and why not.

use crate::json_v1::{DiagnosticData, DiagnosticDataView, NextAction, UserState};
use crate::model::AssetStatus;
use vstd::prelude::*;

verus! {

/// What is known of the Source that belongs to an Asset.
#[derive(Clone, Copy, Debug, PartialEq, Eq, Structural)]
pub enum SourceObservation {
    Absent,
    ReviewPending,
    Approved,
    Invalid,
}

/// What stands in the way of an item, if anything.
#[derive(Clone, Copy, Debug, PartialEq, Eq, Structural)]
pub enum CatalogBlocker {
    Nothing,
    ProviderMissing,
    ProviderChanged,
    ActiveLock,
    StateMismatch,
}

/// All that decides where an item stands.
#[derive(Clone, Copy, Debug, PartialEq, Eq, Structural)]
pub struct CatalogEvidence {
    pub asset_status: Option<AssetStatus>,
    pub source: SourceObservation,
    pub blocker: CatalogBlocker,
}

/// An inbox item with its state and the next step.
#[derive(Clone, Debug, PartialEq, Eq)]
pub struct CatalogItem {
    pub provider_locator: String,
    pub user_state: UserState,
    pub asset_id: Option<String>,
    pub next_action: NextAction,
    pub diagnostic: Option<DiagnosticData>,
}

#[verifier::ext_equal]
pub struct CatalogItemView {
    pub provider_locator: Seq<char>,
    pub user_state: UserState,
    pub asset_id: Option<Seq<char>>,
    pub next_action: NextAction,
    pub diagnostic: Option<DiagnosticDataView>,
}

impl DeepView for CatalogItem {
    type V = CatalogItemView;

    open spec fn deep_view(&self) -> CatalogItemView {
        CatalogItemView {
            provider_locator: self.provider_locator@,
            user_state: self.user_state,
            asset_id: self.asset_id.deep_view(),
            next_action: self.next_action,
            diagnostic: self.diagnostic.deep_view(),
        }
    }
}

/// A state, the next step, and the code and message of what is wrong.
pub type Standing = (UserState, NextAction, Option<(Seq<char>, Seq<char>)>);

/// The item cannot go on: what to do about it, and why.
pub open spec fn blocked(action: NextAction, code: Seq<char>, message: Seq<char>) -> Standing {
    (UserState::Blocked, action, Some((code, message)))
}

/// Where an item stands. A blocker comes before everything else; without one the status
/// of the Asset decides, and a status that the Source does not agree with needs repair.
pub open spec fn standing(evidence: CatalogEvidence) -> Standing {
    match evidence.blocker {
        CatalogBlocker::ProviderMissing => blocked(
            NextAction::Hydrate,
            "provider_missing"@,
            "The registered PDF is not readable in the inbox."@,
        ),
        CatalogBlocker::ProviderChanged => blocked(
            NextAction::Repair,
            "registry_provider_mismatch"@,
            "The registered PDF no longer matches its Registry record."@,
        ),
        CatalogBlocker::ActiveLock => blocked(
            NextAction::Retry,
            "lock_active"@,
            "Another operation is using this item."@,
        ),
        CatalogBlocker::StateMismatch => state_mismatch(),
        CatalogBlocker::Nothing => match evidence.asset_status {
            None => (UserState::New, NextAction::Add, None),
            Some(AssetStatus::Registered) => (UserState::Registered, NextAction::Prepare, None),
            Some(AssetStatus::Extracted) => (UserState::Incomplete, NextAction::WriteDraft, None),
            Some(AssetStatus::ReviewPending) => if evidence.source
                == SourceObservation::ReviewPending {
                (UserState::ReviewPending, NextAction::Review, None)
            } else {
                state_mismatch()
            },
            Some(AssetStatus::Processed) => if evidence.source == SourceObservation::Approved {
                (UserState::Processed, NextAction::Nothing, None)
            } else {
                state_mismatch()
            },
            Some(AssetStatus::Missing) => blocked(
                NextAction::Hydrate,
                "provider_missing"@,
                "The registered PDF is not readable in the inbox."@,
            ),
            Some(AssetStatus::Failed) => blocked(
                NextAction::Retry,
                "asset_failed"@,
                "The previous processing attempt failed."@,
            ),
            Some(AssetStatus::Changed) => lineage_broken(),
            Some(AssetStatus::Superseded) => lineage_broken(),
        },
    }
}

pub open spec fn state_mismatch() -> Standing {
    blocked(
        NextAction::Repair,
        "source_state_mismatch"@,
        "The Asset and Source states are inconsistent."@,
    )
}

pub open spec fn lineage_broken() -> Standing {
    blocked(
        NextAction::Repair,
        "registry_provider_mismatch"@,
        "The Registry lineage requires repair."@,
    )
}

/// The catalog item that the evidence gives.
pub open spec fn catalog_item(
    provider_locator: Seq<char>,
    asset_id: Option<Seq<char>>,
    evidence: CatalogEvidence,
) -> CatalogItemView {
    let (user_state, next_action, problem) = standing(evidence);
    CatalogItemView {
        provider_locator,
        user_state,
        asset_id,
        next_action,
        diagnostic: match problem {
            Some((code, message)) => Some(
                DiagnosticDataView { code, message, path: Some(provider_locator) },
            ),
            None => None,
        },
    }
}

pub fn classify_catalog_item(
    provider_locator: String,
    asset_id: Option<String>,
    evidence: CatalogEvidence,
) -> (item: CatalogItem)
    ensures
        item.deep_view() == catalog_item(provider_locator@, asset_id.deep_view(), evidence),
{
    let (user_state, next_action, problem) = classify(&evidence);
    let diagnostic = match problem {
        Some((code, message)) => Some(
            DiagnosticData {
                code: code.to_owned(),
                message: message.to_owned(),
                path: Some(provider_locator.clone()),
            },
        ),
        None => None,
    };
    CatalogItem { provider_locator, user_state, asset_id, next_action, diagnostic }
}

fn classify(evidence: &CatalogEvidence) -> (result: (
    UserState,
    NextAction,
    Option<(&'static str, &'static str)>,
))
    ensures
        (result.0, result.1, result.2.deep_view()) == standing(*evidence),
{
    let blocked = match evidence.blocker {
        CatalogBlocker::Nothing => None,
        CatalogBlocker::ProviderMissing => Some(
            (
                NextAction::Hydrate,
                "provider_missing",
                "The registered PDF is not readable in the inbox.",
            ),
        ),
        CatalogBlocker::ProviderChanged => Some(
            (
                NextAction::Repair,
                "registry_provider_mismatch",
                "The registered PDF no longer matches its Registry record.",
            ),
        ),
        CatalogBlocker::ActiveLock => Some(
            (NextAction::Retry, "lock_active", "Another operation is using this item."),
        ),
        CatalogBlocker::StateMismatch => Some(
            (
                NextAction::Repair,
                "source_state_mismatch",
                "The Asset and Source states are inconsistent.",
            ),
        ),
    };
    if let Some((action, code, message)) = blocked {
        return (UserState::Blocked, action, Some((code, message)));
    }
    match evidence.asset_status {
        None => (UserState::New, NextAction::Add, None),
        Some(AssetStatus::Registered) => (UserState::Registered, NextAction::Prepare, None),
        Some(AssetStatus::Extracted) => (UserState::Incomplete, NextAction::WriteDraft, None),
        Some(AssetStatus::ReviewPending) if evidence.source == SourceObservation::ReviewPending => (
            UserState::ReviewPending,
            NextAction::Review,
            None,
        ),
        Some(AssetStatus::Processed) if evidence.source == SourceObservation::Approved => (
            UserState::Processed,
            NextAction::Nothing,
            None,
        ),
        Some(AssetStatus::Missing) => (
            UserState::Blocked,
            NextAction::Hydrate,
            Some(("provider_missing", "The registered PDF is not readable in the inbox.")),
        ),
        Some(AssetStatus::Failed) => (
            UserState::Blocked,
            NextAction::Retry,
            Some(("asset_failed", "The previous processing attempt failed.")),
        ),
        Some(AssetStatus::Changed) | Some(AssetStatus::Superseded) => (
            UserState::Blocked,
            NextAction::Repair,
            Some(("registry_provider_mismatch", "The Registry lineage requires repair.")),
        ),
        Some(_) => (
            UserState::Blocked,
            NextAction::Repair,
            Some(("source_state_mismatch", "The Asset and Source states are inconsistent.")),
        ),
    }
}

/// An item carries a diagnostic exactly when it is blocked, and the diagnostic names
/// the item.
pub proof fn diagnostics_mark_blocked_items(
    provider_locator: Seq<char>,
    asset_id: Option<Seq<char>>,
    evidence: CatalogEvidence,
)
    ensures
        ({
            let item = catalog_item(provider_locator, asset_id, evidence);
            &&& item.diagnostic is Some == (item.user_state == UserState::Blocked)
            &&& item.diagnostic is Some ==> item.diagnostic->0.path == Some(provider_locator)
        }),
{
}

/// Only an item that is processed has nothing left to do.
pub proof fn only_processed_items_are_done(evidence: CatalogEvidence)
    ensures
        standing(evidence).1 == NextAction::Nothing <==> standing(evidence).0
            == UserState::Processed,
{
}

/// Work on an item goes on only where nothing blocks it.
pub proof fn blockers_stop_work(evidence: CatalogEvidence)
    requires
        evidence.blocker != CatalogBlocker::Nothing,
    ensures
        standing(evidence).0 == UserState::Blocked,
        standing(evidence).1 != NextAction::Add,
        standing(evidence).1 != NextAction::Prepare,
        standing(evidence).1 != NextAction::WriteDraft,
        standing(evidence).1 != NextAction::Review,
{
}

} // verus!
