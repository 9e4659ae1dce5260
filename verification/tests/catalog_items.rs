use mko_core::catalog::{
    classify_catalog_item, CatalogBlocker, CatalogEvidence, CatalogItem, SourceObservation,
};
use mko_core::json_v1::{NextAction, UserState};
use mko_core::model::AssetStatus;

fn item(
    asset_status: Option<AssetStatus>,
    source: SourceObservation,
    blocker: CatalogBlocker,
) -> CatalogItem {
    classify_catalog_item(
        "inbox/a.pdf".into(),
        None,
        CatalogEvidence { asset_status, source, blocker },
    )
}

fn code(item: &CatalogItem) -> Option<&str> {
    item.diagnostic.as_ref().map(|found| found.code.as_str())
}

#[test]
fn new_items_are_to_be_added() {
    let found = item(None, SourceObservation::Absent, CatalogBlocker::Nothing);
    assert_eq!(found.user_state, UserState::New);
    assert_eq!(found.next_action, NextAction::Add);
    assert_eq!(found.diagnostic, None);
}

#[test]
fn statuses_lead_to_their_next_step() {
    let registered = item(
        Some(AssetStatus::Registered),
        SourceObservation::Absent,
        CatalogBlocker::Nothing,
    );
    assert_eq!(
        (registered.user_state, registered.next_action),
        (UserState::Registered, NextAction::Prepare)
    );
    let extracted = item(
        Some(AssetStatus::Extracted),
        SourceObservation::Absent,
        CatalogBlocker::Nothing,
    );
    assert_eq!(
        (extracted.user_state, extracted.next_action),
        (UserState::Incomplete, NextAction::WriteDraft)
    );
    let pending = item(
        Some(AssetStatus::ReviewPending),
        SourceObservation::ReviewPending,
        CatalogBlocker::Nothing,
    );
    assert_eq!(
        (pending.user_state, pending.next_action),
        (UserState::ReviewPending, NextAction::Review)
    );
    let processed = item(
        Some(AssetStatus::Processed),
        SourceObservation::Approved,
        CatalogBlocker::Nothing,
    );
    assert_eq!(
        (processed.user_state, processed.next_action),
        (UserState::Processed, NextAction::Nothing)
    );
}

#[test]
fn disagreeing_sources_need_repair() {
    for (status, source) in [
        (AssetStatus::ReviewPending, SourceObservation::Approved),
        (AssetStatus::Processed, SourceObservation::ReviewPending),
        (AssetStatus::Processed, SourceObservation::Invalid),
    ] {
        let found = item(Some(status), source, CatalogBlocker::Nothing);
        assert_eq!(found.user_state, UserState::Blocked);
        assert_eq!(found.next_action, NextAction::Repair);
        assert_eq!(code(&found), Some("source_state_mismatch"));
    }
}

#[test]
fn broken_statuses_are_blocked() {
    for (status, action, expected) in [
        (AssetStatus::Missing, NextAction::Hydrate, "provider_missing"),
        (AssetStatus::Failed, NextAction::Retry, "asset_failed"),
        (AssetStatus::Changed, NextAction::Repair, "registry_provider_mismatch"),
        (AssetStatus::Superseded, NextAction::Repair, "registry_provider_mismatch"),
    ] {
        let found = item(Some(status), SourceObservation::Absent, CatalogBlocker::Nothing);
        assert_eq!(found.user_state, UserState::Blocked);
        assert_eq!(found.next_action, action);
        assert_eq!(code(&found), Some(expected));
    }
}

#[test]
fn blockers_come_before_every_status() {
    for (blocker, action, expected) in [
        (CatalogBlocker::ProviderMissing, NextAction::Hydrate, "provider_missing"),
        (CatalogBlocker::ProviderChanged, NextAction::Repair, "registry_provider_mismatch"),
        (CatalogBlocker::ActiveLock, NextAction::Retry, "lock_active"),
        (CatalogBlocker::StateMismatch, NextAction::Repair, "source_state_mismatch"),
    ] {
        let found = item(Some(AssetStatus::Processed), SourceObservation::Approved, blocker);
        assert_eq!(found.user_state, UserState::Blocked);
        assert_eq!(found.next_action, action);
        assert_eq!(code(&found), Some(expected));
        assert_eq!(
            found.diagnostic.and_then(|found| found.path),
            Some("inbox/a.pdf".to_string())
        );
    }
}
