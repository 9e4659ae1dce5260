use mko_core::add::{select_batch_seeds, BatchItemSeed};
use mko_core::json_v1::{NextAction, UserState};

fn seed(locator: &str, next_action: NextAction) -> BatchItemSeed {
    BatchItemSeed {
        provider_locator: locator.into(),
        user_state: UserState::Registered,
        next_action,
        asset_id: None,
        diagnostic: None,
    }
}

#[test]
fn selector_uses_global_nfc_order_across_executable_actions() {
    let mut seeds = (0..20)
        .map(|index| seed(&format!("a-add-{index:02}.pdf"), NextAction::Add))
        .collect::<Vec<_>>();
    seeds.push(seed("z-prepare.pdf", NextAction::Prepare));
    seeds.push(seed("00-review.pdf", NextAction::Review));

    let selected = select_batch_seeds(seeds, 20);

    assert_eq!(selected.len(), 20);
    assert!(selected
        .iter()
        .all(|seed| seed.next_action == NextAction::Add));
    assert_eq!(selected[0].provider_locator, "a-add-00.pdf");
    assert_eq!(selected[19].provider_locator, "a-add-19.pdf");
}

#[test]
fn selector_fills_spare_capacity_with_review_and_blocker_items() {
    let selected = select_batch_seeds(
        vec![
            seed("z-add.pdf", NextAction::Add),
            seed("a-review.pdf", NextAction::Review),
            seed("m-retry.pdf", NextAction::Retry),
        ],
        20,
    );

    assert_eq!(
        selected
            .iter()
            .map(|seed| seed.provider_locator.as_str())
            .collect::<Vec<_>>(),
        vec!["a-review.pdf", "m-retry.pdf", "z-add.pdf"]
    );
}
