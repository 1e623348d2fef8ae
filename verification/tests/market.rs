use tiny_necromancer::kinds::ProductionRecipeKind;
use tiny_necromancer::market::MarketState;
use tiny_necromancer::production::ProductionLedger;

#[test]
fn broker_standing_advances_at_persistent_favor_thresholds() {
    let mut market = MarketState::default();
    assert_eq!(market.standing_label(), "Whisper");
    assert_eq!(market.next_standing_target(), Some(3));

    market.favor = 3;
    assert_eq!(market.standing_label(), "Acquainted");
    assert_eq!(market.next_standing_target(), Some(8));

    market.favor = 8;
    assert_eq!(market.standing_label(), "Trusted");
    assert_eq!(market.next_standing_target(), None);
}

#[test]
fn older_market_saves_infer_favor_from_completed_trades() {
    let mut market = MarketState { completed_trades: 5, ..MarketState::default() };
    market.normalize();
    assert_eq!(market.favor, 5);
    assert_eq!(market.standing_label(), "Acquainted");
}

#[test]
fn the_ledger_separates_recipe_counts_and_accumulates_quieting() {
    let mut ledger = ProductionLedger::default();
    ledger.record(ProductionRecipeKind::WardCharge, 1);
    ledger.record(ProductionRecipeKind::HushAsh, 1);
    assert_eq!(ledger.total_cycles, 2);
    assert_eq!(ledger.ward_cycles, 1);
    assert_eq!(ledger.hush_ash_cycles, 1);
    assert_eq!(ledger.wards_sealed, 2);
}

#[test]
fn market_rotation_wraps_invalid_indices() {
    let mut market = MarketState { offer_index: 99, ..MarketState::default() };
    market.normalize();
    assert_eq!(market.offer_index, 0);
    let mut market = MarketState { offer_index: 5, ..MarketState::default() };
    market.normalize();
    assert_eq!(market.offer_index, 2);
}
