use tiny_necromancer::data::{
    DistrictRules, GameConfig, NamedTilePosition, StartingContentConfig, StartingWorkerConfig,
    WorldLayoutConfig,
};
use tiny_necromancer::kinds::{BuildingKind, GamePhase};
use tiny_necromancer::session::GameSession;
use tiny_necromancer::tile::TilePos;
use tiny_necromancer::trade::{
    accept_contract, current_offer, exchange_suspicion, execute_trade, expire_contract, offer_at,
    offer_position, rotate_offer, trade_status, TradeOfferKind,
};
use tiny_necromancer::world::Building;

fn named(id: &str, x: i32, y: i32) -> NamedTilePosition {
    NamedTilePosition { id: id.to_string(), position: TilePos::new(x, y) }
}

fn config() -> GameConfig {
    GameConfig {
        game_name: "tiny_necromancer".to_string(),
        display_name: "Tiny Necromancer".to_string(),
        save_slot: "main".to_string(),
        version: "1".to_string(),
        world_width: 10,
        world_height: 8,
        starting_bones: 10,
        starting_mana: 20,
        starting_wood: 12,
        storage_capacity: 96,
        max_mana: 100,
        worker_wood_reserve: 0,
        starting_unlocked_plots: 1,
        starting_seed: 7,
        victory_undead: 6,
        victory_plots: 6,
        plot_unlock_base_wood: 6,
        plot_unlock_step_wood: 2,
        district_rules: DistrictRules { storage_capacity_bonus: 4, storage_volume_per_tile: 8 },
        world_layout: WorldLayoutConfig {
            road_x: 8,
            mana_source: TilePos::new(7, 0),
            stockpile_position: TilePos::new(6, 5),
            necromancer_position: TilePos::new(5, 6),
            forest_tiles: vec![TilePos::new(0, 0), TilePos::new(0, 1), TilePos::new(1, 7)],
            plot_positions: vec![
                TilePos::new(2, 2),
                TilePos::new(4, 2),
                TilePos::new(2, 4),
                TilePos::new(4, 4),
                TilePos::new(2, 6),
                TilePos::new(4, 6),
            ],
            building_positions: vec![
                named("work_shed", 6, 2),
                named("grave_lantern", 5, 0),
                named("ossuary_kiln", 6, 4),
            ],
        },
        starting_content: StartingContentConfig {
            worker: StartingWorkerConfig {
                id: 1,
                name: "Rattle".to_string(),
                undead_id: "skeleton".to_string(),
                job_id: "dig".to_string(),
            },
            initial_feedback: "The first grave waits.".to_string(),
            initial_reason: "Quiet night.".to_string(),
        },
    }
}

fn rules() -> DistrictRules {
    config().district_rules
}

fn lantern_session() -> GameSession {
    let mut session = GameSession::new(&config());
    session.phase = GamePhase::Playing;
    session.world.buildings.push(Building {
        kind: BuildingKind::GraveLantern,
        complete: true,
        position: TilePos::new(5, 0),
        width: 1,
        height: 1,
    });
    session
}

#[test]
fn market_rotates_and_wraps_after_elapsed_time() {
    let mut session = lantern_session();
    rotate_offer(&mut session);
    assert_eq!(session.progress.market.offer_index, 1);
    assert_eq!(current_offer(&session).title, "Lantern draught");
    rotate_offer(&mut session);
    rotate_offer(&mut session);
    assert_eq!(session.progress.market.offer_index, 0);
    assert_eq!(offer_position(&session), (1, 3));
}

#[test]
fn offers_cycle_through_three_fixed_bargains() {
    assert_eq!(offer_at(0).kind, TradeOfferKind::CarvedTimber);
    assert_eq!(offer_at(1).kind, TradeOfferKind::LanternDraught);
    assert_eq!(offer_at(2).kind, TradeOfferKind::QuietBargain);
    assert_eq!(offer_at(5).cost, "24 bones + 12 wood");
    assert_eq!(offer_at(3).reward, "12 wood");
}

#[test]
fn broker_request_locks_the_offer_and_cannot_stack() {
    let mut session = lantern_session();
    accept_contract(&mut session).unwrap();
    assert_eq!(current_offer(&session).kind, TradeOfferKind::CarvedTimber);
    rotate_offer(&mut session);
    assert_eq!(current_offer(&session).kind, TradeOfferKind::CarvedTimber);
    assert_eq!(offer_position(&session), (1, 3));
    assert_eq!(accept_contract(&mut session), Err("A broker request is already active.".to_string()));
}

#[test]
fn broker_requests_need_a_lantern() {
    let mut session = GameSession::new(&config());
    assert_eq!(
        accept_contract(&mut session),
        Err("Complete the grave lantern before accepting a broker request.".to_string())
    );
}

#[test]
fn ignored_broker_request_expires_and_clears() {
    let mut session = lantern_session();
    accept_contract(&mut session).unwrap();
    let message = expire_contract(&mut session);
    assert!(session.progress.market.contract.is_none());
    assert_eq!(message.as_deref(), Some("Broker request expired: Carved timber was left unfulfilled."));
    assert_eq!(expire_contract(&mut session), None);
}

#[test]
fn fulfilling_a_broker_request_grants_bonus_favor() {
    let mut session = lantern_session();
    session.economy.bones = 30;
    accept_contract(&mut session).unwrap();
    execute_trade(&mut session, &rules(), 100).unwrap();
    assert!(session.progress.market.contract.is_none());
    assert_eq!(session.progress.market.completed_contracts, 1);
    assert_eq!(session.progress.market.favor, 3);
    assert!(session.pressure.feed[0].message.contains("Broker request fulfilled: 18 bones for 12 wood"));
}

#[test]
fn market_requires_a_complete_lantern() {
    let mut session = GameSession::new(&config());
    session.economy.bones = 40;
    assert_eq!(
        execute_trade(&mut session, &rules(), 100),
        Err("Complete the grave lantern before meeting the night broker.".to_string())
    );
    assert_eq!(session.economy.bones, 40);
}

#[test]
fn carved_timber_exchange_respects_storage_and_pays_reward() {
    let mut session = lantern_session();
    session.economy.bones = 30;
    session.economy.wood = 80;
    let result = execute_trade(&mut session, &rules(), 100);
    assert_eq!(result, Err("Clear storage room before accepting more carved timber.".to_string()));
    assert_eq!(session.economy.bones, 30);
    assert_eq!(session.economy.wood, 80);

    session.economy.wood = 20;
    execute_trade(&mut session, &rules(), 100).unwrap();
    assert_eq!(session.economy.bones, 12);
    assert_eq!(session.economy.wood, 32);
    assert_eq!(session.progress.market.completed_trades, 1);
    assert!(session.pressure.feed[0].message.contains("Night market exchange: 18 bones for 12 wood"));
    assert_eq!(session.pressure.feed[1].message, "Suspicion +2.0: a discreet night market exchange.");
    assert_eq!(session.progress.market.favor, 1);
}

#[test]
fn lantern_draught_respects_the_mana_reserve() {
    let mut session = lantern_session();
    rotate_offer(&mut session);
    session.economy.wood = 20;
    session.economy.mana = 95;
    assert_eq!(
        execute_trade(&mut session, &rules(), 100),
        Err("The mana reserve cannot hold that draught yet.".to_string())
    );
    session.economy.mana = 90;
    execute_trade(&mut session, &rules(), 100).unwrap();
    assert_eq!(session.economy.mana, 98);
    assert_eq!(session.economy.wood, 2);
}

#[test]
fn quiet_bargain_buys_a_ward_charge() {
    let mut session = lantern_session();
    rotate_offer(&mut session);
    rotate_offer(&mut session);
    session.economy.bones = 30;
    session.economy.wood = 12;
    execute_trade(&mut session, &rules(), 100).unwrap();
    assert_eq!(session.economy.ward_charges, 1);
    assert_eq!((session.economy.bones, session.economy.wood), (6, 0));
}

#[test]
fn trusted_broker_reduces_exchange_suspicion() {
    let mut session = lantern_session();
    assert_eq!(exchange_suspicion(&session), 20);
    session.progress.market.favor = 3;
    assert_eq!(exchange_suspicion(&session), 15);
    session.progress.market.favor = 8;
    assert_eq!(exchange_suspicion(&session), 10);
    session.economy.bones = 30;
    execute_trade(&mut session, &rules(), 100).unwrap();
    assert_eq!(session.progress.market.favor, 9);
    assert_eq!(session.pressure.last_reason, "a discreet night market exchange (+1.0)");
}

#[test]
fn standing_milestone_adds_a_broker_note() {
    let mut session = lantern_session();
    session.progress.market.favor = 2;
    session.economy.bones = 30;
    execute_trade(&mut session, &rules(), 100).unwrap();
    assert!(session.pressure.feed[1].message.contains("broker now calls this cemetery Acquainted"));
}

#[test]
fn market_status_names_the_blocker_without_spending_materials() {
    let mut session = lantern_session();
    session.economy.bones = 10;
    let status = trade_status(&session, &rules(), 100).unwrap_err();
    assert!(status.contains("18 bones"));
    assert_eq!(status, "Need 18 bones for this exchange.");
    assert_eq!(session.economy.bones, 10);
    session.economy.bones = 18;
    assert_eq!(trade_status(&session, &rules(), 100), Ok(()));
}
