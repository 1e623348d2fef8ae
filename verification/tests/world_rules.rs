use tiny_necromancer::data::{
    DistrictRules, GameConfig, NamedTilePosition, StartingContentConfig, StartingWorkerConfig,
    WorldLayoutConfig,
};
use tiny_necromancer::economy::LooseResourcePile;
use tiny_necromancer::kinds::{BuildingKind, GamePhase, JobKind, ResourceKind, Technology, ZoneKind};
use tiny_necromancer::overlays::{toggle_domain_overlay, DomainOverlay, DomainOverlays};
use tiny_necromancer::movement::{request_necromancer_destination, simulate_necromancer, Facing};
use tiny_necromancer::navigation::{nearest_reachable, next_step, plan_route, RouteFailure};
use tiny_necromancer::targets::layout_fits;
use tiny_necromancer::policies::{DistrictRoutePolicies, RoutePolicy, StewardshipPolicy};
use tiny_necromancer::session::{GameSession, SaveData, TickReport};
use tiny_necromancer::tile::TilePos;
use tiny_necromancer::world::{Building, Zone};

fn named(id: &str, x: i32, y: i32) -> NamedTilePosition {
    NamedTilePosition { id: id.to_string(), position: TilePos::new(x, y) }
}

fn config() -> GameConfig {
    GameConfig {
        game_name: "tiny_necromancer".to_string(),
        display_name: "Tiny Necromancer".to_string(),
        save_slot: "main".to_string(),
        version: "1".to_string(),
        world_width: 10,
        world_height: 8,
        starting_bones: 10,
        starting_mana: 20,
        starting_wood: 12,
        storage_capacity: 96,
        max_mana: 100,
        worker_wood_reserve: 0,
        starting_unlocked_plots: 1,
        starting_seed: 7,
        victory_undead: 6,
        victory_plots: 6,
        plot_unlock_base_wood: 6,
        plot_unlock_step_wood: 2,
        district_rules: DistrictRules { storage_capacity_bonus: 4, storage_volume_per_tile: 8 },
        world_layout: WorldLayoutConfig {
            road_x: 8,
            mana_source: TilePos::new(7, 0),
            stockpile_position: TilePos::new(6, 5),
            necromancer_position: TilePos::new(5, 6),
            forest_tiles: vec![TilePos::new(0, 0), TilePos::new(0, 1), TilePos::new(1, 7)],
            plot_positions: vec![
                TilePos::new(2, 2),
                TilePos::new(4, 2),
                TilePos::new(2, 4),
                TilePos::new(4, 4),
                TilePos::new(2, 6),
                TilePos::new(4, 6),
            ],
            building_positions: vec![
                named("work_shed", 6, 2),
                named("grave_lantern", 5, 0),
                named("ossuary_kiln", 6, 4),
            ],
        },
        starting_content: StartingContentConfig {
            worker: StartingWorkerConfig {
                id: 1,
                name: "Rattle".to_string(),
                undead_id: "skeleton".to_string(),
                job_id: "dig".to_string(),
            },
            initial_feedback: "The first grave waits.".to_string(),
            initial_reason: "Quiet night.".to_string(),
        },
    }
}

fn session() -> GameSession {
    GameSession::new(&config())
}

fn wall_at_x3(session: &mut GameSession) {
    for y in 0..session.world.height as i32 {
        session.world.buildings.push(Building {
            kind: BuildingKind::WorkShed,
            complete: true,
            position: TilePos::new(3, y),
            width: 1,
            height: 1,
        });
    }
}

fn save_of(session: &GameSession) -> SaveData {
    SaveData {
        version: "1".to_string(),
        phase: session.phase,
        world: session.world.clone(),
        workforce: session.workforce.clone(),
        economy: session.economy.clone(),
        pressure: session.pressure.clone(),
        progress: session.progress.clone(),
        research: session.research.clone(),
        stewardship_policy: session.stewardship_policy,
    }
}

#[test]
fn fresh_session_starts_with_one_usable_plot_and_skeleton() {
    let session = session();
    assert_eq!(session.progress.unlocked_plots, 1);
    assert_eq!(session.workforce.workers.len(), 1);
    assert_eq!(session.workforce.workers[0].assignment, JobKind::Dig);
    assert_eq!(session.workforce.workers[0].position, TilePos::new(2, 2));
    assert_eq!(session.phase, GamePhase::MainMenu);
    assert_eq!(session.pressure.feed[0].message, "The first grave waits.");
}

#[test]
fn begin_moves_from_the_menu_to_play() {
    let mut session = session();
    session.begin();
    assert_eq!(session.phase, GamePhase::Playing);
}

#[test]
fn route_avoids_a_building_footprint() {
    let mut session = session();
    session.world.buildings.push(Building {
        kind: BuildingKind::WorkShed,
        complete: true,
        position: TilePos::new(3, 2),
        width: 2,
        height: 2,
    });
    let first = plan_route(&session, TilePos::new(2, 2), TilePos::new(5, 2)).unwrap().next_step().unwrap();
    assert_ne!(first, TilePos::new(3, 2));
}

#[test]
fn route_can_enter_a_blocked_target_tile() {
    let session = session();
    let target = session.world.forest_tiles[0];
    let route = plan_route(&session, TilePos::new(1, 0), target).unwrap();
    assert_eq!(route.next_step(), Some(target));
    assert_eq!(route.steps().last().copied(), Some(target));
}

#[test]
fn route_plan_reports_every_step_in_stable_order() {
    let session = session();
    let route = plan_route(&session, TilePos::new(2, 2), TilePos::new(5, 2)).unwrap();
    assert_eq!(route.steps().first().copied(), Some(TilePos::new(2, 2)));
    assert_eq!(route.steps().last().copied(), Some(TilePos::new(5, 2)));
    assert_eq!(route.step_count(), 3);
    assert!(route
        .steps()
        .windows(2)
        .all(|pair| (pair[0].x - pair[1].x).abs() + (pair[0].y - pair[1].y).abs() == 1));
}

#[test]
fn route_to_the_start_tile_has_no_moves() {
    let session = session();
    let route = plan_route(&session, TilePos::new(2, 3), TilePos::new(2, 3)).unwrap();
    assert_eq!(route.step_count(), 0);
    assert_eq!(route.next_step(), None);
}

#[test]
fn route_plan_explains_a_sealed_cemetery() {
    let mut session = session();
    wall_at_x3(&mut session);
    let failure = plan_route(&session, TilePos::new(2, 2), TilePos::new(5, 2)).unwrap_err();
    assert_eq!(failure, RouteFailure::NoPath);
    assert_eq!(failure.label(), "obstructions seal the way");
}

#[test]
fn nearest_reachable_skips_a_sealed_candidate() {
    let mut session = session();
    wall_at_x3(&mut session);
    let target = nearest_reachable(&session, TilePos::new(2, 2), &vec![TilePos::new(5, 2), TilePos::new(2, 4)]);
    assert_eq!(target, Some(TilePos::new(2, 4)));
}

#[test]
fn nearest_reachable_prefers_the_closer_candidate() {
    let session = session();
    let target = nearest_reachable(&session, TilePos::new(2, 2), &vec![TilePos::new(5, 5), TilePos::new(2, 4)]);
    assert_eq!(target, Some(TilePos::new(2, 4)));
    assert_eq!(nearest_reachable(&session, TilePos::new(2, 2), &vec![]), None);
}

#[test]
fn necromancer_order_names_the_obstruction() {
    let mut session = session();
    session.world.necromancer_position = TilePos::new(2, 2);
    wall_at_x3(&mut session);
    let result = request_necromancer_destination(&mut session, TilePos::new(5, 2));
    assert_eq!(result, Err("The necromancer cannot reach that tile: obstructions seal the way.".to_owned()));
}

#[test]
fn necromancer_order_refuses_a_blocked_tile() {
    let mut session = session();
    let result = request_necromancer_destination(&mut session, TilePos::new(8, 2));
    assert_eq!(result, Err("That tile is blocked or outside the cemetery.".to_owned()));
    assert_eq!(session.world.necromancer_destination, None);
}

#[test]
fn necromancer_simulation_reports_a_route_that_becomes_sealed() {
    let mut session = session();
    session.world.necromancer_position = TilePos::new(2, 2);
    session.world.necromancer_destination = Some(TilePos::new(5, 2));
    wall_at_x3(&mut session);
    assert_eq!(
        simulate_necromancer(&mut session),
        Some("The necromancer's route failed: obstructions seal the way.".to_owned())
    );
    assert_eq!(session.world.necromancer_destination, None);
}

#[test]
fn necromancer_walks_one_step_toward_an_open_destination() {
    let mut session = session();
    session.world.necromancer_position = TilePos::new(2, 3);
    request_necromancer_destination(&mut session, TilePos::new(2, 5)).unwrap();
    assert_eq!(simulate_necromancer(&mut session), None);
    assert_eq!(session.world.necromancer_position, TilePos::new(2, 4));
}

#[test]
fn route_policies_cycle_per_district_and_old_saves_default_them() {
    let mut session = session();
    assert_eq!(session.world.route_policies.work, RoutePolicy::MarkedFirst);
    assert_eq!(session.world.route_policies.cycle(ZoneKind::Work), RoutePolicy::Nearest);
    assert_eq!(session.world.route_policies.storage, RoutePolicy::MarkedFirst);
    assert_eq!(session.world.route_policies.cycle(ZoneKind::Work), RoutePolicy::MarkedOnly);
    assert_eq!(session.world.route_policies.cycle(ZoneKind::Work), RoutePolicy::MarkedFirst);
    assert_eq!(DistrictRoutePolicies::default().patrol, RoutePolicy::MarkedFirst);
}

#[test]
fn zone_helpers_expose_storage_and_patrol_anchors() {
    let mut session = session();
    let storage = TilePos::new(4, 5);
    let patrol = TilePos::new(5, 1);
    session.world.zones = vec![
        Zone { kind: ZoneKind::Storage, tiles: vec![storage] },
        Zone { kind: ZoneKind::Patrol, tiles: vec![patrol] },
    ];
    assert_eq!(session.world.storage_position(), storage);
    assert_eq!(session.world.patrol_position(), patrol);
    assert!(session.world.zone_contains(ZoneKind::Storage, storage));
    assert!(!session.world.zone_contains(ZoneKind::Work, storage));
}

#[test]
fn zone_helpers_fall_back_without_marks() {
    let session = session();
    assert_eq!(session.world.storage_position(), TilePos::new(6, 5));
    assert_eq!(session.world.patrol_position(), TilePos::new(7, 1));
}

#[test]
fn zone_helpers_search_all_marked_districts() {
    let mut session = session();
    let near_storage = TilePos::new(5, 5);
    let near_patrol = TilePos::new(5, 1);
    session.world.zones = vec![
        Zone { kind: ZoneKind::Storage, tiles: vec![TilePos::new(1, 1)] },
        Zone { kind: ZoneKind::Storage, tiles: vec![near_storage] },
        Zone { kind: ZoneKind::Patrol, tiles: vec![TilePos::new(1, 6)] },
        Zone { kind: ZoneKind::Patrol, tiles: vec![near_patrol] },
    ];
    assert_eq!(session.world.storage_position_for(near_storage), near_storage);
    assert_eq!(session.world.patrol_position_for(near_patrol), near_patrol);
}

#[test]
fn zone_tiles_can_be_toggled_back_off() {
    let tile = TilePos::new(4, 4);
    let mut zone = Zone { kind: ZoneKind::Work, tiles: vec![tile] };
    assert!(zone.toggle_tile(tile));
    assert!(zone.tiles.is_empty());
    assert!(!zone.toggle_tile(tile));
    assert_eq!(zone.tiles, vec![tile]);
}

#[test]
fn older_priority_lists_receive_new_jobs_without_losing_order() {
    let mut session = session();
    session.workforce.priorities = vec![JobKind::Dig, JobKind::Haul];
    let restored = GameSession::from_save(save_of(&session), &config());
    assert_eq!(restored.workforce.priorities[0], JobKind::Dig);
    assert_eq!(restored.workforce.priorities[1], JobKind::Haul);
    assert!(restored.workforce.priorities.contains(&JobKind::Refine));
    assert_eq!(restored.workforce.priorities.len(), 6);
}

#[test]
fn older_saves_fill_missing_positions_from_the_layout() {
    let mut session = session();
    session.world.necromancer_position = TilePos::new(-1, -1);
    session.world.stockpile_position = TilePos::new(-1, -1);
    session.economy.storage_capacity = 0;
    session.workforce.workers[0].carrying = 3;
    session.workforce.workers[0].carrying_resource = None;
    let restored = GameSession::from_save(save_of(&session), &config());
    assert_eq!(restored.world.necromancer_position, TilePos::new(5, 6));
    assert_eq!(restored.world.stockpile_position, TilePos::new(6, 5));
    assert_eq!(restored.economy.storage_capacity, 96);
    assert_eq!(restored.workforce.workers[0].carrying_resource, Some(ResourceKind::Bones));
}

#[test]
fn zone_tools_allow_work_tiles_but_reject_roads_and_structures() {
    let mut session = session();
    assert!(session.world.is_zone_tile_allowed(session.world.plots[0].position));
    assert!(session.world.is_zone_tile_allowed(session.world.forest_tiles[0]));
    assert!(!session.world.is_zone_tile_allowed(TilePos::new(session.world.road_x, 0)));
    session.world.buildings.push(Building {
        kind: BuildingKind::GraveLantern,
        complete: true,
        position: TilePos::new(4, 4),
        width: 1,
        height: 1,
    });
    assert!(!session.world.is_zone_tile_allowed(TilePos::new(4, 4)));
}

#[test]
fn loose_piles_merge_and_refresh_legacy_totals() {
    let mut economy = session().economy;
    let first = TilePos::new(2, 2);
    let second = TilePos::new(0, 0);

    economy.add_loose(ResourceKind::Wood, first, 5);
    economy.add_loose(ResourceKind::Wood, first, 2);
    economy.add_loose(ResourceKind::Wood, second, 4);

    assert_eq!(economy.wood, 12);
    assert_eq!(economy.loose_wood, 11);
    assert_eq!(economy.loose_amount_at(ResourceKind::Wood, first), 7);
    assert_eq!(economy.loose_amount_at(ResourceKind::Wood, second), 4);
    assert_eq!(economy.loose_wood_source, Some(second));

    assert_eq!(economy.take_loose(ResourceKind::Wood, first, 6), 6);
    assert_eq!(economy.loose_wood, 5);
    assert_eq!(economy.loose_amount_at(ResourceKind::Wood, first), 1);
    assert_eq!(economy.take_loose(ResourceKind::Wood, first, 6), 1);
    assert_eq!(economy.loose_amount_at(ResourceKind::Wood, first), 0);
}

#[test]
fn old_scalar_loose_material_becomes_one_compatibility_pile() {
    let mut economy = session().economy;
    let source = TilePos::new(2, 2);
    economy.loose_bones = 8;
    economy.loose_bones_source = Some(source);

    economy.normalize_loose_piles();

    assert_eq!(
        economy.loose_piles(ResourceKind::Bones, TilePos::new(6, 5)),
        vec![LooseResourcePile { position: source, amount: 8 }]
    );
}

#[test]
fn storing_stops_at_the_capacity() {
    let mut economy = session().economy;
    economy.bones = 90;
    economy.wood = 0;
    assert_eq!(economy.storage_space(96), 6);
    assert_eq!(economy.store_resource(ResourceKind::Bones, 10, 96), 6);
    assert_eq!(economy.bones, 96);
    assert_eq!(economy.store_resource(ResourceKind::Wood, 3, 96), 0);
}

#[test]
fn facing_follows_the_step_and_keeps_the_last_one_when_standing() {
    let from = TilePos::new(3, 3);
    assert_eq!(Facing::from_step(from, TilePos::new(2, 3), Facing::Down), Facing::Left);
    assert_eq!(Facing::from_step(from, TilePos::new(4, 4), Facing::Down), Facing::Right);
    assert_eq!(Facing::from_step(from, TilePos::new(3, 2), Facing::Down), Facing::Up);
    assert_eq!(Facing::from_step(from, TilePos::new(3, 4), Facing::Left), Facing::Down);
    assert_eq!(Facing::from_step(from, from, Facing::Right), Facing::Right);
}

#[test]
fn a_tick_reports_victory_only_when_it_is_won() {
    let report = TickReport::finish(vec!["done".to_string()], false, GamePhase::Victory);
    assert!(report.became_victorious);
    assert_eq!(report.messages, vec!["done".to_string()]);
    assert!(!TickReport::finish(Vec::new(), true, GamePhase::Victory).became_victorious);
    assert!(!TickReport::finish(Vec::new(), false, GamePhase::Playing).became_victorious);
}

#[test]
fn a_fresh_session_has_empty_stocks_and_default_routes() {
    let session = session();
    assert_eq!(session.economy.shovels, 1);
    assert!(session.economy.corpses.is_empty());
    assert_eq!(session.workforce.next_worker_id, 2);
    assert_eq!(session.world.route_policies, DistrictRoutePolicies::default());
    assert_eq!(session.pressure.last_reason, "Quiet night.");
}

#[test]
fn overlays_start_with_zones_shown() {
    let overlays = DomainOverlays::default();
    assert!(overlays.zones);
    assert!(!overlays.routes);
    assert!(!overlays.pressure);
}

#[test]
fn domain_overlays_toggle_only_after_stewardship() {
    let mut session = GameSession::new(&config());
    let mut overlays = DomainOverlays::default();
    assert!(!toggle_domain_overlay(&mut overlays, &session, DomainOverlay::Routes));
    assert_eq!(overlays, DomainOverlays::default());
    session.research.completed = vec![Technology::DomainStewardship];
    assert!(toggle_domain_overlay(&mut overlays, &session, DomainOverlay::Routes));
    assert!(overlays.routes);
    assert!(overlays.zones);
    assert!(toggle_domain_overlay(&mut overlays, &session, DomainOverlay::Routes));
    assert_eq!(overlays, DomainOverlays::default());
}

fn lantern_session() -> GameSession {
    let mut session = session();
    session.phase = GamePhase::Playing;
    session.world.buildings.push(Building {
        kind: BuildingKind::GraveLantern,
        complete: true,
        position: TilePos::new(5, 0),
        width: 1,
        height: 1,
    });
    session
}

#[test]
fn market_save_defaults_and_normalizes_invalid_rotation() {
    let mut save = save_of(&lantern_session());
    save.progress.market.offer_index = 99;
    let restored = GameSession::from_save(save, &config());
    assert_eq!(restored.progress.market.offer_index, 0);
}

#[test]
fn save_round_trip_preserves_rng_and_operation() {
    let mut session = session();
    session.begin();
    session.economy.wood = 47;
    session.stewardship_policy = StewardshipPolicy::Secure;
    session.progress.district_ledger.work_cycles = 3;
    session.progress.district_ledger.storage_bonus_items = 5;
    let restored = GameSession::from_save(save_of(&session), &config());
    assert_eq!(restored.phase, GamePhase::Playing);
    assert_eq!(restored.economy.wood, 47);
    assert_eq!(restored.stewardship_policy, StewardshipPolicy::Secure);
    assert_eq!(restored.progress.district_ledger.work_cycles, 3);
    assert_eq!(restored.progress.district_ledger.storage_bonus_items, 5);
}

#[test]
fn routes_around_a_wall_take_the_fewest_moves() {
    let mut session = session();
    for y in 0..7 {
        session.world.buildings.push(Building {
            kind: BuildingKind::WorkShed,
            complete: true,
            position: TilePos::new(3, y),
            width: 1,
            height: 1,
        });
    }
    let route = plan_route(&session, TilePos::new(2, 2), TilePos::new(4, 2)).unwrap();
    assert_eq!(route.step_count(), 12);
    assert_eq!(route.steps()[1], TilePos::new(2, 3));
}

#[test]
fn equal_routes_step_first_left_then_right_then_up_then_down() {
    let session = session();
    assert_eq!(next_step(&session, TilePos::new(2, 2), TilePos::new(3, 3)), Some(TilePos::new(3, 2)));
    assert_eq!(next_step(&session, TilePos::new(3, 3), TilePos::new(2, 2)), Some(TilePos::new(2, 3)));
    assert_eq!(next_step(&session, TilePos::new(3, 3), TilePos::new(3, 3)), Some(TilePos::new(3, 3)));
}

#[test]
fn the_authored_cemetery_fits_the_routing_limits() {
    let mut session = session();
    assert!(layout_fits(&session.world));
    session.world.buildings.push(Building {
        kind: BuildingKind::WorkShed,
        complete: true,
        position: TilePos::new(i32::MIN, 0),
        width: -1,
        height: 1,
    });
    assert!(!layout_fits(&session.world));
}
