use tiny_necromancer::coverage::{
    compact_coverage_summary, coverage_summary, first_route_gap_worker, route_coverage_needs_attention,
    route_gap_district, service_coverage,
};
use tiny_necromancer::data::{
    DistrictRules, GameConfig, NamedTilePosition, StartingContentConfig, StartingWorkerConfig,
    WorldLayoutConfig,
};
use tiny_necromancer::districts::{
    choose_zone_mode, compact_operations_summary, paint_zone, haul_capacity_bonus, operations_summary, record_storage_bonus,
    record_work_cycle, rule_summary, staffing_gap, storage_capacity, storage_summary, tile_summary,
    total_staffing_gap,
};
use tiny_necromancer::kinds::{JobKind, Technology, ZoneKind};
use tiny_necromancer::session::GameSession;
use tiny_necromancer::tile::TilePos;
use tiny_necromancer::world::{Building, WorldState, Zone};
use tiny_necromancer::kinds::BuildingKind;

fn named(id: &str, x: i32, y: i32) -> NamedTilePosition {
    NamedTilePosition { id: id.to_string(), position: TilePos::new(x, y) }
}

fn config() -> GameConfig {
    GameConfig {
        game_name: "tiny_necromancer".to_string(),
        display_name: "Tiny Necromancer".to_string(),
        save_slot: "main".to_string(),
        version: "1".to_string(),
        world_width: 10,
        world_height: 8,
        starting_bones: 10,
        starting_mana: 20,
        starting_wood: 12,
        storage_capacity: 96,
        max_mana: 100,
        worker_wood_reserve: 0,
        starting_unlocked_plots: 1,
        starting_seed: 7,
        victory_undead: 6,
        victory_plots: 6,
        plot_unlock_base_wood: 6,
        plot_unlock_step_wood: 2,
        district_rules: DistrictRules { storage_capacity_bonus: 4, storage_volume_per_tile: 8 },
        world_layout: WorldLayoutConfig {
            road_x: 8,
            mana_source: TilePos::new(7, 0),
            stockpile_position: TilePos::new(6, 5),
            necromancer_position: TilePos::new(5, 6),
            forest_tiles: vec![TilePos::new(0, 0), TilePos::new(0, 1), TilePos::new(1, 7)],
            plot_positions: vec![
                TilePos::new(2, 2),
                TilePos::new(4, 2),
                TilePos::new(2, 4),
                TilePos::new(4, 4),
                TilePos::new(2, 6),
                TilePos::new(4, 6),
            ],
            building_positions: vec![
                named("work_shed", 6, 2),
                named("grave_lantern", 5, 0),
                named("ossuary_kiln", 6, 4),
            ],
        },
        starting_content: StartingContentConfig {
            worker: StartingWorkerConfig {
                id: 1,
                name: "Rattle".to_string(),
                undead_id: "skeleton".to_string(),
                job_id: "dig".to_string(),
            },
            initial_feedback: "The first grave waits.".to_string(),
            initial_reason: "Quiet night.".to_string(),
        },
    }
}

fn session() -> GameSession {
    GameSession::new(&config())
}

fn rules() -> DistrictRules {
    config().district_rules
}

fn stockpile() -> TilePos {
    TilePos::new(6, 5)
}

#[test]
fn district_rules_wait_for_domain_stewardship() {
    let mut session = session();
    let work_tile = session.world.plots[0].position;
    let patrol_tile = WorldState::guard_position(session.world.road_x);
    session.world.zones = vec![
        Zone { kind: ZoneKind::Work, tiles: vec![work_tile] },
        Zone { kind: ZoneKind::Storage, tiles: vec![stockpile()] },
        Zone { kind: ZoneKind::Patrol, tiles: vec![patrol_tile] },
    ];
    assert_eq!(haul_capacity_bonus(&session, &rules(), stockpile()), 0);
    assert_eq!(storage_capacity(&session, &rules()), 96);

    session.research.completed = vec![Technology::DomainStewardship];

    assert_eq!(haul_capacity_bonus(&session, &rules(), stockpile()), rules().storage_capacity_bonus);
    assert_eq!(storage_capacity(&session, &rules()), 104);
    assert_eq!(haul_capacity_bonus(&session, &rules(), TilePos::new(4, 4)), 0);
}

#[test]
fn rule_summary_names_only_marked_districts() {
    let mut session = session();
    session.research.completed = vec![Technology::DomainStewardship];
    session.world.zones.push(Zone { kind: ZoneKind::Storage, tiles: vec![stockpile()] });
    assert_eq!(rule_summary(&session, &rules(), "15", "20"), "Rules: marked tiles \u{b7} Storage +4");
}

#[test]
fn rule_summary_lists_every_active_district_in_order() {
    let mut session = session();
    session.research.completed = vec![Technology::DomainStewardship];
    session.world.zones = vec![
        Zone { kind: ZoneKind::Patrol, tiles: vec![TilePos::new(7, 1)] },
        Zone { kind: ZoneKind::Work, tiles: vec![TilePos::new(2, 2)] },
    ];
    assert_eq!(
        rule_summary(&session, &rules(), "15", "20"),
        "Rules: marked tiles \u{b7} Work +15% \u{b7} Patrol +20%"
    );
}

#[test]
fn operations_summary_names_staffing_by_district() {
    let mut session = session();
    let work_tile = session.world.plots[0].position;
    session.world.zones = vec![
        Zone { kind: ZoneKind::Work, tiles: vec![work_tile] },
        Zone { kind: ZoneKind::Patrol, tiles: vec![WorldState::guard_position(session.world.road_x)] },
    ];
    assert_eq!(
        operations_summary(&session),
        "Staffing (workers/marks): Work 1/1 \u{b7} Storage 0/0 \u{b7} Patrol 0/1 post"
    );
    assert_eq!(compact_operations_summary(&session), "Staffing: W 1/1 \u{b7} S 0/0 \u{b7} P 0/1 posts \u{b7} GAP 1");
    assert_eq!(staffing_gap(&session, ZoneKind::Patrol), 1);
    assert_eq!(staffing_gap(&session, ZoneKind::Work), 0);
    assert_eq!(total_staffing_gap(&session), 1);
}

#[test]
fn a_staffed_guard_post_counts_in_the_summary() {
    let mut session = session();
    session.workforce.workers[0].assignment = JobKind::Guard;
    session.world.zones = vec![Zone { kind: ZoneKind::Patrol, tiles: vec![TilePos::new(7, 1), TilePos::new(5, 1)] }];
    assert_eq!(
        operations_summary(&session),
        "Staffing (workers/marks): Work 0/0 \u{b7} Storage 0/0 \u{b7} Patrol 1/2 posts"
    );
    assert_eq!(compact_operations_summary(&session), "Staffing: W 0/0 \u{b7} S 0/0 \u{b7} P 1/2 posts \u{b7} GAP 1");
}

#[test]
fn marked_tile_summary_explains_the_local_domain_rule() {
    let mut session = session();
    let tile = session.world.plots[0].position;
    session.research.completed = vec![Technology::DomainStewardship];
    session.world.zones.push(Zone { kind: ZoneKind::Work, tiles: vec![tile] });
    assert_eq!(
        tile_summary(&session, &rules(), "15", "20", tile),
        Some("Work district \u{b7} 1 marked tile \u{b7} +15% Dig/Wood speed here.".to_owned())
    );
}

#[test]
fn unmarked_tiles_have_no_district_summary() {
    let mut session = session();
    let tile = session.world.plots[0].position;
    session.research.completed = vec![Technology::DomainStewardship];
    session.world.zones.push(Zone { kind: ZoneKind::Work, tiles: vec![tile] });
    assert_eq!(tile_summary(&session, &rules(), "15", "20", TilePos::new(4, 4)), None);
}

#[test]
fn marked_tile_summary_names_domain_as_the_next_unlock() {
    let mut session = session();
    let tile = stockpile();
    session.world.zones.push(Zone { kind: ZoneKind::Storage, tiles: vec![tile] });
    assert_eq!(
        tile_summary(&session, &rules(), "15", "20", tile),
        Some("Storage district \u{b7} 1 marked tile \u{b7} Domain Stewardship will activate its local rule.".to_owned())
    );
}

#[test]
fn marked_tile_summary_keeps_overlapping_district_marks_visible() {
    let mut session = session();
    let tile = session.world.plots[0].position;
    session.research.completed = vec![Technology::DomainStewardship];
    session.world.zones = vec![
        Zone { kind: ZoneKind::Work, tiles: vec![tile] },
        Zone { kind: ZoneKind::Storage, tiles: vec![tile] },
    ];
    let summary = tile_summary(&session, &rules(), "15", "20", tile).expect("overlapping marks are inspectable");
    assert!(summary.contains("Work district"));
    assert!(summary.contains("+15% Dig/Wood speed here."));
    assert!(summary.contains("Storage district"));
    assert!(summary.contains("+4 Haul capacity here."));
    assert!(summary.contains("\n"));
}

#[test]
fn locked_overlapping_tile_summary_avoids_repeated_unlock_copy() {
    let mut session = session();
    let tile = session.world.plots[0].position;
    session.world.zones = vec![
        Zone { kind: ZoneKind::Work, tiles: vec![tile] },
        Zone { kind: ZoneKind::Storage, tiles: vec![tile] },
    ];
    assert_eq!(
        tile_summary(&session, &rules(), "15", "20", tile),
        Some("Work district + Storage district \u{b7} Domain Stewardship will activate their local rules.".to_owned())
    );
}

#[test]
fn empty_districts_keep_original_job_values() {
    let mut session = session();
    session.research.completed = vec![Technology::DomainStewardship];
    let tile = session.world.plots[0].position;
    assert_eq!(haul_capacity_bonus(&session, &rules(), tile), 0);
    assert!(rule_summary(&session, &rules(), "15", "20").starts_with("No district rules"));
}

#[test]
fn district_ledger_records_effects_and_first_use_notes() {
    let mut session = session();
    record_work_cycle(&mut session);
    record_work_cycle(&mut session);
    record_storage_bonus(&mut session, 4);
    record_storage_bonus(&mut session, 0);
    assert_eq!(session.progress.district_ledger.work_cycles, 2);
    assert_eq!(session.progress.district_ledger.storage_bonus_items, 4);
    assert_eq!(session.pressure.feed.len(), 3);
    assert!(session.pressure.feed.iter().any(|entry| entry.message.contains("marked Work")));
    assert!(session.pressure.feed.iter().any(|entry| entry.message.contains("first pickup")));
    record_storage_bonus(&mut session, 3);
    assert_eq!(session.progress.district_ledger.storage_bonus_items, 7);
    assert_eq!(session.pressure.feed.len(), 3);
}

#[test]
fn storage_summary_counts_marked_room() {
    let mut session = session();
    session.economy.bones = 20;
    session.economy.wood = 10;
    assert_eq!(storage_summary(&session, &rules()), "Storage: 30/96 used \u{b7} 66 room");
    session.research.completed = vec![Technology::DomainStewardship];
    session.world.zones.push(Zone { kind: ZoneKind::Storage, tiles: vec![stockpile(), TilePos::new(5, 5)] });
    assert_eq!(storage_summary(&session, &rules()), "Storage: 30/112 used \u{b7} 82 room");
}

fn guard_pair() -> GameSession {
    let mut session = session();
    session.world.zones.push(Zone { kind: ZoneKind::Patrol, tiles: vec![TilePos::new(5, 1), TilePos::new(5, 3)] });
    session.workforce.workers[0].assignment = JobKind::Guard;
    let mut second = session.workforce.workers[0].clone();
    second.id = 9;
    second.assignment = JobKind::Dig;
    session.workforce.workers.push(second);
    session
}

#[test]
fn patrol_coverage_counts_one_post_per_guard() {
    let session = guard_pair();
    let patrol = service_coverage(&session, ZoneKind::Patrol);
    assert_eq!((patrol.marked, patrol.assigned, patrol.reachable), (2, 1, 1));
    assert_eq!(patrol.needed(), 1);
    assert_eq!(
        coverage_summary(&session),
        "Route coverage (reachable/needed): Work 0/0 \u{b7} Storage 0/0 \u{b7} Patrol 1/1"
    );
    assert!(!route_coverage_needs_attention(&session));
    assert_eq!(first_route_gap_worker(&session, ZoneKind::Patrol), None);
}

#[test]
fn sealed_patrol_posts_point_to_the_stranded_guard() {
    let mut session = guard_pair();
    for y in 0..session.world.height as i32 {
        session.world.buildings.push(Building {
            kind: BuildingKind::WorkShed,
            complete: true,
            position: TilePos::new(3, y),
            width: 1,
            height: 1,
        });
    }
    let patrol = service_coverage(&session, ZoneKind::Patrol);
    assert_eq!(patrol.reachable, 0);
    assert!(route_coverage_needs_attention(&session));
    assert_eq!(compact_coverage_summary(&session), "Routes: W 0/0 \u{b7} S 0/0 \u{b7} P 0/1");
    assert_eq!(first_route_gap_worker(&session, ZoneKind::Patrol), Some(0));
    assert_eq!(route_gap_district(&session, 0), Some(ZoneKind::Patrol));
    assert_eq!(route_gap_district(&session, 1), None);
    assert_eq!(route_gap_district(&session, 7), None);
}

#[test]
fn work_coverage_moves_a_woodcutter_to_make_room_for_a_digger() {
    let mut session = session();
    session.world.zones.push(Zone { kind: ZoneKind::Work, tiles: vec![TilePos::new(5, 5), TilePos::new(0, 0)] });
    session.workforce.workers[0].assignment = JobKind::Wood;
    session.workforce.workers[0].position = TilePos::new(2, 3);
    let mut digger = session.workforce.workers[0].clone();
    digger.id = 2;
    digger.assignment = JobKind::Dig;
    session.workforce.workers.push(digger);
    let work = service_coverage(&session, ZoneKind::Work);
    assert_eq!((work.marked, work.assigned, work.reachable), (2, 2, 2));
    assert!(!route_coverage_needs_attention(&session));
}

#[test]
fn unmarked_districts_report_no_coverage() {
    let session = session();
    let storage = service_coverage(&session, ZoneKind::Storage);
    assert_eq!((storage.marked, storage.assigned, storage.reachable), (0, 0, 0));
}

#[test]
fn painting_marks_a_new_zone_and_notes_it() {
    let mut session = GameSession::new(&config());
    assert_eq!(paint_zone(&mut session, ZoneKind::Storage, TilePos::new(5, 1)), Some(false));
    assert_eq!(session.world.zones.len(), 1);
    assert_eq!(session.world.zones[0].kind, ZoneKind::Storage);
    assert_eq!(session.world.zones[0].tiles, vec![TilePos::new(5, 1)]);
    assert_eq!(session.pressure.feed[0].message, "Storage zone marked at 6, 2.");
}

#[test]
fn painting_a_marked_tile_clears_it_and_drops_an_empty_zone() {
    let mut session = GameSession::new(&config());
    paint_zone(&mut session, ZoneKind::Work, TilePos::new(5, 1));
    paint_zone(&mut session, ZoneKind::Work, TilePos::new(5, 3));
    assert_eq!(session.world.zones[0].tiles, vec![TilePos::new(5, 1), TilePos::new(5, 3)]);
    assert_eq!(paint_zone(&mut session, ZoneKind::Work, TilePos::new(5, 1)), Some(true));
    assert_eq!(session.world.zones[0].tiles, vec![TilePos::new(5, 3)]);
    assert_eq!(session.pressure.feed[0].message, "Work zone cleared at 6, 2.");
    assert_eq!(paint_zone(&mut session, ZoneKind::Work, TilePos::new(5, 3)), Some(true));
    assert!(session.world.zones.is_empty());
}

#[test]
fn painting_refuses_the_road_and_structures() {
    let mut session = GameSession::new(&config());
    let feed_before = session.pressure.feed.len();
    assert_eq!(paint_zone(&mut session, ZoneKind::Patrol, TilePos::new(8, 1)), None);
    assert!(session.world.zones.is_empty());
    assert_eq!(session.pressure.feed.len(), feed_before);
}

#[test]
fn the_zone_tool_waits_for_gravecraft_and_toggles() {
    let mut session = GameSession::new(&config());
    assert_eq!(choose_zone_mode(&session, None, ZoneKind::Work), None);
    session.research.completed = vec![Technology::Gravecraft];
    assert_eq!(choose_zone_mode(&session, None, ZoneKind::Work), Some(ZoneKind::Work));
    assert_eq!(choose_zone_mode(&session, Some(ZoneKind::Work), ZoneKind::Storage), Some(ZoneKind::Storage));
    assert_eq!(choose_zone_mode(&session, Some(ZoneKind::Storage), ZoneKind::Storage), None);
}
