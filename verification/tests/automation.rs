use tiny_necromancer::automation::{automate_worker, priority_route_skip};
use tiny_necromancer::data::{
    DistrictRules, GameConfig, NamedTilePosition, StartingContentConfig, StartingWorkerConfig,
    WorldLayoutConfig,
};
use tiny_necromancer::kinds::{BuildingKind, JobKind, PlotStatus, ResourceKind, Technology, ZoneKind};
use tiny_necromancer::policies::{RoutePolicy, StewardshipPolicy};
use tiny_necromancer::session::GameSession;
use tiny_necromancer::targets::destination_for_worker;
use tiny_necromancer::tile::TilePos;
use tiny_necromancer::world::{Building, WorldState, Zone};

fn named(id: &str, x: i32, y: i32) -> NamedTilePosition {
    NamedTilePosition { id: id.to_string(), position: TilePos::new(x, y) }
}

fn config() -> GameConfig {
    GameConfig {
        game_name: "tiny_necromancer".to_string(),
        display_name: "Tiny Necromancer".to_string(),
        save_slot: "main".to_string(),
        version: "1".to_string(),
        world_width: 10,
        world_height: 8,
        starting_bones: 10,
        starting_mana: 20,
        starting_wood: 12,
        storage_capacity: 96,
        max_mana: 100,
        worker_wood_reserve: 0,
        starting_unlocked_plots: 1,
        starting_seed: 7,
        victory_undead: 6,
        victory_plots: 6,
        plot_unlock_base_wood: 6,
        plot_unlock_step_wood: 2,
        district_rules: DistrictRules { storage_capacity_bonus: 4, storage_volume_per_tile: 8 },
        world_layout: WorldLayoutConfig {
            road_x: 8,
            mana_source: TilePos::new(7, 0),
            stockpile_position: TilePos::new(6, 5),
            necromancer_position: TilePos::new(5, 6),
            forest_tiles: vec![TilePos::new(0, 0), TilePos::new(0, 1), TilePos::new(1, 7)],
            plot_positions: vec![
                TilePos::new(2, 2),
                TilePos::new(4, 2),
                TilePos::new(2, 4),
                TilePos::new(4, 4),
                TilePos::new(2, 6),
                TilePos::new(4, 6),
            ],
            building_positions: vec![
                named("work_shed", 6, 2),
                named("grave_lantern", 5, 0),
                named("ossuary_kiln", 6, 4),
            ],
        },
        starting_content: StartingContentConfig {
            worker: StartingWorkerConfig {
                id: 1,
                name: "Rattlebones".to_string(),
                undead_id: "skeleton".to_string(),
                job_id: "dig".to_string(),
            },
            initial_feedback: "The first grave waits.".to_string(),
            initial_reason: "Quiet night.".to_string(),
        },
    }
}

fn session() -> GameSession {
    let mut session = GameSession::new(&config());
    session.begin();
    session
}

/// Runs the priority step of one tick for every automated worker, as the
/// game clock does before any worker moves, and returns what it reported.
fn automate_all(session: &mut GameSession, guard_called: bool) -> Vec<String> {
    let config = config();
    let mut messages = Vec::new();
    for index in 0..session.workforce.workers.len() {
        if let Some(message) = automate_worker(session, &config, guard_called, index) {
            messages.push(message);
        }
    }
    messages
}

fn add_second_hand(session: &mut GameSession) {
    let mut second_worker = session.workforce.workers[0].clone();
    second_worker.id = session.workforce.next_worker_id;
    second_worker.name = "Second Hand".to_owned();
    session.workforce.next_worker_id += 1;
    session.workforce.workers.push(second_worker);
}

fn wall_at_x1(session: &mut GameSession) {
    for y in 0..session.world.height as i32 {
        session.world.buildings.push(Building {
            kind: BuildingKind::WorkShed,
            complete: true,
            position: TilePos::new(1, y),
            width: 1,
            height: 1,
        });
    }
}

#[test]
fn harvest_policy_prefers_material_work_over_guarding() {
    let mut session = session();
    session.stewardship_policy = StewardshipPolicy::Harvest;
    session.economy.loose_bones = 8;
    session.workforce.workers[0].priority_mode = true;
    session.workforce.workers[0].assignment = JobKind::Guard;

    automate_all(&mut session, true);

    assert_eq!(session.workforce.workers[0].assignment, JobKind::Haul);
}

#[test]
fn harvest_policy_fills_a_marked_work_gap_before_unmarked_haul() {
    let mut session = session();
    session.research.completed = vec![Technology::DomainStewardship];
    session.stewardship_policy = StewardshipPolicy::Harvest;
    let plot_tile = session.world.plots[0].position;
    session.world.zones.push(Zone { kind: ZoneKind::Work, tiles: vec![plot_tile] });
    session.economy.loose_bones = 8;
    session.workforce.workers[0].priority_mode = true;
    session.workforce.workers[0].assignment = JobKind::Guard;

    automate_all(&mut session, false);

    assert_eq!(session.workforce.workers[0].assignment, JobKind::Dig);
}

#[test]
fn harvest_policy_fills_a_marked_storage_gap_before_unmarked_digging() {
    let mut session = session();
    session.research.completed = vec![Technology::DomainStewardship];
    session.stewardship_policy = StewardshipPolicy::Harvest;
    let stockpile = session.world.stockpile_position();
    session.world.zones.push(Zone { kind: ZoneKind::Storage, tiles: vec![stockpile] });
    session.economy.loose_bones = 8;
    session.workforce.workers[0].priority_mode = true;
    session.workforce.workers[0].assignment = JobKind::Guard;

    automate_all(&mut session, false);

    assert_eq!(session.workforce.workers[0].assignment, JobKind::Haul);
}

#[test]
fn harvest_policy_spreads_automated_workers_across_marked_gaps() {
    let mut session = session();
    session.research.completed = vec![Technology::DomainStewardship];
    session.stewardship_policy = StewardshipPolicy::Harvest;
    let plot_tile = session.world.plots[0].position;
    let stockpile = session.world.stockpile_position();
    session.world.zones.extend([
        Zone { kind: ZoneKind::Work, tiles: vec![plot_tile] },
        Zone { kind: ZoneKind::Storage, tiles: vec![stockpile] },
    ]);
    session.economy.loose_bones = 8;
    add_second_hand(&mut session);
    for worker in &mut session.workforce.workers {
        worker.priority_mode = true;
        worker.assignment = JobKind::Guard;
    }

    automate_all(&mut session, false);

    assert_eq!(session.workforce.workers[0].assignment, JobKind::Haul);
    assert_eq!(session.workforce.workers[1].assignment, JobKind::Dig);
}

#[test]
fn harvest_policy_fills_a_marked_forest_gap_with_wood() {
    let mut session = session();
    session.research.completed = vec![Technology::DomainStewardship];
    session.stewardship_policy = StewardshipPolicy::Harvest;
    let forest_tile = session.world.forest_tiles[0];
    session.world.zones.push(Zone { kind: ZoneKind::Work, tiles: vec![forest_tile] });
    for plot in &mut session.world.plots {
        plot.status = PlotStatus::Locked;
    }
    session.workforce.workers[0].priority_mode = true;
    session.workforce.workers[0].assignment = JobKind::Guard;

    automate_all(&mut session, false);

    assert_eq!(session.workforce.workers[0].assignment, JobKind::Wood);
}

#[test]
fn harvest_policy_respects_a_direct_work_operator() {
    let mut session = session();
    session.research.completed = vec![Technology::DomainStewardship];
    session.stewardship_policy = StewardshipPolicy::Harvest;
    let plot_tile = session.world.plots[0].position;
    session.world.zones.push(Zone { kind: ZoneKind::Work, tiles: vec![plot_tile] });
    session.economy.loose_bones = 8;
    add_second_hand(&mut session);
    session.workforce.workers[1].priority_mode = true;
    session.workforce.workers[1].assignment = JobKind::Guard;
    session.workforce.workers[0].assignment = JobKind::Dig;

    automate_all(&mut session, false);

    assert_eq!(session.workforce.workers[0].assignment, JobKind::Dig);
    assert_eq!(session.workforce.workers[1].assignment, JobKind::Haul);
}

#[test]
fn harvest_policy_fills_a_remaining_work_slot() {
    let mut session = session();
    session.research.completed = vec![Technology::DomainStewardship];
    session.stewardship_policy = StewardshipPolicy::Harvest;
    let first_plot = session.world.plots[0].position;
    let second_plot = session.world.plots[1].position;
    session.world.zones.push(Zone { kind: ZoneKind::Work, tiles: vec![first_plot, second_plot] });
    session.world.plots[1].status = PlotStatus::Ready;
    session.economy.loose_bones = 8;
    add_second_hand(&mut session);
    session.workforce.workers[1].priority_mode = true;
    session.workforce.workers[1].assignment = JobKind::Guard;
    session.workforce.workers[0].assignment = JobKind::Dig;

    automate_all(&mut session, false);

    assert_eq!(session.workforce.workers[0].assignment, JobKind::Dig);
    assert_eq!(session.workforce.workers[1].assignment, JobKind::Dig);
}

#[test]
fn harvest_policy_keeps_pre_domain_priorities_unchanged() {
    let mut session = session();
    session.stewardship_policy = StewardshipPolicy::Harvest;
    let plot_tile = session.world.plots[0].position;
    session.world.zones.push(Zone { kind: ZoneKind::Work, tiles: vec![plot_tile] });
    session.economy.loose_bones = 8;
    session.workforce.workers[0].priority_mode = true;
    session.workforce.workers[0].assignment = JobKind::Guard;

    automate_all(&mut session, false);

    assert_eq!(session.workforce.workers[0].assignment, JobKind::Haul);
}

#[test]
fn automated_worker_falls_back_from_a_blocked_marked_forest() {
    let mut session = session();
    session.research.completed = vec![Technology::DomainStewardship];
    session.workforce.workers[0].priority_mode = true;
    session.workforce.workers[0].assignment = JobKind::Wood;
    session.workforce.priorities =
        vec![JobKind::Wood, JobKind::Haul, JobKind::Guard, JobKind::Dig, JobKind::Build, JobKind::Refine];
    let forest_tile = session.world.forest_tiles[0];
    session.world.zones.push(Zone { kind: ZoneKind::Work, tiles: vec![forest_tile] });
    session.economy.loose_bones = 8;
    wall_at_x1(&mut session);

    assert_eq!(priority_route_skip(&session, &config(), false, 0), Some(JobKind::Wood));
    let messages = automate_all(&mut session, false);

    assert_eq!(session.workforce.workers[0].assignment, JobKind::Haul);
    assert!(messages.iter().any(|message| message == "Rattlebones skipped Wood: no route."));
}

#[test]
fn automated_worker_keeps_its_duty_when_every_route_is_blocked() {
    let mut session = session();
    let config = config();
    session.research.completed = vec![Technology::DomainStewardship];
    session.progress.unlocked_plots = config.victory_plots;
    for plot in &mut session.world.plots {
        plot.status = PlotStatus::Locked;
    }
    session.economy.wood = config.worker_wood_reserve;
    session.workforce.workers[0].priority_mode = true;
    session.workforce.workers[0].assignment = JobKind::Wood;
    let forest_tile = session.world.forest_tiles[0];
    session.world.zones.push(Zone { kind: ZoneKind::Work, tiles: vec![forest_tile] });
    wall_at_x1(&mut session);

    automate_all(&mut session, false);

    assert_eq!(session.workforce.workers[0].assignment, JobKind::Wood);
}

#[test]
fn automated_worker_keeps_priority_order_among_reachable_duties() {
    let mut session = session();
    session.workforce.workers[0].priority_mode = true;
    session.workforce.workers[0].assignment = JobKind::Guard;
    session.workforce.priorities =
        vec![JobKind::Wood, JobKind::Haul, JobKind::Guard, JobKind::Dig, JobKind::Build, JobKind::Refine];
    session.economy.loose_bones = 8;

    automate_all(&mut session, false);

    assert_eq!(session.workforce.workers[0].assignment, JobKind::Wood);
}

#[test]
fn manual_workers_keep_their_orders() {
    let mut session = session();
    session.workforce.workers[0].priority_mode = false;
    session.workforce.workers[0].assignment = JobKind::Guard;
    session.economy.loose_bones = 8;
    let messages = automate_all(&mut session, false);
    assert!(messages.is_empty());
    assert_eq!(session.workforce.workers[0].assignment, JobKind::Guard);
}

#[test]
fn hypothetical_haul_route_uses_the_worker_roster_slot() {
    let mut session = session();
    let first_storage = TilePos::new(5, 1);
    let second_storage = TilePos::new(6, 5);
    session.world.zones.push(Zone { kind: ZoneKind::Storage, tiles: vec![first_storage, second_storage] });
    session.workforce.workers[0].assignment = JobKind::Wood;
    session.workforce.workers[0].carrying = 1;
    session.workforce.workers[0].position = first_storage;
    let mut hypothetical = session.workforce.workers[0].clone();
    hypothetical.assignment = JobKind::Haul;

    assert_eq!(destination_for_worker(&session, &hypothetical), Some(first_storage));
}

#[test]
fn nearest_work_policy_ignores_marked_forest_preference_for_repeat_workers() {
    let mut session = session();
    session.research.completed = vec![Technology::DomainStewardship];
    let marked = session.world.forest_tiles[1];
    session.world.zones.push(Zone { kind: ZoneKind::Work, tiles: vec![marked] });
    session.world.route_policies.work = RoutePolicy::Nearest;
    session.workforce.workers[0].priority_mode = true;
    session.workforce.workers[0].assignment = JobKind::Wood;
    session.workforce.workers[0].position = TilePos::new(1, 0);

    assert_eq!(
        destination_for_worker(&session, &session.workforce.workers[0]),
        Some(session.world.forest_tiles[0])
    );
}

#[test]
fn marked_only_work_policy_waits_without_marks_but_direct_orders_stay_open() {
    let mut session = session();
    session.research.completed = vec![Technology::DomainStewardship];
    session.world.route_policies.work = RoutePolicy::MarkedOnly;
    session.workforce.workers[0].assignment = JobKind::Wood;
    session.workforce.workers[0].priority_mode = true;

    assert_eq!(destination_for_worker(&session, &session.workforce.workers[0]), None);
    session.workforce.workers[0].priority_mode = false;
    assert!(destination_for_worker(&session, &session.workforce.workers[0]).is_some());
}

#[test]
fn nearest_storage_and_patrol_policies_use_normal_fallbacks() {
    let mut session = session();
    session.research.completed = vec![Technology::DomainStewardship];
    let marked_storage = TilePos::new(5, 1);
    let marked_patrol = TilePos::new(5, 3);
    session.world.zones.extend([
        Zone { kind: ZoneKind::Storage, tiles: vec![marked_storage] },
        Zone { kind: ZoneKind::Patrol, tiles: vec![marked_patrol] },
    ]);
    session.world.route_policies.storage = RoutePolicy::Nearest;
    session.world.route_policies.patrol = RoutePolicy::Nearest;
    let stockpile = session.world.stockpile_position();
    session.workforce.workers[0].priority_mode = true;
    session.workforce.workers[0].position = stockpile;
    session.workforce.workers[0].assignment = JobKind::Haul;
    session.workforce.workers[0].carrying = 1;
    assert_eq!(destination_for_worker(&session, &session.workforce.workers[0]), Some(stockpile));
    session.workforce.workers[0].assignment = JobKind::Guard;
    session.workforce.workers[0].carrying = 0;
    assert_eq!(
        destination_for_worker(&session, &session.workforce.workers[0]),
        Some(WorldState::guard_position(session.world.road_x))
    );
}

#[test]
fn a_reassigned_hauler_sets_its_load_down_where_it_stands() {
    let mut session = session();
    let tile = TilePos::new(3, 3);
    session.workforce.workers[0].priority_mode = true;
    session.workforce.workers[0].assignment = JobKind::Build;
    session.economy.add_loose(ResourceKind::Bones, TilePos::new(2, 2), 8);
    session.workforce.workers[0].position = tile;
    session.workforce.workers[0].carrying = 5;
    session.workforce.workers[0].carrying_resource = Some(ResourceKind::Wood);
    let wood_before = session.economy.wood;
    let bones_before = session.economy.bones;

    automate_all(&mut session, false);

    assert_eq!(session.workforce.workers[0].assignment, JobKind::Haul);
    assert_eq!(session.workforce.workers[0].carrying, 0);
    assert_eq!(session.economy.loose_amount_at(ResourceKind::Wood, tile), 5);
    assert_eq!(session.economy.loose_wood, 5);
    assert_eq!(session.economy.wood, wood_before);
    assert_eq!(session.economy.bones, bones_before);
}

#[test]
fn priorities_are_repaired_into_every_job_once() {
    let mut session = session();
    session.workforce.priorities = vec![JobKind::Dig, JobKind::Haul, JobKind::Dig];
    session.workforce.normalize_priorities();
    assert_eq!(
        session.workforce.priorities,
        vec![JobKind::Dig, JobKind::Haul, JobKind::Guard, JobKind::Build, JobKind::Wood, JobKind::Refine]
    );
    let once = session.workforce.priorities.clone();
    session.workforce.normalize_priorities();
    assert_eq!(session.workforce.priorities, once);
}
