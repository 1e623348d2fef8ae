use tiny_necromancer::alerts::{collect, AlertSeverity};
use tiny_necromancer::data::{
    DistrictRules, GameConfig, NamedTilePosition, StartingContentConfig, StartingWorkerConfig,
    WorldLayoutConfig,
};
use tiny_necromancer::kinds::{BuildingKind, JobKind, PlotStatus, ProductionRecipeKind, SuspicionStage, Technology, ZoneKind};
use tiny_necromancer::pressure::{enter_stage, resolve_event, EventChoiceDef, EventDef};
use tiny_necromancer::session::{GameSession, ProductionOrder};
use tiny_necromancer::tile::TilePos;
use tiny_necromancer::world::{Building, Selection, Zone};

fn named(id: &str, x: i32, y: i32) -> NamedTilePosition {
    NamedTilePosition { id: id.to_string(), position: TilePos::new(x, y) }
}

fn config() -> GameConfig {
    GameConfig {
        game_name: "tiny_necromancer".to_string(),
        display_name: "Tiny Necromancer".to_string(),
        save_slot: "main".to_string(),
        version: "1".to_string(),
        world_width: 10,
        world_height: 8,
        starting_bones: 10,
        starting_mana: 20,
        starting_wood: 12,
        storage_capacity: 96,
        max_mana: 100,
        worker_wood_reserve: 0,
        starting_unlocked_plots: 1,
        starting_seed: 7,
        victory_undead: 6,
        victory_plots: 6,
        plot_unlock_base_wood: 6,
        plot_unlock_step_wood: 2,
        district_rules: DistrictRules { storage_capacity_bonus: 4, storage_volume_per_tile: 8 },
        world_layout: WorldLayoutConfig {
            road_x: 8,
            mana_source: TilePos::new(7, 0),
            stockpile_position: TilePos::new(6, 5),
            necromancer_position: TilePos::new(5, 6),
            forest_tiles: vec![TilePos::new(0, 0), TilePos::new(0, 1), TilePos::new(1, 7)],
            plot_positions: vec![
                TilePos::new(2, 2),
                TilePos::new(4, 2),
                TilePos::new(2, 4),
                TilePos::new(4, 4),
                TilePos::new(2, 6),
                TilePos::new(4, 6),
            ],
            building_positions: vec![
                named("work_shed", 6, 2),
                named("grave_lantern", 5, 0),
                named("ossuary_kiln", 6, 4),
            ],
        },
        starting_content: StartingContentConfig {
            worker: StartingWorkerConfig {
                id: 1,
                name: "Rattle".to_string(),
                undead_id: "skeleton".to_string(),
                job_id: "dig".to_string(),
            },
            initial_feedback: "The first grave waits.".to_string(),
            initial_reason: "Quiet night.".to_string(),
        },
    }
}

fn session() -> GameSession {
    GameSession::new(&config())
}

fn loaded_order() -> ProductionOrder {
    ProductionOrder {
        building: BuildingKind::OssuaryKiln,
        recipe: ProductionRecipeKind::WardCharge,
        bones_remaining: 0,
        wood_remaining: 0,
    }
}

fn choice(id: &str, mana_delta: i32, pause_digging: bool) -> EventChoiceDef {
    EventChoiceDef {
        id: id.to_string(),
        label: id.to_string(),
        description: format!("Choose {id}."),
        bones_delta: 0,
        mana_delta,
        wood_delta: 0,
        pause_digging,
    }
}

fn events() -> Vec<EventDef> {
    vec![
        EventDef {
            id: "rumour".to_string(),
            stage: SuspicionStage::Rumour,
            title: "Talk at the tavern".to_string(),
            body: "Villagers talk.".to_string(),
            choices: vec![choice("ignore", 0, false), choice("hide", 0, true)],
        },
        EventDef {
            id: "questioning".to_string(),
            stage: SuspicionStage::Questioning,
            title: "The priest asks questions".to_string(),
            body: "Someone noticed fresh earth.".to_string(),
            choices: vec![choice("ward", -6, false)],
        },
    ]
}

#[test]
fn loaded_production_without_a_refiner_becomes_actionable() {
    let mut session = session();
    session.progress.production = Some(loaded_order());
    session.world.buildings.push(Building {
        kind: BuildingKind::OssuaryKiln,
        complete: true,
        position: TilePos::new(6, 4),
        width: 2,
        height: 1,
    });
    let alerts = collect(&session, None);
    let alert = alerts
        .iter()
        .find(|alert| alert.title == "Kiln unattended")
        .expect("production blocker should be reported");
    assert_eq!(alert.target, Some(Selection::Building(0)));
    assert_eq!(alert.detail, "Ward cycle loaded \u{b7} assign a Refine worker (0 queued).");
}

#[test]
fn assigned_refiner_clears_the_kiln_alert() {
    let mut session = session();
    session.progress.production = Some(loaded_order());
    session.workforce.workers[0].assignment = JobKind::Refine;
    assert!(!collect(&session, None).iter().any(|alert| alert.title == "Kiln unattended"));
}

#[test]
fn loose_material_without_a_hauler_points_to_its_source() {
    let mut session = session();
    let source = TilePos::new(4, 3);
    session.economy.loose_bones = 8;
    session.economy.loose_bones_source = Some(source);
    let alert = collect(&session, None)
        .into_iter()
        .find(|alert| alert.title == "Materials waiting")
        .expect("loose material should be reported");
    assert_eq!(alert.target, Some(Selection::Ground(source)));
    assert_eq!(alert.detail, "8 loose bones need a Haul order.");
}

#[test]
fn construction_without_a_builder_points_to_the_scaffold() {
    let mut session = session();
    session.world.buildings.push(Building {
        kind: BuildingKind::WorkShed,
        complete: false,
        position: TilePos::new(6, 2),
        width: 2,
        height: 2,
    });
    let alert = collect(&session, None)
        .into_iter()
        .find(|alert| alert.title == "Construction stalled")
        .expect("unfinished structure should be reported");
    assert_eq!(alert.target, Some(Selection::Building(0)));
}

#[test]
fn road_pressure_alert_waits_until_the_questioning_threshold() {
    let mut session = session();
    session.pressure.stage = SuspicionStage::Questioning;
    assert!(!collect(&session, None).iter().any(|alert| alert.severity == AlertSeverity::Critical));
    let alerts = collect(&session, Some("52"));
    assert_eq!(alerts[0].severity, AlertSeverity::Critical);
    assert_eq!(alerts[0].detail, "Questioning at 52% \u{b7} assign Guards or spend a ward.");
    assert_eq!(alerts[0].target, Some(Selection::Worker(0)));
}

#[test]
fn idle_graves_ask_for_a_digger() {
    let mut session = session();
    session.workforce.workers[0].assignment = JobKind::Haul;
    let alert = collect(&session, None)
        .into_iter()
        .find(|alert| alert.title == "Grave work waiting")
        .expect("an open plot without a digger should be reported");
    assert_eq!(alert.severity, AlertSeverity::Info);
    assert_eq!(alert.target, Some(Selection::Grave(0)));
}

#[test]
fn a_waiting_event_silences_every_alert() {
    let mut session = session();
    session.workforce.workers[0].assignment = JobKind::Haul;
    session.pressure.active_event = Some("rumour".to_string());
    assert!(collect(&session, Some("60")).is_empty());
}

#[test]
fn suspicion_crossing_threshold_opens_the_matching_event() {
    let mut session = session();
    enter_stage(&mut session, &events(), SuspicionStage::Rumour);
    assert_eq!(session.pressure.stage, SuspicionStage::Rumour);
    assert_eq!(session.pressure.active_event.as_deref(), Some("rumour"));
    assert_eq!(session.pressure.feed[0].message, "Human pressure: Talk at the tavern");
}

#[test]
fn a_met_event_does_not_return() {
    let mut session = session();
    session.pressure.event_history = vec!["rumour".to_string()];
    enter_stage(&mut session, &events(), SuspicionStage::Rumour);
    assert_eq!(session.pressure.stage, SuspicionStage::Rumour);
    assert_eq!(session.pressure.active_event, None);
    enter_stage(&mut session, &events(), SuspicionStage::Calm);
    assert_eq!(session.pressure.stage, SuspicionStage::Calm);
    assert_eq!(session.pressure.active_event, None);
}

#[test]
fn resolving_a_ward_choice_reduces_suspicion_and_closes_event() {
    let mut session = session();
    session.pressure.stage = SuspicionStage::Questioning;
    session.pressure.active_event = Some("questioning".to_owned());
    session.economy.mana = 20;
    resolve_event(&mut session, &events(), "ward").unwrap();
    assert!(session.pressure.active_event.is_none());
    assert_eq!(session.economy.mana, 14);
    assert_eq!(session.pressure.event_history, vec!["questioning".to_string()]);
}

#[test]
fn hiding_sends_diggers_to_guard() {
    let mut session = session();
    session.pressure.active_event = Some("rumour".to_owned());
    session.workforce.workers[0].target_plot = Some(0);
    resolve_event(&mut session, &events(), "hide").unwrap();
    assert_eq!(session.workforce.workers[0].assignment, JobKind::Guard);
    assert_eq!(session.workforce.workers[0].target_plot, None);
    assert_eq!(session.pressure.feed[0].message, "Digging workers are hiding until the road is quiet.");
}

#[test]
fn resolving_needs_a_waiting_event_and_a_known_choice() {
    let mut session = session();
    assert!(resolve_event(&mut session, &events(), "ward").is_err());
    session.pressure.active_event = Some("questioning".to_owned());
    assert!(resolve_event(&mut session, &events(), "flee").is_err());
    assert_eq!(session.pressure.active_event.as_deref(), Some("questioning"));
}

fn wall_at_x3(session: &mut GameSession) {
    for y in 0..session.world.height as i32 {
        session.world.buildings.push(Building {
            kind: BuildingKind::WorkShed,
            complete: true,
            position: TilePos::new(3, y),
            width: 1,
            height: 1,
        });
    }
}

#[test]
fn blocked_worker_route_points_to_the_worker() {
    let mut session = session();
    session.workforce.workers[0].assignment = JobKind::Guard;
    session.workforce.workers[0].position = TilePos::new(2, 2);
    wall_at_x3(&mut session);

    let alert = collect(&session, None)
        .into_iter()
        .find(|alert| alert.title == "Route blocked")
        .expect("sealed worker route should be reported");
    assert_eq!(alert.target, Some(Selection::Worker(0)));
    assert!(alert.detail.contains("obstructions seal the way"));
}

#[test]
fn route_alert_counts_additional_blocked_workers() {
    let mut session = session();
    session.workforce.workers[0].assignment = JobKind::Guard;
    session.workforce.workers[0].position = TilePos::new(2, 2);
    let mut second = session.workforce.workers[0].clone();
    second.id = 2;
    session.workforce.workers.push(second);
    wall_at_x3(&mut session);

    let alert = collect(&session, None)
        .into_iter()
        .find(|alert| alert.title == "Route blocked")
        .expect("blocked workers should share one route alert");
    assert!(alert.detail.contains("(+1 more blocked)"));
}

#[test]
fn open_routes_raise_no_route_alert() {
    let mut session = session();
    session.workforce.workers[0].assignment = JobKind::Guard;
    session.workforce.workers[0].position = TilePos::new(2, 2);
    assert!(!collect(&session, None).iter().any(|alert| alert.title == "Route blocked"));
}

#[test]
fn blocked_route_detail_names_the_worker_and_job() {
    let mut session = session();
    session.workforce.workers[0].assignment = JobKind::Guard;
    session.workforce.workers[0].position = TilePos::new(2, 2);
    wall_at_x3(&mut session);
    let alert = collect(&session, None)
        .into_iter()
        .find(|alert| alert.title == "Route blocked")
        .expect("sealed worker route should be reported");
    assert_eq!(alert.severity, AlertSeverity::Warning);
    assert_eq!(alert.detail, "Rattle cannot reach its guard target: obstructions seal the way.");
}

#[test]
fn patrol_coverage_alert_points_to_a_worker_for_the_next_post() {
    let mut session = session();
    session.research.completed = vec![Technology::DomainStewardship];
    session.world.zones.push(Zone { kind: ZoneKind::Patrol, tiles: vec![TilePos::new(5, 1), TilePos::new(5, 3)] });
    session.workforce.workers[0].assignment = JobKind::Guard;
    let mut second = session.workforce.workers[0].clone();
    second.id = 9;
    second.assignment = JobKind::Dig;
    session.workforce.workers.push(second);

    let alert = collect(&session, None)
        .into_iter()
        .find(|alert| alert.title == "Patrol coverage")
        .expect("uncovered patrol post should be reported");

    assert!(alert.detail.contains("1 of 2 marked posts covered"));
    assert_eq!(alert.target, Some(Selection::Worker(1)));
}

#[test]
fn patrol_coverage_waits_for_domain_stewardship() {
    let mut session = session();
    session.world.zones.push(Zone { kind: ZoneKind::Patrol, tiles: vec![TilePos::new(5, 1), TilePos::new(5, 3)] });
    assert!(!collect(&session, None).iter().any(|alert| alert.title == "Patrol coverage"));
}

#[test]
fn idle_work_district_points_to_a_marked_grave() {
    let mut session = session();
    session.research.completed = vec![Technology::DomainStewardship];
    session.workforce.workers[0].assignment = JobKind::Haul;
    let plot_tile = session.world.plots[0].position;
    session.world.zones.push(Zone { kind: ZoneKind::Work, tiles: vec![plot_tile] });

    let alert = collect(&session, None)
        .into_iter()
        .find(|alert| alert.title == "Work district idle")
        .expect("idle work district should be reported");

    assert_eq!(alert.severity, AlertSeverity::Info);
    assert_eq!(alert.detail, "Marked Work has a ready grave \u{b7} assign Dig.");
    assert_eq!(alert.target, Some(Selection::Grave(0)));
}

#[test]
fn idle_work_district_points_to_a_marked_forest_tile() {
    let mut session = session();
    session.research.completed = vec![Technology::DomainStewardship];
    session.workforce.workers[0].assignment = JobKind::Haul;
    for plot in &mut session.world.plots {
        plot.status = PlotStatus::Locked;
    }
    let forest_tile = session.world.forest_tiles[2];
    session.world.zones.push(Zone { kind: ZoneKind::Work, tiles: vec![forest_tile] });

    let alert = collect(&session, None)
        .into_iter()
        .find(|alert| alert.title == "Work district idle")
        .expect("idle forest work district should be reported");

    assert_eq!(alert.detail, "Marked Work reaches the forest edge \u{b7} assign Wood.");
    assert_eq!(alert.target, Some(Selection::Ground(forest_tile)));
}

#[test]
fn assigned_dig_operator_clears_the_work_district_alert() {
    let mut session = session();
    session.research.completed = vec![Technology::DomainStewardship];
    session.workforce.workers[0].assignment = JobKind::Dig;
    let plot_tile = session.world.plots[0].position;
    session.world.zones.push(Zone { kind: ZoneKind::Work, tiles: vec![plot_tile] });

    assert!(!collect(&session, None).iter().any(|alert| alert.title == "Work district idle"));
}
