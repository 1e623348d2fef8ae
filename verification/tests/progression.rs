use tiny_necromancer::catalog::{BuildingCatalog, BuildingDef, ProductionDef, ProductionRecipeDef};
use tiny_necromancer::data::{
    DistrictRules, GameConfig, NamedTilePosition, StartingContentConfig, StartingWorkerConfig,
    WorldLayoutConfig,
};
use tiny_necromancer::kinds::{
    BuildingKind, GamePhase, JobKind, PlotStatus, ProductionRecipeKind, Technology, UndeadKind,
    WorkerStatus,
};
use tiny_necromancer::progression::{
    building_level, cancel_production, check_victory, complete_construction, finish_production_cycle,
    next_plot_unlock_cost, queue_building, queue_building_at, start_production, start_research,
    unlock_plot, upgrade_building, use_ward_charge, MAX_PRODUCTION_QUEUE,
};
use tiny_necromancer::kinds::ResourceKind;
use tiny_necromancer::logistics::{carry_toward_drop, deliver_haul, load_haul};
use tiny_necromancer::progression::{production_destination, production_input_need};
use tiny_necromancer::session::GameSession;
use tiny_necromancer::workforce::HaulDestination;
use tiny_necromancer::world::Building;
use tiny_necromancer::tile::TilePos;
use tiny_necromancer::workforce::Worker;

fn named(id: &str, x: i32, y: i32) -> NamedTilePosition {
    NamedTilePosition { id: id.to_string(), position: TilePos::new(x, y) }
}

fn config() -> GameConfig {
    GameConfig {
        game_name: "tiny_necromancer".to_string(),
        display_name: "Tiny Necromancer".to_string(),
        save_slot: "main".to_string(),
        version: "1".to_string(),
        world_width: 10,
        world_height: 8,
        starting_bones: 10,
        starting_mana: 20,
        starting_wood: 12,
        storage_capacity: 96,
        max_mana: 100,
        worker_wood_reserve: 0,
        starting_unlocked_plots: 1,
        starting_seed: 7,
        victory_undead: 6,
        victory_plots: 6,
        plot_unlock_base_wood: 6,
        plot_unlock_step_wood: 2,
        district_rules: DistrictRules { storage_capacity_bonus: 4, storage_volume_per_tile: 8 },
        world_layout: WorldLayoutConfig {
            road_x: 8,
            mana_source: TilePos::new(7, 0),
            stockpile_position: TilePos::new(6, 5),
            necromancer_position: TilePos::new(5, 6),
            forest_tiles: vec![TilePos::new(0, 0), TilePos::new(0, 1), TilePos::new(1, 7)],
            plot_positions: vec![
                TilePos::new(2, 2),
                TilePos::new(4, 2),
                TilePos::new(2, 4),
                TilePos::new(4, 4),
                TilePos::new(2, 6),
                TilePos::new(4, 6),
            ],
            building_positions: vec![
                named("work_shed", 6, 2),
                named("grave_lantern", 5, 0),
                named("ossuary_kiln", 6, 4),
            ],
        },
        starting_content: StartingContentConfig {
            worker: StartingWorkerConfig {
                id: 1,
                name: "Rattle".to_string(),
                undead_id: "skeleton".to_string(),
                job_id: "dig".to_string(),
            },
            initial_feedback: "The first grave waits.".to_string(),
            initial_reason: "Quiet night.".to_string(),
        },
    }
}

fn building(id: &str, name: &str, costs: (i32, i32, i32), production: Option<ProductionDef>) -> BuildingDef {
    BuildingDef {
        id: id.to_string(),
        name: name.to_string(),
        bones_cost: costs.0,
        mana_cost: costs.1,
        wood_cost: costs.2,
        effect_text: "It serves the domain.".to_string(),
        upgrade_bones_cost: 8,
        upgrade_mana_cost: 0,
        upgrade_wood_cost: 22,
        upgrade_effect_text: "It serves better.".to_string(),
        production,
    }
}

fn catalog() -> BuildingCatalog {
    let recipes = vec![
        ProductionRecipeDef {
            kind: ProductionRecipeKind::WardCharge,
            name: "Ward Charge".to_string(),
            bones_cost: 12,
            wood_cost: 6,
            output_amount: 1,
            effect_text: "Spend it to quiet the road.".to_string(),
        },
        ProductionRecipeDef {
            kind: ProductionRecipeKind::HushAsh,
            name: "Hush Ash".to_string(),
            bones_cost: 8,
            wood_cost: 10,
            output_amount: 2,
            effect_text: "Ash settles over the graves.".to_string(),
        },
    ];
    BuildingCatalog {
        entries: vec![
            building("work_shed", "Work Shed", (10, 0, 20), None),
            building("grave_lantern", "Grave Lantern", (6, 10, 8), None),
            building("ossuary_kiln", "Ossuary Kiln", (18, 0, 24), Some(ProductionDef { recipes })),
        ],
    }
}

fn worker(id: u32, kind: UndeadKind) -> Worker {
    Worker {
        id,
        name: id.to_string(),
        kind,
        assignment: JobKind::Guard,
        position: TilePos::new(1, 1),
        status: WorkerStatus::Idle,
        target_plot: None,
        carrying: 0,
        carrying_resource: None,
        priority_mode: false,
        haul_plan: None,
    }
}

fn build(session: &mut GameSession, kind: BuildingKind) {
    let config = config();
    queue_building(session, &catalog(), &config.world_layout, kind).unwrap();
    assert!(complete_construction(session, &catalog()).is_some());
}

fn kiln_session() -> GameSession {
    let mut session = GameSession::new(&config());
    session.economy.bones = 100;
    session.economy.wood = 100;
    session.research.completed = vec![Technology::Gravecraft, Technology::OssuaryLogistics];
    build(&mut session, BuildingKind::OssuaryKiln);
    session
}

#[test]
fn plot_expansion_spends_wood_and_increases_capacity() {
    let config = config();
    let mut session = GameSession::new(&config);
    session.economy.wood = 50;
    unlock_plot(&mut session, &config).unwrap();
    assert_eq!(session.progress.unlocked_plots, 2);
    assert_eq!(session.economy.wood, 42);
    assert_eq!(session.world.plots[1].status, PlotStatus::Ready);
    assert_eq!(session.pressure.feed[0].message, "Plot 2 is now usable. The road feels closer.");
}

#[test]
fn plot_expansion_names_the_missing_wood() {
    let config = config();
    let mut session = GameSession::new(&config);
    session.economy.wood = 7;
    let error = unlock_plot(&mut session, &config).unwrap_err();
    assert_eq!(error, "Opening the next plot needs 8 wood.");
    assert_eq!(session.economy.wood, 7);
    assert_eq!(session.progress.unlocked_plots, 1);
}

#[test]
fn plot_expansion_stops_at_the_victory_count() {
    let config = config();
    let mut session = GameSession::new(&config);
    session.progress.unlocked_plots = 6;
    session.economy.wood = 90;
    let error = unlock_plot(&mut session, &config).unwrap_err();
    assert_eq!(error, "All six cemetery plots are already usable.");
    assert_eq!(session.economy.wood, 90);
}

#[test]
fn plot_unlock_cost_grows_by_the_authored_step() {
    let config = config();
    assert_eq!(next_plot_unlock_cost(&config, 0), 6);
    assert_eq!(next_plot_unlock_cost(&config, 1), 8);
    assert_eq!(next_plot_unlock_cost(&config, 4), 14);
}

#[test]
fn victory_needs_every_vertical_slice_milestone() {
    let config = config();
    let mut session = GameSession::new(&config);
    session.progress.unlocked_plots = 6;
    session.world.buildings = vec![
        tiny_necromancer::world::Building {
            kind: BuildingKind::WorkShed,
            complete: true,
            position: TilePos::new(6, 2),
            width: 2,
            height: 2,
        },
        tiny_necromancer::world::Building {
            kind: BuildingKind::GraveLantern,
            complete: true,
            position: TilePos::new(5, 0),
            width: 1,
            height: 1,
        },
    ];
    for id in 1..=5 {
        let kind = if id == 5 { UndeadKind::BruteSkeleton } else { UndeadKind::Skeleton };
        session.workforce.workers.push(worker(id + 1, kind));
    }
    check_victory(&mut session, &config, true);
    assert_eq!(session.phase, GamePhase::Victory);
    assert_eq!(
        session.pressure.feed[0].message,
        "The cemetery is a tiny, thriving operation. You made it."
    );
}

#[test]
fn victory_waits_for_a_brute_and_quiet_roads() {
    let config = config();
    let mut session = GameSession::new(&config);
    session.progress.unlocked_plots = 6;
    session.economy.bones = 50;
    session.economy.mana = 50;
    session.economy.wood = 50;
    build(&mut session, BuildingKind::WorkShed);
    build(&mut session, BuildingKind::GraveLantern);
    for id in 2..=6 {
        session.workforce.workers.push(worker(id, UndeadKind::Skeleton));
    }
    check_victory(&mut session, &config, true);
    assert_eq!(session.phase, GamePhase::MainMenu);
    session.workforce.workers[5].kind = UndeadKind::BruteSkeleton;
    check_victory(&mut session, &config, false);
    assert_eq!(session.phase, GamePhase::MainMenu);
    check_victory(&mut session, &config, true);
    assert_eq!(session.phase, GamePhase::Victory);
}

#[test]
fn shed_construction_adds_the_improved_shovel() {
    let mut session = GameSession::new(&config());
    session.economy.bones = 100;
    session.economy.wood = 100;
    let config = config();
    queue_building(&mut session, &catalog(), &config.world_layout, BuildingKind::WorkShed).unwrap();
    assert_eq!(session.economy.bones, 90);
    assert_eq!(session.economy.wood, 80);
    assert_eq!(session.pressure.feed[0].message, "Construction started: Work Shed.");
    let before = session.economy.shovels;
    let message = complete_construction(&mut session, &catalog()).unwrap();
    assert_eq!(message, "Work Shed is complete: It serves the domain.");
    assert!(session.has_building(BuildingKind::WorkShed));
    assert_eq!(session.economy.shovels, before + 1);
    assert!(complete_construction(&mut session, &catalog()).is_none());
}

#[test]
fn construction_names_its_full_cost_when_storage_is_short() {
    let mut session = GameSession::new(&config());
    session.economy.bones = 5;
    let config = config();
    let error =
        queue_building(&mut session, &catalog(), &config.world_layout, BuildingKind::WorkShed).unwrap_err();
    assert_eq!(error, "Need 10 bones, 0 mana, and 20 wood.");
    assert!(session.world.buildings.is_empty());
}

#[test]
fn a_second_copy_of_a_building_is_refused() {
    let mut session = GameSession::new(&config());
    session.economy.bones = 100;
    session.economy.wood = 100;
    build(&mut session, BuildingKind::WorkShed);
    let error = queue_building_at(&mut session, &catalog(), BuildingKind::WorkShed, TilePos::new(2, 0))
        .unwrap_err();
    assert_eq!(error, "That building is already present or under construction.");
}

#[test]
fn kiln_is_gated_by_logistics_and_loads_its_recipe() {
    let config = config();
    let mut session = GameSession::new(&config);
    session.economy.bones = 100;
    session.economy.wood = 100;
    assert_eq!(
        queue_building(&mut session, &catalog(), &config.world_layout, BuildingKind::OssuaryKiln),
        Err("Study Ossuary Logistics before raising a kiln.".to_string())
    );
    session.research.completed = vec![Technology::Gravecraft, Technology::OssuaryLogistics];
    build(&mut session, BuildingKind::OssuaryKiln);
    assert!(session.has_building(BuildingKind::OssuaryKiln));
    start_production(&mut session, &catalog(), BuildingKind::OssuaryKiln).unwrap();
    assert_eq!(session.economy.bones, 70);
    assert_eq!(session.economy.wood, 70);
    assert!(session.progress.production.is_some());
    assert_eq!(
        session.pressure.feed[0].message,
        "The Ossuary Kiln is loaded; assign a worker to Refine Wards."
    );
}

#[test]
fn kiln_loads_what_storage_holds_and_waits_for_the_rest() {
    let mut session = kiln_session();
    session.economy.bones = 5;
    session.economy.wood = 2;
    start_production(&mut session, &catalog(), BuildingKind::OssuaryKiln).unwrap();
    let order = session.progress.production.unwrap();
    assert_eq!((order.bones_remaining, order.wood_remaining), (7, 4));
    assert_eq!((session.economy.bones, session.economy.wood), (0, 0));
    assert_eq!(
        session.pressure.feed[0].message,
        "The Ossuary Kiln needs 7 bones and 4 wood; assign Haul."
    );
    assert!(finish_production_cycle(&mut session, &catalog()).is_none());
    assert_eq!(session.economy.ward_charges, 0);
}

#[test]
fn ward_charge_can_be_spent_to_quiet_suspicion() {
    let mut session = GameSession::new(&config());
    session.economy.ward_charges = 2;
    use_ward_charge(&mut session).unwrap();
    assert_eq!(session.economy.ward_charges, 1);
    assert_eq!(session.pressure.feed[0].message, "A ward charge is spent; the cemetery falls quiet.");
    session.economy.ward_charges = 0;
    assert_eq!(
        use_ward_charge(&mut session),
        Err("There is no sealed ward charge to spend.".to_string())
    );
}

#[test]
fn buildings_cannot_cover_graves_or_the_forest_edge() {
    let mut session = GameSession::new(&config());
    session.economy.bones = 100;
    session.economy.wood = 100;
    assert_eq!(
        queue_building_at(&mut session, &catalog(), BuildingKind::WorkShed, TilePos::new(2, 2)),
        Err("That footprint covers a grave, trees, or the road.".to_string())
    );
    assert!(queue_building_at(&mut session, &catalog(), BuildingKind::WorkShed, TilePos::new(0, 0)).is_err());
    assert_eq!(
        queue_building_at(&mut session, &catalog(), BuildingKind::WorkShed, TilePos::new(9, 7)),
        Err("That footprint would fall outside the cemetery boundary.".to_string())
    );
    assert_eq!(session.economy.bones, 100);
    assert!(session.world.buildings.is_empty());
}

#[test]
fn kiln_queue_rolls_into_the_next_reserved_cycle() {
    let mut session = kiln_session();
    start_production(&mut session, &catalog(), BuildingKind::OssuaryKiln).unwrap();
    start_production(&mut session, &catalog(), BuildingKind::OssuaryKiln).unwrap();
    assert_eq!(session.progress.production_queue, 1);
    let first = finish_production_cycle(&mut session, &catalog()).unwrap();
    assert_eq!(first, "1 Ward charge ready. Spend it to quiet the road. Next reserved cycle begins.");
    assert_eq!(session.economy.ward_charges, 1);
    assert!(session.progress.production.is_some());
    finish_production_cycle(&mut session, &catalog()).unwrap();
    assert_eq!(session.economy.ward_charges, 2);
    assert!(session.progress.production.is_none());
}

#[test]
fn cancelling_a_reserved_cycle_refunds_materials_but_keeps_working_cycle() {
    let mut session = kiln_session();
    start_production(&mut session, &catalog(), BuildingKind::OssuaryKiln).unwrap();
    start_production(&mut session, &catalog(), BuildingKind::OssuaryKiln).unwrap();
    let running = session.progress.production;
    let bones_after_two_loads = session.economy.bones;

    cancel_production(&mut session, &catalog(), BuildingKind::OssuaryKiln).unwrap();

    assert_eq!(session.progress.production_queue, 0);
    assert_eq!(session.economy.bones, bones_after_two_loads + 12);
    assert_eq!(session.economy.wood, 70);
    assert_eq!(session.progress.production, running);
    assert!(session.pressure.feed[0].message.contains("+12 bones and +6 wood"));
}

#[test]
fn cancelling_without_a_reserved_cycle_keeps_storage_untouched() {
    let mut session = GameSession::new(&config());
    session.economy.bones = 42;
    session.economy.wood = 60;
    session.research.completed = vec![Technology::Gravecraft, Technology::OssuaryLogistics];
    build(&mut session, BuildingKind::OssuaryKiln);
    start_production(&mut session, &catalog(), BuildingKind::OssuaryKiln).unwrap();
    let storage_before = (session.economy.bones, session.economy.wood);

    let error = cancel_production(&mut session, &catalog(), BuildingKind::OssuaryKiln).unwrap_err();

    assert_eq!(error, "There is no reserved ward cycle to cancel.");
    assert_eq!((session.economy.bones, session.economy.wood), storage_before);
}

#[test]
fn full_kiln_queue_does_not_spend_more_materials() {
    let mut session = kiln_session();
    for _ in 0..=MAX_PRODUCTION_QUEUE {
        start_production(&mut session, &catalog(), BuildingKind::OssuaryKiln).unwrap();
    }
    let bones = session.economy.bones;
    let wood = session.economy.wood;
    assert_eq!(
        start_production(&mut session, &catalog(), BuildingKind::OssuaryKiln),
        Err("The kiln's ward queue is full.".to_string())
    );
    assert_eq!(session.economy.bones, bones);
    assert_eq!(session.economy.wood, wood);
}

#[test]
fn reserving_a_cycle_needs_its_full_inputs_in_storage() {
    let mut session = kiln_session();
    start_production(&mut session, &catalog(), BuildingKind::OssuaryKiln).unwrap();
    session.economy.bones = 11;
    assert_eq!(
        start_production(&mut session, &catalog(), BuildingKind::OssuaryKiln),
        Err("Need 12 bones and 6 wood to reserve a kiln cycle.".to_string())
    );
    assert_eq!(session.progress.production_queue, 0);
}

#[test]
fn study_needs_the_work_shed_and_then_one_topic_at_a_time() {
    let mut session = GameSession::new(&config());
    assert_eq!(
        start_research(&mut session, Technology::BindingRoutines),
        Err("Restore the work shed before studying bindings.".to_string())
    );
    session.economy.bones = 100;
    session.economy.wood = 100;
    build(&mut session, BuildingKind::WorkShed);
    start_research(&mut session, Technology::BindingRoutines).unwrap();
    assert_eq!(session.research.current, Some(Technology::BindingRoutines));
    assert_eq!(
        start_research(&mut session, Technology::Gravecraft),
        Err("The shed is already studying Binding Routines.".to_string())
    );
}

#[test]
fn work_shed_upgrade_spends_materials_and_improves_throughput() {
    let mut session = GameSession::new(&config());
    session.economy.bones = 100;
    session.economy.wood = 100;
    build(&mut session, BuildingKind::WorkShed);

    upgrade_building(&mut session, &catalog(), BuildingKind::WorkShed).unwrap();

    assert_eq!(building_level(&session, BuildingKind::WorkShed), 2);
    assert_eq!(session.economy.bones, 82);
    assert_eq!(session.economy.wood, 58);
    assert_eq!(session.progress.building_upgrades.tier(BuildingKind::WorkShed), 1);
}

#[test]
fn upgrades_need_a_completed_structure() {
    let mut session = GameSession::new(&config());
    session.economy.bones = 100;
    session.economy.wood = 100;
    assert_eq!(building_level(&session, BuildingKind::WorkShed), 0);
    assert_eq!(
        upgrade_building(&mut session, &catalog(), BuildingKind::WorkShed),
        Err("Complete that structure before upgrading it.".to_string())
    );
    assert_eq!(session.economy.bones, 100);
    build(&mut session, BuildingKind::WorkShed);
    assert_eq!(building_level(&session, BuildingKind::WorkShed), 1);
}

#[test]
fn a_structure_upgrades_once() {
    let mut session = GameSession::new(&config());
    session.economy.bones = 100;
    session.economy.wood = 100;
    build(&mut session, BuildingKind::WorkShed);
    upgrade_building(&mut session, &catalog(), BuildingKind::WorkShed).unwrap();
    assert_eq!(
        upgrade_building(&mut session, &catalog(), BuildingKind::WorkShed),
        Err("That structure is already upgraded.".to_string())
    );
    assert_eq!(session.economy.bones, 82);
    assert_eq!(session.economy.wood, 58);
}

#[test]
fn upgrades_name_their_full_cost_when_storage_is_short() {
    let mut session = GameSession::new(&config());
    session.economy.bones = 100;
    session.economy.wood = 40;
    build(&mut session, BuildingKind::WorkShed);
    assert_eq!(session.economy.wood, 20);
    assert_eq!(
        upgrade_building(&mut session, &catalog(), BuildingKind::WorkShed),
        Err("Need 8 bones, 0 mana, and 22 wood to upgrade.".to_string())
    );
    assert_eq!(building_level(&session, BuildingKind::WorkShed), 1);
    assert_eq!(session.economy.bones, 90);
}

#[test]
fn an_upgrade_is_announced_in_the_feed() {
    let mut session = GameSession::new(&config());
    session.economy.bones = 100;
    session.economy.wood = 100;
    build(&mut session, BuildingKind::WorkShed);
    upgrade_building(&mut session, &catalog(), BuildingKind::WorkShed).unwrap();
    assert_eq!(session.pressure.feed[0].message, "Upgraded Work Shed: It serves better.");
    assert_eq!(building_level(&session, BuildingKind::GraveLantern), 0);
}

fn session_with_empty_kiln() -> GameSession {
    let mut session = GameSession::new(&config());
    session.research.completed = vec![Technology::Gravecraft, Technology::OssuaryLogistics];
    session.world.buildings.push(Building {
        kind: BuildingKind::OssuaryKiln,
        complete: true,
        position: TilePos::new(6, 4),
        width: 2,
        height: 1,
    });
    session.economy.bones = 0;
    session.economy.wood = 0;
    session
}

/// One haul step for worker 0 as the game clock runs it once the work time
/// at the drop has passed: plan and load, carry, and deliver on arrival.
fn haul_step(session: &mut GameSession) {
    let rules = config().district_rules;
    if session.workforce.workers[0].carrying <= 0 {
        load_haul(session, &rules, 0, 8);
    } else {
        let (_, arrived) = carry_toward_drop(session, 0);
        if arrived {
            deliver_haul(session, &rules, 0);
        }
    }
}

#[test]
fn kiln_supply_haul_delivers_stockpiled_inputs_before_refining() {
    let mut session = session_with_empty_kiln();
    start_production(&mut session, &catalog(), BuildingKind::OssuaryKiln).unwrap();
    assert_eq!(production_input_need(&session, ResourceKind::Bones), 12);
    assert_eq!(production_input_need(&session, ResourceKind::Wood), 6);

    session.economy.bones = 12;
    session.economy.wood = 6;
    session.workforce.workers[0].assignment = JobKind::Haul;
    session.workforce.workers[0].position = session.world.stockpile_position();

    for _ in 0..100 {
        haul_step(&mut session);
        if production_input_need(&session, ResourceKind::Bones) == 0
            && production_input_need(&session, ResourceKind::Wood) == 0
        {
            break;
        }
    }

    assert_eq!(production_input_need(&session, ResourceKind::Bones), 0);
    assert_eq!(production_input_need(&session, ResourceKind::Wood), 0);
    assert_eq!(session.economy.bones, 0);
    assert_eq!(session.economy.wood, 0);
    assert_eq!(session.economy.ward_charges, 0);
}

#[test]
fn kiln_supply_plan_names_the_kiln_as_its_destination() {
    let mut session = session_with_empty_kiln();
    start_production(&mut session, &catalog(), BuildingKind::OssuaryKiln).unwrap();
    session.economy.bones = 4;
    session.workforce.workers[0].assignment = JobKind::Haul;
    let stockpile = session.world.stockpile_position();
    session.workforce.workers[0].position = stockpile;

    haul_step(&mut session);

    let plan = session.workforce.workers[0].haul_plan.expect("missing kiln input should create a haul plan");
    assert_eq!(plan.destination_kind, HaulDestination::Kiln);
    assert_eq!(plan.source, stockpile);
    assert_eq!(plan.destination, production_destination(&session).unwrap());
}
