use tiny_necromancer::data::{
    DistrictRules, GameConfig, NamedTilePosition, StartingContentConfig, StartingWorkerConfig,
    WorldLayoutConfig,
};
use tiny_necromancer::digging::{dig_step, finish_grave, DigApproach};
use tiny_necromancer::jobs::{
    assign_job, cycle_route_policy, cycle_stewardship_policy, move_priority, request_automation_toggle, select_worker,
    toggle_automation,
};
use tiny_necromancer::jobsite::{finish_wood_cycle, guard_step, refine_step, RefineApproach};
use tiny_necromancer::kinds::{GamePhase, JobKind, PlotStatus, ResourceKind, Technology, WorkerStatus, ZoneKind};
use tiny_necromancer::logistics::{carry_toward_drop, deliver_haul, load_haul, plan_haul};
use tiny_necromancer::policies::{RoutePolicy, StewardshipPolicy};
use tiny_necromancer::session::GameSession;
use tiny_necromancer::targets::destination_for_worker;
use tiny_necromancer::tile::TilePos;
use tiny_necromancer::world::{WorldState, Zone};

fn named(id: &str, x: i32, y: i32) -> NamedTilePosition {
    NamedTilePosition { id: id.to_string(), position: TilePos::new(x, y) }
}

fn config() -> GameConfig {
    GameConfig {
        game_name: "tiny_necromancer".to_string(),
        display_name: "Tiny Necromancer".to_string(),
        save_slot: "main".to_string(),
        version: "1".to_string(),
        world_width: 10,
        world_height: 8,
        starting_bones: 10,
        starting_mana: 20,
        starting_wood: 12,
        storage_capacity: 96,
        max_mana: 100,
        worker_wood_reserve: 0,
        starting_unlocked_plots: 1,
        starting_seed: 7,
        victory_undead: 6,
        victory_plots: 6,
        plot_unlock_base_wood: 6,
        plot_unlock_step_wood: 2,
        district_rules: DistrictRules { storage_capacity_bonus: 4, storage_volume_per_tile: 8 },
        world_layout: WorldLayoutConfig {
            road_x: 8,
            mana_source: TilePos::new(7, 0),
            stockpile_position: TilePos::new(6, 5),
            necromancer_position: TilePos::new(5, 6),
            forest_tiles: vec![TilePos::new(0, 0), TilePos::new(0, 1), TilePos::new(1, 7)],
            plot_positions: vec![
                TilePos::new(2, 2),
                TilePos::new(4, 2),
                TilePos::new(2, 4),
                TilePos::new(4, 4),
                TilePos::new(2, 6),
                TilePos::new(4, 6),
            ],
            building_positions: vec![
                named("work_shed", 6, 2),
                named("grave_lantern", 5, 0),
                named("ossuary_kiln", 6, 4),
            ],
        },
        starting_content: StartingContentConfig {
            worker: StartingWorkerConfig {
                id: 1,
                name: "Rattle".to_string(),
                undead_id: "skeleton".to_string(),
                job_id: "dig".to_string(),
            },
            initial_feedback: "The first grave waits.".to_string(),
            initial_reason: "Quiet night.".to_string(),
        },
    }
}

fn session() -> GameSession {
    let mut session = GameSession::new(&config());
    session.begin();
    session
}

fn rules() -> DistrictRules {
    config().district_rules
}

fn hauler_with_marked_drop(drop: TilePos) -> GameSession {
    let mut session = session();
    let source = session.world.plots[0].position;
    session.research.completed = vec![Technology::DomainStewardship];
    session.world.zones.push(Zone { kind: ZoneKind::Storage, tiles: vec![drop] });
    session.economy.loose_bones = 8;
    session.economy.loose_bones_source = Some(source);
    session.economy.normalize_loose_piles();
    session.workforce.workers[0].assignment = JobKind::Haul;
    session.workforce.workers[0].position = source;
    session
}

#[test]
fn digging_completes_and_produces_loose_bones() {
    let mut session = session();
    assert_eq!(dig_step(&mut session, 0), DigApproach::Arrived);
    assert_eq!(session.world.plots[0].status, PlotStatus::Digging);
    assert_eq!(session.workforce.workers[0].status, WorkerStatus::Working);
    let message = finish_grave(&mut session, 0, 8, false);
    assert_eq!(message, "8 bones are loose by plot 1.");
    assert_eq!(session.world.plots[0].status, PlotStatus::Dug);
    assert_eq!(session.economy.loose_bones, 8);
    assert_eq!(session.economy.loose_bones_source, Some(TilePos::new(2, 2)));
    assert_eq!(session.workforce.workers[0].target_plot, None);
}

#[test]
fn a_digger_walks_toward_an_unclaimed_grave() {
    let mut session = session();
    session.progress.unlocked_plots = 2;
    session.world.plots[0].status = PlotStatus::Dug;
    session.world.plots[1].status = PlotStatus::Ready;
    session.world.selected_plot = None;
    assert_eq!(dig_step(&mut session, 0), DigApproach::Walking);
    assert_eq!(session.workforce.workers[0].target_plot, Some(1));
    assert_eq!(session.workforce.workers[0].position, TilePos::new(3, 2));
    assert_eq!(dig_step(&mut session, 0), DigApproach::Walking);
    assert_eq!(dig_step(&mut session, 0), DigApproach::Arrived);
}

#[test]
fn a_digger_without_graves_idles() {
    let mut session = session();
    session.world.plots[0].status = PlotStatus::Dug;
    assert_eq!(dig_step(&mut session, 0), DigApproach::Idle);
    assert_eq!(session.workforce.workers[0].status, WorkerStatus::Idle);
}

#[test]
fn domain_work_rule_accelerates_digging_on_marked_tiles() {
    let mut session = session();
    finish_grave_after_claim(&mut session, true);
    assert_eq!(session.progress.district_ledger.work_cycles, 1);
    assert_eq!(session.pressure.feed[0].message, "A marked Work tile completes its first accelerated cycle.");
}

fn finish_grave_after_claim(session: &mut GameSession, accelerated: bool) {
    dig_step(session, 0);
    finish_grave(session, 0, 8, accelerated);
}

#[test]
fn starting_worker_can_gather_wood_before_the_shed_exists() {
    let mut session = session();
    assign_job(&mut session, JobKind::Wood).unwrap();
    assert_eq!(
        session.pressure.feed[0].message,
        "Rattle assigned to Gather Wood. Reassign it to Haul when timber is loose."
    );
    let message = finish_wood_cycle(&mut session, TilePos::new(0, 0), 3, false);
    assert_eq!(message, "Gathered 3 loose wood.");
    assert_eq!(session.economy.loose_wood, 3);
    assert_eq!(session.economy.loose_amount_at(ResourceKind::Wood, TilePos::new(0, 0)), 3);
    assert!(session.economy.wood < 20);
    assert_eq!(session.workforce.workers[0].assignment, JobKind::Wood);
}

#[test]
fn refine_needs_a_finished_kiln() {
    let mut session = session();
    assert_eq!(
        assign_job(&mut session, JobKind::Refine),
        Err("Complete an Ossuary Kiln before assigning Refine Wards.".to_string())
    );
    assert_eq!(session.workforce.workers[0].assignment, JobKind::Dig);
}

#[test]
fn reassignment_lets_go_of_a_claimed_grave() {
    let mut session = session();
    dig_step(&mut session, 0);
    assert_eq!(session.world.plots[0].status, PlotStatus::Digging);
    assign_job(&mut session, JobKind::Guard).unwrap();
    assert_eq!(session.world.plots[0].status, PlotStatus::Ready);
    assert_eq!(session.workforce.workers[0].target_plot, None);
    assert_eq!(session.pressure.feed[0].message, "Rattle assigned to Guard.");
}

#[test]
fn selecting_past_the_roster_keeps_the_selection() {
    let mut session = session();
    select_worker(&mut session, 4);
    assert_eq!(session.workforce.selected_worker, 0);
}

#[test]
fn automation_toggles_and_reports_the_mode() {
    let mut session = session();
    toggle_automation(&mut session).unwrap();
    assert!(session.workforce.workers[0].priority_mode);
    assert_eq!(session.pressure.feed[0].message, "Rattle is now following priorities.");
    toggle_automation(&mut session).unwrap();
    assert!(!session.workforce.workers[0].priority_mode);
    assert_eq!(session.pressure.feed[0].message, "Rattle is now under direct orders.");
}

#[test]
fn priorities_move_one_step_once_bindings_are_studied() {
    let mut session = session();
    assert_eq!(
        move_priority(&mut session, JobKind::Haul, -1),
        Err("Study Binding Routines before tuning worker priorities.".to_string())
    );
    session.research.completed = vec![Technology::BindingRoutines];
    assert_eq!(
        move_priority(&mut session, JobKind::Haul, 2),
        Err("Priority movement must be one step at a time.".to_string())
    );
    move_priority(&mut session, JobKind::Haul, -1).unwrap();
    assert_eq!(session.workforce.priorities[0], JobKind::Haul);
    assert_eq!(session.workforce.priorities[1], JobKind::Guard);
    move_priority(&mut session, JobKind::Haul, 1).unwrap();
    assert_eq!(session.workforce.priorities[0], JobKind::Guard);
}

#[test]
fn hauler_commits_the_source_and_marked_storage_drop_when_loading() {
    let drop = TilePos::new(5, 1);
    let mut session = hauler_with_marked_drop(drop);
    let source = session.world.plots[0].position;
    load_haul(&mut session, &rules(), 0, 8);
    let plan = session.workforce.workers[0].haul_plan.expect("loading should commit a haul route");
    assert_eq!(plan.resource, ResourceKind::Bones);
    assert_eq!(plan.source, source);
    assert_eq!(plan.destination, drop);
    assert_eq!(plan.storage_policy, RoutePolicy::MarkedFirst);
}

#[test]
fn hauling_respects_worker_capacity() {
    let mut session = session();
    let source = TilePos::new(6, 5);
    session.economy.add_loose(ResourceKind::Bones, source, 20);
    session.workforce.workers[0].assignment = JobKind::Haul;
    session.workforce.workers[0].position = source;
    load_haul(&mut session, &rules(), 0, 8);
    assert_eq!(session.workforce.workers[0].carrying, 8);
    assert_eq!(session.economy.loose_bones, 12);
    let messages = deliver_haul(&mut session, &rules(), 0);
    assert_eq!(messages, vec!["Hauled 8 bones into the stockpile.".to_string()]);
    assert_eq!(session.economy.bones, 18);
    assert_eq!(session.workforce.workers[0].carrying, 0);
}

#[test]
fn hauler_without_loose_material_idles() {
    let mut session = session();
    session.workforce.workers[0].assignment = JobKind::Haul;
    assert_eq!(plan_haul(&session, 0), None);
    load_haul(&mut session, &rules(), 0, 8);
    assert_eq!(session.workforce.workers[0].status, WorkerStatus::Idle);
    assert_eq!(session.workforce.workers[0].haul_plan, None);
}

#[test]
fn committed_drop_stays_stable_when_another_marked_tile_is_added() {
    let first_drop = TilePos::new(5, 1);
    let mut session = hauler_with_marked_drop(first_drop);
    session.workforce.workers[0].priority_mode = true;
    load_haul(&mut session, &rules(), 0, 8);
    let committed = session.workforce.workers[0].haul_plan.expect("loading should commit a haul route").destination;
    session.world.zones[0].tiles.push(TilePos::new(6, 5));
    assert_eq!(destination_for_worker(&session, &session.workforce.workers[0]), Some(committed));
}

#[test]
fn changed_storage_policy_replans_a_carried_bundle_without_dropping_it() {
    let marked_drop = TilePos::new(5, 1);
    let mut session = hauler_with_marked_drop(marked_drop);
    session.workforce.workers[0].priority_mode = true;
    load_haul(&mut session, &rules(), 0, 8);
    assert_eq!(session.workforce.workers[0].haul_plan.unwrap().destination, marked_drop);

    session.world.route_policies.storage = RoutePolicy::Nearest;
    let (note, _) = carry_toward_drop(&mut session, 0);
    assert_eq!(note, Some("Rattle replanned its bones bundle for Nearest Storage.".to_owned()));
    let worker = &session.workforce.workers[0];
    let plan = worker.haul_plan.expect("replanning should keep the bundle planned");
    assert_eq!(worker.carrying, 8);
    assert_eq!(plan.destination, TilePos::new(6, 5));
    assert_eq!(plan.storage_policy, RoutePolicy::Nearest);
    let (again, _) = carry_toward_drop(&mut session, 0);
    assert_eq!(again, None);
}

/// One zero-length tick of haul work for every hauler, as the game clock
/// runs it: an empty-handed hauler plans, walks and loads; a loaded one
/// carries toward its drop. Returns the notes the carrying step raised.
fn haul_tick(session: &mut GameSession) -> Vec<String> {
    let mut notes = Vec::new();
    for index in 0..session.workforce.workers.len() {
        if session.workforce.workers[index].assignment != JobKind::Haul {
            continue;
        }
        if session.workforce.workers[index].carrying <= 0 {
            load_haul(session, &rules(), index, 8);
        } else {
            let (note, _) = carry_toward_drop(session, index);
            notes.extend(note);
        }
    }
    notes
}

#[test]
fn storage_policy_replan_emits_one_delivery_notice() {
    let mut session = hauler_with_marked_drop(TilePos::new(5, 1));
    session.workforce.workers[0].name = "Rattlebones".to_owned();
    session.workforce.workers[0].priority_mode = true;

    haul_tick(&mut session);
    session.world.route_policies.storage = RoutePolicy::Nearest;
    let messages = haul_tick(&mut session);

    assert_eq!(messages, vec!["Rattlebones replanned its bones bundle for Nearest Storage.".to_owned()]);
    assert!(haul_tick(&mut session).is_empty());
}

#[test]
fn hauler_commits_a_drop_before_reaching_the_source() {
    let drop = TilePos::new(5, 1);
    let mut session = hauler_with_marked_drop(drop);
    let source = session.world.plots[0].position;
    session.workforce.workers[0].position = session.world.stockpile_position();

    haul_tick(&mut session);

    let worker = &session.workforce.workers[0];
    let plan = worker.haul_plan.expect("the source walk should carry a committed plan");
    assert_eq!(worker.carrying, 0);
    assert_eq!(plan.source, source);
    assert_eq!(plan.destination, drop);
    assert_eq!(destination_for_worker(&session, worker), Some(source));
}

fn two_drop_session() -> (GameSession, TilePos, TilePos, TilePos) {
    let mut session = session();
    let first_drop = TilePos::new(5, 1);
    let second_drop = TilePos::new(6, 5);
    let source = session.world.plots[0].position;
    session.research.completed = vec![Technology::DomainStewardship];
    session.world.zones.push(Zone { kind: ZoneKind::Storage, tiles: vec![first_drop, second_drop] });
    session.economy.loose_bones = 16;
    session.economy.loose_bones_source = Some(source);
    session.economy.normalize_loose_piles();
    session.workforce.workers[0].assignment = JobKind::Haul;
    session.workforce.workers[0].position = session.world.stockpile_position();
    (session, first_drop, second_drop, source)
}

#[test]
fn pending_haul_plans_reserve_distinct_marked_storage_drops() {
    let (mut session, first_drop, second_drop, source) = two_drop_session();
    let mut second_worker = session.workforce.workers[0].clone();
    second_worker.id = session.workforce.next_worker_id;
    second_worker.position = source;
    session.workforce.next_worker_id += 1;
    session.workforce.workers.push(second_worker);

    haul_tick(&mut session);
    haul_tick(&mut session);

    assert_eq!(
        session.workforce.workers[0].haul_plan.expect("first worker should reserve a drop").destination,
        first_drop
    );
    assert_eq!(
        session.workforce.workers[1].haul_plan.expect("second worker should reserve another drop").destination,
        second_drop
    );
}

#[test]
fn removed_storage_drop_replans_a_walking_and_carried_bundle() {
    let (mut session, first_drop, second_drop, source) = two_drop_session();

    haul_tick(&mut session);
    assert_eq!(
        session.workforce.workers[0].haul_plan.expect("walking worker should have a plan").destination,
        first_drop
    );
    session.world.zones[0].tiles.retain(|tile| *tile != first_drop);
    haul_tick(&mut session);
    assert_eq!(
        session.workforce.workers[0].haul_plan.expect("walking worker should replan").destination,
        second_drop
    );

    session.workforce.workers[0].position = source;
    haul_tick(&mut session);
    assert!(session.workforce.workers[0].carrying > 0);
    session.world.zones[0].tiles.push(first_drop);
    session.world.zones[0].tiles.retain(|tile| *tile != second_drop);
    haul_tick(&mut session);

    let worker = &session.workforce.workers[0];
    assert!(worker.carrying > 0);
    assert_eq!(worker.haul_plan.expect("carried worker should replan").destination, first_drop);
}

#[test]
fn hauler_selects_the_nearest_of_multiple_resource_piles() {
    let mut session = session();
    let near_source = session.world.plots[0].position;
    let far_source = session.world.forest_tiles[0];
    session.economy.add_loose(ResourceKind::Bones, near_source, 8);
    session.economy.add_loose(ResourceKind::Bones, far_source, 8);
    session.workforce.workers[0].assignment = JobKind::Haul;
    session.workforce.workers[0].position = near_source;

    haul_tick(&mut session);

    let worker = &session.workforce.workers[0];
    assert_eq!(worker.haul_plan.expect("haul should choose a source").source, near_source);
    assert_eq!(session.economy.loose_amount_at(ResourceKind::Bones, near_source), 0);
    assert_eq!(session.economy.loose_amount_at(ResourceKind::Bones, far_source), 8);
}

#[test]
fn policies_wait_for_domain_stewardship() {
    let mut session = session();
    assert_eq!(cycle_stewardship_policy(&mut session), None);
    assert_eq!(cycle_route_policy(&mut session, ZoneKind::Work), None);
    assert_eq!(session.stewardship_policy, StewardshipPolicy::Balanced);
    assert_eq!(session.world.route_policies.work, RoutePolicy::MarkedFirst);
}

#[test]
fn stewardship_policy_cycles_and_is_announced() {
    let mut session = session();
    session.research.completed = vec![Technology::DomainStewardship];
    assert_eq!(cycle_stewardship_policy(&mut session), Some(StewardshipPolicy::Secure));
    assert_eq!(session.pressure.feed[0].message, "Stewardship policy: Secure.");
    assert_eq!(cycle_stewardship_policy(&mut session), Some(StewardshipPolicy::Harvest));
    assert_eq!(cycle_stewardship_policy(&mut session), Some(StewardshipPolicy::Balanced));
}

#[test]
fn route_policy_cycles_one_district_kind() {
    let mut session = session();
    session.research.completed = vec![Technology::DomainStewardship];
    assert_eq!(cycle_route_policy(&mut session, ZoneKind::Storage), Some(RoutePolicy::Nearest));
    assert_eq!(session.world.route_policies.storage, RoutePolicy::Nearest);
    assert_eq!(session.world.route_policies.work, RoutePolicy::MarkedFirst);
    assert_eq!(
        session.pressure.feed[0].message,
        "Storage route policy: Nearest \u{b7} the nearest tile, marks ignored."
    );
}

#[test]
fn paused_games_keep_their_policies() {
    let mut session = session();
    session.research.completed = vec![Technology::DomainStewardship];
    session.phase = GamePhase::Paused;
    assert_eq!(cycle_route_policy(&mut session, ZoneKind::Patrol), None);
    assert_eq!(session.world.route_policies.patrol, RoutePolicy::MarkedFirst);
}

#[test]
fn automation_orders_wait_for_binding_routines() {
    let mut session = session();
    assert_eq!(
        request_automation_toggle(&mut session, "Study Binding Routines first."),
        Err("Study Binding Routines first.".to_string())
    );
    assert!(!session.workforce.workers[0].priority_mode);
    session.research.completed = vec![Technology::BindingRoutines];
    request_automation_toggle(&mut session, "Study Binding Routines first.").unwrap();
    assert!(session.workforce.workers[0].priority_mode);
}

#[test]
fn storing_a_bundle_leaves_the_other_stock_alone() {
    let mut session = session();
    session.workforce.workers[0].assignment = JobKind::Haul;
    session.workforce.workers[0].carrying = 4;
    session.workforce.workers[0].carrying_resource = Some(ResourceKind::Bones);
    let before = session.economy.clone();
    let messages = deliver_haul(&mut session, &rules(), 0);
    assert_eq!(messages, vec!["Hauled 4 bones into the stockpile.".to_string()]);
    assert_eq!(session.economy.bones, before.bones + 4);
    assert_eq!(session.economy.wood, before.wood);
    assert_eq!(session.economy.mana, before.mana);
    assert_eq!(session.economy.ward_charges, before.ward_charges);
}

#[test]
fn a_guard_hides_once_it_reaches_its_post() {
    let mut session = session();
    session.workforce.workers[0].assignment = JobKind::Guard;
    let post = WorldState::guard_position(session.world.road_x);
    session.workforce.workers[0].position = TilePos::new(post.x - 1, post.y);
    assert!(!guard_step(&mut session, 0));
    assert_eq!(session.workforce.workers[0].position, post);
    assert!(guard_step(&mut session, 0));
    assert_eq!(session.workforce.workers[0].status, WorkerStatus::Hiding);
}

#[test]
fn a_refiner_waits_while_no_cycle_is_loaded() {
    let mut session = session();
    session.workforce.workers[0].assignment = JobKind::Refine;
    session.workforce.workers[0].status = WorkerStatus::Walking;
    assert_eq!(refine_step(&mut session, 0), RefineApproach::Waiting);
    assert_eq!(session.workforce.workers[0].status, WorkerStatus::Idle);
}
