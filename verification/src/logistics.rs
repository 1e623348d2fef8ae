//! Worker steps toward targets, and source-to-drop planning for hauls.

use vstd::prelude::*;
use crate::data::DistrictRules;
use crate::districts::{
    announced, capacity_of, first_storage_bonus_message, haul_bonus_of, haul_capacity_bonus, record_storage_bonus,
    storage_capacity, storage_space,
};
use crate::economy::{min_int, sum_at, taken_from, EconomyState};
use crate::progression::{
    deliver_production_input, first_complete_kiln, input_need, production_destination, production_input_need,
};
use crate::text_util::{push_decimal, push_str};
use crate::kinds::{JobKind, ResourceKind, WorkerStatus, ZoneKind};
use crate::navigation::{first_shortest_step, grid_fits, next_step, reachable, route_exists, routable};
use crate::session::GameSession;
use crate::targets::{
    destination_for_worker, policy_for, route_policy, storage_current, storage_dest, storage_destination,
    storage_destination_is_current, work_tiles_fit, worker_dest,
};
use crate::tile::TilePos;
use crate::workforce::{HaulDestination, HaulPlan, Worker};
use crate::world::work_tile;

verus! {

/// How a step toward a target went.
#[derive(Debug, Clone, Copy, PartialEq, Eq, Structural)]
pub enum WorkerMoveResult {
    Arrived,
    Walking,
    Blocked,
}

/// Two workers that agree on everything but position and status.
pub open spec fn same_but_place(a: Worker, b: Worker) -> bool {
    &&& a.id == b.id
    &&& a.name@ == b.name@
    &&& a.kind == b.kind
    &&& a.assignment == b.assignment
    &&& a.target_plot == b.target_plot
    &&& a.carrying == b.carrying
    &&& a.carrying_resource == b.carrying_resource
    &&& a.priority_mode == b.priority_mode
    &&& a.haul_plan == b.haul_plan
}

/// Only worker `index` may differ between `before` and `after`.
pub open spec fn others_unchanged(before: Seq<Worker>, after: Seq<Worker>, index: int) -> bool {
    &&& after.len() == before.len()
    &&& forall|j: int| 0 <= j < before.len() && j != index ==> after[j] == before[j]
}

/// `after` is the worker once it took one step from `before` toward `target`.
pub open spec fn stepped(world: crate::world::WorldState, before: Worker, after: Worker, target: TilePos, result: WorkerMoveResult) -> bool {
    &&& same_but_place(before, after)
    &&& before.position == target ==> result == WorkerMoveResult::Arrived && after.position == before.position
        && after.status == before.status
    &&& before.position != target && reachable(world, before.position, target) ==> {
        &&& result == WorkerMoveResult::Walking
        &&& first_shortest_step(world, before.position, target, after.position)
        &&& after.status == if before.carrying > 0 {
            WorkerStatus::Carrying
        } else {
            WorkerStatus::Walking
        }
    }
    &&& before.position != target && !reachable(world, before.position, target) ==> result
        == WorkerMoveResult::Blocked && after.position == before.position && after.status == WorkerStatus::Idle
}

/// Moves worker `index` one tile along a route toward `target`.
pub fn move_worker_to(session: &mut GameSession, index: usize, target: TilePos) -> (result: WorkerMoveResult)
    requires
        grid_fits(old(session).world),
        index < old(session).workforce.workers@.len(),
    ensures
        stepped(
            old(session).world,
            old(session).workforce.workers@[index as int],
            final(session).workforce.workers@[index as int],
            target,
            result,
        ),
        others_unchanged(old(session).workforce.workers@, final(session).workforce.workers@, index as int),
        final(session).world == old(session).world,
        final(session).economy == old(session).economy,
        final(session).progress == old(session).progress,
        final(session).research == old(session).research,
        final(session).pressure == old(session).pressure,
        final(session).workforce.selected_worker == old(session).workforce.selected_worker,
        final(session).workforce.priorities@ == old(session).workforce.priorities@,
        final(session).stewardship_policy == old(session).stewardship_policy,
{
    let current = session.workforce.workers[index].position;
    if current == target {
        return WorkerMoveResult::Arrived;
    }
    match next_step(session, current, target) {
        Some(next) => {
            let status = if session.workforce.workers[index].carrying > 0 {
                WorkerStatus::Carrying
            } else {
                WorkerStatus::Walking
            };
            session.workforce.workers[index].position = next;
            session.workforce.workers[index].status = status;
            WorkerMoveResult::Walking
        },
        None => {
            session.workforce.workers[index].status = WorkerStatus::Idle;
            WorkerMoveResult::Blocked
        },
    }
}

/// Every partial sum of the loose piles of either material on any tile
/// fits in an `i32`.
pub open spec fn loose_counts_fit(economy: EconomyState) -> bool {
    forall|resource: ResourceKind, position: TilePos, k: int|
        0 <= k <= economy.seeded_piles(resource).len() ==> i32::MIN <= #[trigger] sum_at(
            economy.seeded_piles(resource).take(k),
            position,
        ) <= i32::MAX
}

/// The loose material a hauler should go for: bones first, then wood.
pub open spec fn haul_resource(economy: EconomyState) -> Option<ResourceKind> {
    if economy.loose_bones > 0 {
        Some(ResourceKind::Bones)
    } else if economy.loose_wood > 0 {
        Some(ResourceKind::Wood)
    } else {
        None
    }
}

/// The committed haul of `worker` still holds: the same material and
/// storage policy, a drop tile the policy accepts, material left at the
/// source, and walks from the worker to the source and on to the drop.
pub open spec fn plan_still_good(session: GameSession, worker: Worker, plan: HaulPlan, resource: ResourceKind) -> bool {
    &&& plan.resource == resource
    &&& plan.storage_policy == policy_for(session, worker.id, ZoneKind::Storage)
    &&& storage_current(session, worker.id, plan.destination)
    &&& sum_at(session.economy.seeded_piles(plan.resource), plan.source) > 0
    &&& routable(session.world, worker.position, plan.source)
    &&& routable(session.world, plan.source, plan.destination)
}

/// The kiln input a hauler should bring from storage: bones while the
/// running cycle still waits for bones that storage holds, then wood.
pub open spec fn kiln_supply_resource(session: GameSession) -> Option<ResourceKind> {
    if input_need(session, ResourceKind::Bones) > 0 && session.economy.bones > 0 {
        Some(ResourceKind::Bones)
    } else if input_need(session, ResourceKind::Wood) > 0 && session.economy.wood > 0 {
        Some(ResourceKind::Wood)
    } else {
        None
    }
}

/// A haul from the stockpile to the work tile of the first complete kiln,
/// for the input the running cycle still waits for.
pub open spec fn kiln_supply_plan(session: GameSession, worker: Worker) -> Option<HaulPlan> {
    match kiln_supply_resource(session) {
        None => None,
        Some(resource) => match first_complete_kiln(session.world.buildings@) {
            None => None,
            Some(kiln) => Some(
                HaulPlan {
                    resource,
                    source: session.world.stockpile_position,
                    destination: work_tile(kiln),
                    storage_policy: policy_for(session, worker.id, ZoneKind::Storage),
                    destination_kind: HaulDestination::Kiln,
                },
            ),
        },
    }
}

/// The haul worker `index` should make: with loose material about, its
/// committed haul while that still holds, else a fresh one from where it
/// would pick up to where it would deliver from there; with none, a kiln
/// supply run when the running cycle waits for stored input.
pub open spec fn planned_haul(session: GameSession, index: int) -> Option<HaulPlan> {
    if index < 0 || index >= session.workforce.workers@.len() {
        None
    } else {
        let worker = session.workforce.workers@[index];
        match haul_resource(session.economy) {
            None => kiln_supply_plan(session, worker),
            Some(resource) => match worker.haul_plan {
                Some(plan) if plan_still_good(session, worker, plan, resource) => Some(plan),
                _ => match worker_dest(session, worker) {
                    None => None,
                    Some(source) => match storage_dest(session, source, worker.id) {
                        None => None,
                        Some(destination) => Some(
                            HaulPlan {
                                resource,
                                source,
                                destination,
                                storage_policy: policy_for(session, worker.id, ZoneKind::Storage),
                                destination_kind: HaulDestination::Storage,
                            },
                        ),
                    },
                },
            },
        }
    }
}

fn kiln_supply(session: &GameSession, worker: &Worker) -> (plan: Option<HaulPlan>)
    requires
        work_tiles_fit(session.world),
    ensures
        plan == kiln_supply_plan(*session, *worker),
{
    let resource = if production_input_need(session, ResourceKind::Bones) > 0 && session.economy.bones > 0 {
        ResourceKind::Bones
    } else if production_input_need(session, ResourceKind::Wood) > 0 && session.economy.wood > 0 {
        ResourceKind::Wood
    } else {
        return None;
    };
    match production_destination(session) {
        None => None,
        Some(destination) => Some(
            HaulPlan {
                resource,
                source: session.world.stockpile_position(),
                destination,
                storage_policy: route_policy(session, worker.id, ZoneKind::Storage),
                destination_kind: HaulDestination::Kiln,
            },
        ),
    }
}

/// The haul worker `index` should make, if any.
pub fn plan_haul(session: &GameSession, worker_index: usize) -> (plan: Option<HaulPlan>)
    requires
        grid_fits(session.world),
        work_tiles_fit(session.world),
        loose_counts_fit(session.economy),
    ensures
        plan == planned_haul(*session, worker_index as int),
{
    if worker_index >= session.workforce.workers.len() {
        return None;
    }
    let worker = &session.workforce.workers[worker_index];
    let resource = if session.economy.loose_bones > 0 {
        ResourceKind::Bones
    } else if session.economy.loose_wood > 0 {
        ResourceKind::Wood
    } else {
        return kiln_supply(session, worker);
    };
    if let Some(plan) = worker.haul_plan {
        if plan.resource == resource && plan.storage_policy == route_policy(session, worker.id, ZoneKind::Storage)
            && storage_destination_is_current(session, worker.id, plan.destination) {
            let available = session.economy.loose_amount_at(plan.resource, plan.source);
            if available > 0 && route_exists(session, worker.position, plan.source) && route_exists(
                session,
                plan.source,
                plan.destination,
            ) {
                return Some(plan);
            }
        }
    }
    let source = match destination_for_worker(session, worker) {
        None => {
            return None;
        },
        Some(s) => s,
    };
    let destination = match storage_destination(session, source, worker.id) {
        None => {
            return None;
        },
        Some(d) => d,
    };
    Some(
        HaulPlan {
            resource,
            source,
            destination,
            storage_policy: route_policy(session, worker.id, ZoneKind::Storage),
            destination_kind: HaulDestination::Storage,
        },
    )
}

/// The committed haul of a carrying worker still leads to a drop tile: the
/// same material, a kiln that still waits for it or a storage tile the
/// current policy accepts, and a walk there.
pub open spec fn keeps_cargo_plan(session: GameSession, worker: Worker, plan: HaulPlan) -> bool {
    let resource = match worker.carrying_resource {
        Some(r) => r,
        None => ResourceKind::Bones,
    };
    &&& plan.resource == resource
    &&& if plan.destination_kind == HaulDestination::Kiln {
        input_need(session, resource) > 0
    } else {
        &&& plan.storage_policy == policy_for(session, worker.id, ZoneKind::Storage)
        &&& storage_current(session, worker.id, plan.destination)
    }
    &&& routable(session.world, worker.position, plan.destination)
}

/// Where the cargo of worker `index` goes, and whether its plan changed:
/// the committed drop while that plan holds, else a fresh drop tile.
pub open spec fn cargo_target(session: GameSession, index: int) -> Option<(TilePos, bool)> {
    if index < 0 || index >= session.workforce.workers@.len() {
        None
    } else {
        let worker = session.workforce.workers@[index];
        let policy = policy_for(session, worker.id, ZoneKind::Storage);
        match worker.haul_plan {
            Some(plan) if keeps_cargo_plan(session, worker, plan) => Some((plan.destination, false)),
            _ => match storage_dest(session, worker.position, worker.id) {
                None => None,
                Some(destination) => Some(
                    (
                        destination,
                        match worker.haul_plan {
                            None => true,
                            Some(plan) => plan.destination != destination || plan.storage_policy != policy,
                        },
                    ),
                ),
            },
        }
    }
}

/// The plan worker `index` holds once its cargo target is settled: the kept
/// plan, or a fresh one from its previous pick-up tile to the new drop.
pub open spec fn cargo_plan(session: GameSession, index: int) -> Option<HaulPlan> {
    let worker = session.workforce.workers@[index];
    let resource = match worker.carrying_resource {
        Some(r) => r,
        None => ResourceKind::Bones,
    };
    match worker.haul_plan {
        Some(plan) if keeps_cargo_plan(session, worker, plan) => Some(plan),
        _ => match storage_dest(session, worker.position, worker.id) {
            None => None,
            Some(destination) => Some(
                HaulPlan {
                    resource,
                    source: match worker.haul_plan {
                        Some(p) => p.source,
                        None => worker.position,
                    },
                    destination,
                    storage_policy: policy_for(session, worker.id, ZoneKind::Storage),
                    destination_kind: HaulDestination::Storage,
                },
            ),
        },
    }
}

/// Settles where the cargo of worker `index` goes, committing a fresh plan
/// when the old one no longer holds.
pub fn destination_for_cargo(session: &mut GameSession, worker_index: usize) -> (target: Option<(TilePos, bool)>)
    requires
        grid_fits(old(session).world),
    ensures
        target == cargo_target(*old(session), worker_index as int),
        worker_index < old(session).workforce.workers@.len() ==> {
            let before = old(session).workforce.workers@[worker_index as int];
            let after = final(session).workforce.workers@[worker_index as int];
            &&& after.haul_plan == cargo_plan(*old(session), worker_index as int)
            &&& after.position == before.position
            &&& after.status == before.status
            &&& after.carrying == before.carrying
            &&& after.carrying_resource == before.carrying_resource
            &&& after.id == before.id
            &&& after.name@ == before.name@
            &&& after.kind == before.kind
            &&& after.assignment == before.assignment
            &&& after.target_plot == before.target_plot
            &&& after.priority_mode == before.priority_mode
        },
        others_unchanged(old(session).workforce.workers@, final(session).workforce.workers@, worker_index as int),
        final(session).world == old(session).world,
        final(session).economy == old(session).economy,
        final(session).progress == old(session).progress,
        final(session).research == old(session).research,
        final(session).pressure == old(session).pressure,
{
    if worker_index >= session.workforce.workers.len() {
        return None;
    }
    let worker = &session.workforce.workers[worker_index];
    let resource = match worker.carrying_resource {
        Some(r) => r,
        None => ResourceKind::Bones,
    };
    let current_policy = route_policy(session, worker.id, ZoneKind::Storage);
    if let Some(plan) = worker.haul_plan {
        let bound = if plan.destination_kind == HaulDestination::Kiln {
            production_input_need(session, resource) > 0
        } else {
            plan.storage_policy == current_policy && storage_destination_is_current(
                session,
                worker.id,
                plan.destination,
            )
        };
        if plan.resource == resource && bound && route_exists(session, worker.position, plan.destination) {
            return Some((plan.destination, false));
        }
    }
    let worker_id = worker.id;
    let worker_position = worker.position;
    let previous_plan = worker.haul_plan;
    let previous_source = match previous_plan {
        Some(plan) => plan.source,
        None => worker_position,
    };
    let destination = match storage_destination(session, worker_position, worker_id) {
        None => {
            session.workforce.workers[worker_index].haul_plan = None;
            return None;
        },
        Some(d) => d,
    };
    session.workforce.workers[worker_index].haul_plan = Some(
        HaulPlan {
            resource,
            source: previous_source,
            destination,
            storage_policy: current_policy,
            destination_kind: HaulDestination::Storage,
        },
    );
    let replanned = match previous_plan {
        None => true,
        Some(plan) => plan.destination != destination || plan.storage_policy != current_policy,
    };
    Some((destination, replanned))
}

// -------------------------------------------------------------- loading

/// Material at a haul's pick-up tile: storage itself when a kiln haul starts
/// at the stockpile, the loose pile there otherwise.
pub open spec fn source_amount(session: GameSession, plan: HaulPlan) -> int {
    if plan.destination_kind == HaulDestination::Kiln && plan.source == session.world.stockpile_position {
        match plan.resource {
            ResourceKind::Bones => session.economy.bones as int,
            ResourceKind::Wood => session.economy.wood as int,
        }
    } else {
        sum_at(session.economy.seeded_piles(plan.resource), plan.source)
    }
}

/// How much a hauler with base capacity `base` picks up for `plan`: no more
/// than lies there, than it can carry (with the marked-storage bonus), than
/// a kiln still needs, or than storage has room for.
pub open spec fn load_amount(session: GameSession, rules: DistrictRules, plan: HaulPlan, base: i32) -> int {
    let to_storage = plan.destination_kind == HaulDestination::Storage;
    let bonus: int = if to_storage { haul_bonus_of(session, rules, plan.destination) as int } else { 0 };
    let room: int = if to_storage {
        session.economy.space_spec(capacity_of(session, rules)) as int
    } else {
        i32::MAX as int
    };
    let need: int = if to_storage { i32::MAX as int } else { input_need(session, plan.resource) as int };
    min_int(min_int(min_int(source_amount(session, plan), base + bonus), need), room)
}

/// A kiln supply load never exceeds what the running cycle still needs,
/// what lies at the pick-up tile, or what the hauler can carry.
pub proof fn lemma_kiln_load_within_need(session: GameSession, rules: DistrictRules, plan: HaulPlan, base: i32)
    requires
        plan.destination_kind == HaulDestination::Kiln,
    ensures
        load_amount(session, rules, plan, base) <= input_need(session, plan.resource),
        load_amount(session, rules, plan, base) <= source_amount(session, plan),
        load_amount(session, rules, plan, base) <= base,
{
}

/// A storage load never exceeds the free storage room, what lies at the
/// pick-up tile, or what the hauler can carry with the marked-storage bonus;
/// and it reaches the least of these.
pub proof fn lemma_storage_load_within_room(session: GameSession, rules: DistrictRules, plan: HaulPlan, base: i32)
    requires
        plan.destination_kind == HaulDestination::Storage,
    ensures
        load_amount(session, rules, plan, base) <= session.economy.space_spec(capacity_of(session, rules)),
        load_amount(session, rules, plan, base) <= source_amount(session, plan),
        load_amount(session, rules, plan, base) <= base + haul_bonus_of(session, rules, plan.destination),
        load_amount(session, rules, plan, base) == session.economy.space_spec(capacity_of(session, rules))
            || load_amount(session, rules, plan, base) == source_amount(session, plan)
            || load_amount(session, rules, plan, base) == base + haul_bonus_of(session, rules, plan.destination),
{
}

/// `after` holds `before`'s economy once `amount` was picked up for `plan`.
pub open spec fn picked_up(before: GameSession, after: EconomyState, plan: HaulPlan, amount: int) -> bool {
    let economy = before.economy;
    if plan.destination_kind == HaulDestination::Kiln && plan.source == before.world.stockpile_position {
        &&& after.bones == economy.bones - if plan.resource == ResourceKind::Bones { amount } else { 0 }
        &&& after.wood == economy.wood - if plan.resource == ResourceKind::Wood { amount } else { 0 }
        &&& after.mana == economy.mana
        &&& after.ward_charges == economy.ward_charges
        &&& after.shovels == economy.shovels
        &&& after.storage_capacity == economy.storage_capacity
        &&& after.loose_bones == economy.loose_bones
        &&& after.loose_wood == economy.loose_wood
        &&& after.loose_bones_source == economy.loose_bones_source
        &&& after.loose_wood_source == economy.loose_wood_source
        &&& after.loose_bones_piles@ == economy.loose_bones_piles@
        &&& after.loose_wood_piles@ == economy.loose_wood_piles@
    } else {
        &&& after.loose_wf()
        &&& after.same_stock(economy)
        &&& after.piles_of(plan.resource) == taken_from(economy.normalized_piles(plan.resource), plan.source, amount as i32)
        &&& forall|other: ResourceKind|
            other != plan.resource ==> after.piles_of(other) == economy.normalized_piles(other)
    }
}

/// The haul load fits in the machine: capacity plus bonus is an `i32`, and
/// the loose piles can be normalised and summed.
pub open spec fn load_fits(session: GameSession, rules: DistrictRules, base: i32) -> bool {
    &&& i32::MIN <= base + rules.storage_capacity_bonus <= i32::MAX
    &&& base >= 0
    &&& rules.storage_capacity_bonus >= 0
    &&& session.economy.normalizable()
    &&& loose_counts_fit(session.economy)
}

/// Worker `index` takes up its haul: it commits to its planned haul and
/// walks to the pick-up tile; once there, it loads what it can carry.
pub fn load_haul(session: &mut GameSession, rules: &DistrictRules, index: usize, base_capacity: i32)
    requires
        grid_fits(old(session).world),
        work_tiles_fit(old(session).world),
        index < old(session).workforce.workers@.len(),
        load_fits(*old(session), *rules, base_capacity),
    ensures
        ({
            let before = old(session).workforce.workers@[index as int];
            let after = final(session).workforce.workers@[index as int];
            match planned_haul(*old(session), index as int) {
                None => {
                    &&& after.status == WorkerStatus::Idle
                    &&& after.carrying_resource is None
                    &&& after.haul_plan is None
                    &&& after.position == before.position
                    &&& after.carrying == before.carrying
                    &&& final(session).economy == old(session).economy
                    &&& final(session).progress == old(session).progress
                    &&& final(session).pressure == old(session).pressure
                },
                Some(plan) => if before.position != plan.source {
                    &&& stepped(
                        old(session).world,
                        Worker { haul_plan: Some(plan), ..before },
                        after,
                        plan.source,
                        if reachable(old(session).world, before.position, plan.source) {
                            WorkerMoveResult::Walking
                        } else {
                            WorkerMoveResult::Blocked
                        },
                    )
                    &&& final(session).economy == old(session).economy
                    &&& final(session).progress == old(session).progress
                    &&& final(session).pressure == old(session).pressure
                } else if load_amount(*old(session), *rules, plan, base_capacity) <= 0 {
                    &&& after.haul_plan is None
                    &&& after.status == WorkerStatus::Idle
                    &&& after.carrying == before.carrying
                    &&& after.position == before.position
                    &&& final(session).economy == old(session).economy
                    &&& final(session).progress == old(session).progress
                    &&& final(session).pressure == old(session).pressure
                } else {
                    let amount = load_amount(*old(session), *rules, plan, base_capacity);
                    let extra = if amount - base_capacity > 0 { (amount - base_capacity) as i32 } else { 0i32 };
                    &&& after.carrying == amount
                    &&& after.carrying_resource == Some(plan.resource)
                    &&& after.haul_plan == Some(plan)
                    &&& after.status == WorkerStatus::Carrying
                    &&& after.position == before.position
                    &&& picked_up(*old(session), final(session).economy, plan, amount)
                    &&& bonus_announced(*old(session), *final(session), extra)
                    &&& final(session).progress.district_ledger.storage_bonus_items == (if extra > 0 {
                        crate::production::sat_add_i32(old(session).progress.district_ledger.storage_bonus_items, extra)
                    } else {
                        old(session).progress.district_ledger.storage_bonus_items
                    })
                }
            }
        }),
        ({
            let before = old(session).workforce.workers@[index as int];
            let after = final(session).workforce.workers@[index as int];
            &&& after.id == before.id
            &&& after.name@ == before.name@
            &&& after.kind == before.kind
            &&& after.assignment == before.assignment
            &&& after.target_plot == before.target_plot
            &&& after.priority_mode == before.priority_mode
        }),
        others_unchanged(old(session).workforce.workers@, final(session).workforce.workers@, index as int),
        final(session).world == old(session).world,
        final(session).research == old(session).research,
{
    let plan = match plan_haul(session, index) {
        None => {
            session.workforce.workers[index].status = WorkerStatus::Idle;
            session.workforce.workers[index].carrying_resource = None;
            session.workforce.workers[index].haul_plan = None;
            return;
        },
        Some(plan) => plan,
    };
    session.workforce.workers[index].haul_plan = Some(plan);
    if move_worker_to(session, index, plan.source) != WorkerMoveResult::Arrived {
        return;
    }
    pick_up(session, rules, index, plan, base_capacity);
}

fn haul_load_amount(session: &GameSession, rules: &DistrictRules, plan: HaulPlan, base_capacity: i32) -> (amount: i32)
    requires
        load_fits(*session, *rules, base_capacity),
    ensures
        amount == load_amount(*session, *rules, plan, base_capacity),
{
    let to_storage = plan.destination_kind == HaulDestination::Storage;
    let storage_bonus = if to_storage {
        haul_capacity_bonus(session, rules, plan.destination)
    } else {
        0
    };
    let room = if to_storage {
        storage_space(session, rules)
    } else {
        i32::MAX
    };
    let at_stockpile = plan.source == session.world.stockpile_position();
    let available = if !to_storage && at_stockpile {
        match plan.resource {
            ResourceKind::Bones => session.economy.bones,
            ResourceKind::Wood => session.economy.wood,
        }
    } else {
        session.economy.loose_amount_at(plan.resource, plan.source)
    };
    let need = if to_storage {
        i32::MAX
    } else {
        production_input_need(session, plan.resource)
    };
    let capacity = base_capacity + storage_bonus;
    let mut amount = if available < capacity {
        available
    } else {
        capacity
    };
    if need < amount {
        amount = need;
    }
    if room < amount {
        amount = room;
    }
    amount
}

fn take_for_haul(economy: &mut EconomyState, plan: HaulPlan, amount: i32, kiln_from_storage: bool)
    requires
        amount > 0,
        old(economy).normalizable(),
        kiln_from_storage ==> amount <= match plan.resource {
            ResourceKind::Bones => old(economy).bones,
            ResourceKind::Wood => old(economy).wood,
        },
    ensures
        kiln_from_storage ==> {
            &&& final(economy).bones == old(economy).bones - if plan.resource == ResourceKind::Bones { amount as int } else { 0 }
            &&& final(economy).wood == old(economy).wood - if plan.resource == ResourceKind::Wood { amount as int } else { 0 }
            &&& final(economy).mana == old(economy).mana
            &&& final(economy).ward_charges == old(economy).ward_charges
            &&& final(economy).shovels == old(economy).shovels
            &&& final(economy).storage_capacity == old(economy).storage_capacity
            &&& final(economy).loose_bones == old(economy).loose_bones
            &&& final(economy).loose_wood == old(economy).loose_wood
            &&& final(economy).loose_bones_source == old(economy).loose_bones_source
            &&& final(economy).loose_wood_source == old(economy).loose_wood_source
            &&& final(economy).loose_bones_piles@ == old(economy).loose_bones_piles@
            &&& final(economy).loose_wood_piles@ == old(economy).loose_wood_piles@
        },
        !kiln_from_storage ==> {
            &&& final(economy).loose_wf()
            &&& final(economy).same_stock(*old(economy))
            &&& final(economy).piles_of(plan.resource) == taken_from(
                old(economy).normalized_piles(plan.resource),
                plan.source,
                amount,
            )
            &&& forall|other: ResourceKind|
                other != plan.resource ==> final(economy).piles_of(other) == old(economy).normalized_piles(other)
        },
{
    if kiln_from_storage {
        match plan.resource {
            ResourceKind::Bones => economy.bones = economy.bones - amount,
            ResourceKind::Wood => economy.wood = economy.wood - amount,
        }
    } else {
        economy.take_loose(plan.resource, plan.source, amount);
    }
}

/// The pressure state after a pick-up that carried `extra` items thanks to
/// marked storage: the first such pick-up ever is announced in the feed,
/// and nothing else about pressure changes.
pub open spec fn bonus_announced(before: GameSession, after: GameSession, extra: i32) -> bool {
    &&& extra > 0 && before.progress.district_ledger.storage_bonus_items == 0 ==> announced(
        after.pressure.feed@,
        first_storage_bonus_message(),
    )
    &&& !(extra > 0 && before.progress.district_ledger.storage_bonus_items == 0) ==> after.pressure.feed@
        == before.pressure.feed@
    &&& after.pressure.stage == before.pressure.stage
    &&& after.pressure.active_event == before.pressure.active_event
    &&& after.pressure.event_history@ == before.pressure.event_history@
    &&& after.pressure.last_reason@ == before.pressure.last_reason@
    &&& after.progress == (crate::session::ProgressState {
        district_ledger: after.progress.district_ledger,
        ..before.progress
    })
    &&& after.progress.district_ledger.work_cycles == before.progress.district_ledger.work_cycles
}

/// Worker `index`, standing on the pick-up tile of `plan`, loads its haul.
fn pick_up(session: &mut GameSession, rules: &DistrictRules, index: usize, plan: HaulPlan, base_capacity: i32)
    requires
        index < old(session).workforce.workers@.len(),
        load_fits(*old(session), *rules, base_capacity),
    ensures
        ({
            let before = old(session).workforce.workers@[index as int];
            let after = final(session).workforce.workers@[index as int];
            let amount = load_amount(*old(session), *rules, plan, base_capacity);
            let extra = if amount - base_capacity > 0 { (amount - base_capacity) as i32 } else { 0i32 };
            &&& after.id == before.id
            &&& after.name@ == before.name@
            &&& after.kind == before.kind
            &&& after.assignment == before.assignment
            &&& after.target_plot == before.target_plot
            &&& after.priority_mode == before.priority_mode
            &&& after.position == before.position
            &&& amount <= 0 ==> {
                &&& after.haul_plan is None
                &&& after.status == WorkerStatus::Idle
                &&& after.carrying == before.carrying
                &&& after.carrying_resource == before.carrying_resource
                &&& final(session).economy == old(session).economy
                &&& final(session).progress == old(session).progress
                &&& final(session).pressure == old(session).pressure
            }
            &&& amount > 0 ==> bonus_announced(*old(session), *final(session), extra)
            &&& amount > 0 ==> {
                &&& after.carrying == amount
                &&& after.carrying_resource == Some(plan.resource)
                &&& after.haul_plan == Some(plan)
                &&& after.status == WorkerStatus::Carrying
                &&& picked_up(*old(session), final(session).economy, plan, amount)
                &&& final(session).progress.district_ledger.storage_bonus_items == (if extra > 0 {
                    crate::production::sat_add_i32(old(session).progress.district_ledger.storage_bonus_items, extra)
                } else {
                    old(session).progress.district_ledger.storage_bonus_items
                })
            }
        }),
        others_unchanged(old(session).workforce.workers@, final(session).workforce.workers@, index as int),
        final(session).world == old(session).world,
        final(session).research == old(session).research,
{
    let amount = haul_load_amount(session, rules, plan, base_capacity);
    if amount <= 0 {
        session.workforce.workers[index].haul_plan = None;
        session.workforce.workers[index].status = WorkerStatus::Idle;
        return;
    }
    let extra = if amount - base_capacity > 0 {
        amount - base_capacity
    } else {
        0
    };
    let kiln_from_storage = plan.destination_kind == HaulDestination::Kiln && plan.source
        == session.world.stockpile_position();
    record_storage_bonus(session, extra);
    take_for_haul(&mut session.economy, plan, amount, kiln_from_storage);
    session.workforce.workers[index].carrying = amount;
    session.workforce.workers[index].carrying_resource = Some(plan.resource);
    session.workforce.workers[index].haul_plan = Some(plan);
    session.workforce.workers[index].status = WorkerStatus::Carrying;
}

// ------------------------------------------------------------- carrying

pub open spec fn material_label(resource: ResourceKind) -> Seq<char> {
    match resource {
        ResourceKind::Bones => "bones"@,
        ResourceKind::Wood => "wood"@,
    }
}

fn material_name(resource: ResourceKind) -> (label: &'static str)
    ensures
        label@ == material_label(resource),
{
    match resource {
        ResourceKind::Bones => "bones",
        ResourceKind::Wood => "wood",
    }
}

/// What a replanned bundle is now bound for.
pub open spec fn bundle_target_label(plan: Option<HaulPlan>) -> Seq<char> {
    match plan {
        None => "current Storage"@,
        Some(p) => match p.destination_kind {
            HaulDestination::Storage => crate::policies::route_policy_label(p.storage_policy) + " Storage"@,
            HaulDestination::Kiln => "the Ossuary Kiln"@,
        },
    }
}

pub open spec fn replanned_message(worker: Worker) -> Seq<char> {
    let resource = match worker.carrying_resource {
        Some(r) => r,
        None => ResourceKind::Bones,
    };
    worker.name@ + " replanned its "@ + material_label(resource) + " bundle for "@ + bundle_target_label(
        worker.haul_plan,
    ) + "."@
}

/// A carrying worker heads for its drop tile: it settles the drop (which
/// may replan its bundle, announced in the returned line) and takes one
/// step; the flag tells whether it stands on the drop tile. Without any
/// drop tile it idles.
pub fn carry_toward_drop(session: &mut GameSession, index: usize) -> (outcome: (Option<String>, bool))
    requires
        grid_fits(old(session).world),
        index < old(session).workforce.workers@.len(),
    ensures
        cargo_target(*old(session), index as int) is None ==> outcome == (None::<String>, false)
            && final(session).workforce.workers@[index as int].status == WorkerStatus::Idle
            && final(session).workforce.workers@[index as int].haul_plan is None,
        cargo_target(*old(session), index as int) matches Some((destination, replanned)) ==> {
            let after = final(session).workforce.workers@[index as int];
            &&& outcome.1 == (old(session).workforce.workers@[index as int].position == destination)
            &&& (replanned <==> outcome.0 is Some)
            &&& outcome.0 matches Some(m) ==> m@ == replanned_message(
                Worker { haul_plan: cargo_plan(*old(session), index as int), ..old(session).workforce.workers@[index as int] },
            )
            &&& after.haul_plan == cargo_plan(*old(session), index as int)
            &&& after.carrying == old(session).workforce.workers@[index as int].carrying
        },
        others_unchanged(old(session).workforce.workers@, final(session).workforce.workers@, index as int),
        final(session).world == old(session).world,
        final(session).economy == old(session).economy,
        final(session).progress == old(session).progress,
        final(session).research == old(session).research,
        final(session).pressure == old(session).pressure,
{
    let (destination, replanned) = match destination_for_cargo(session, index) {
        None => {
            session.workforce.workers[index].status = WorkerStatus::Idle;
            return (None, false);
        },
        Some(target) => target,
    };
    let note = if replanned {
        let worker = &session.workforce.workers[index];
        let resource = match worker.carrying_resource {
            Some(r) => r,
            None => ResourceKind::Bones,
        };
        let mut message = worker.name.clone();
        push_str(&mut message, " replanned its ");
        push_str(&mut message, material_name(resource));
        push_str(&mut message, " bundle for ");
        match worker.haul_plan {
            None => push_str(&mut message, "current Storage"),
            Some(plan) => match plan.destination_kind {
                HaulDestination::Storage => {
                    push_str(&mut message, plan.storage_policy.label());
                    push_str(&mut message, " Storage");
                },
                HaulDestination::Kiln => push_str(&mut message, "the Ossuary Kiln"),
            },
        }
        push_str(&mut message, ".");
        Some(message)
    } else {
        None
    };
    let arrived = move_worker_to(session, index, destination) == WorkerMoveResult::Arrived;
    (note, arrived)
}

pub open spec fn kiln_delivery_message(amount: int, resource: ResourceKind) -> Seq<char> {
    "Delivered "@ + crate::text_util::decimal(amount) + " "@ + material_label(resource) + " to the Ossuary Kiln."@
}

pub open spec fn stored_message(amount: int, resource: ResourceKind) -> Seq<char> {
    "Hauled "@ + crate::text_util::decimal(amount) + " "@ + material_label(resource) + " into the stockpile."@
}

pub open spec fn storage_full_message(amount: int, resource: ResourceKind) -> Seq<char> {
    "Storage is full; "@ + crate::text_util::decimal(amount) + " "@ + material_label(resource) + " remain carried."@
}

/// The storage delivery of `amount` fits the settlement's `i32` counts.
pub open spec fn delivery_fits(session: GameSession, rules: DistrictRules, resource: ResourceKind, amount: i32) -> bool {
    let stored = session.economy.storable(amount, capacity_of(session, rules));
    &&& resource == ResourceKind::Bones ==> session.economy.bones + stored <= i32::MAX
    &&& resource == ResourceKind::Wood ==> session.economy.wood + stored <= i32::MAX
}

fn amount_line(prefix: &str, amount: i32, resource: ResourceKind, suffix: &str) -> (line: String)
    ensures
        line@ == prefix@ + crate::text_util::decimal(amount as int) + " "@ + material_label(resource) + suffix@,
{
    let mut line = String::from_str(prefix);
    push_decimal(&mut line, amount as i64);
    push_str(&mut line, " ");
    push_str(&mut line, material_name(resource));
    push_str(&mut line, suffix);
    line
}

/// Worker `index`, done unloading at its drop tile, hands its bundle over:
/// to the running kiln cycle (what the cycle does not need is lost) or to
/// storage (what does not fit stays carried). Returns the lines to report.
pub fn deliver_haul(session: &mut GameSession, rules: &DistrictRules, index: usize) -> (messages: Vec<String>)
    requires
        index < old(session).workforce.workers@.len(),
        ({
            let worker = old(session).workforce.workers@[index as int];
            let resource = match worker.carrying_resource {
                Some(r) => r,
                None => ResourceKind::Bones,
            };
            delivery_fits(*old(session), *rules, resource, worker.carrying)
        }),
    ensures
        ({
            let before = old(session).workforce.workers@[index as int];
            let after = final(session).workforce.workers@[index as int];
            let resource = match before.carrying_resource {
                Some(r) => r,
                None => ResourceKind::Bones,
            };
            let amount = before.carrying;
            let to_kiln = before.haul_plan matches Some(p) && p.destination_kind == HaulDestination::Kiln;
            &&& after.haul_plan is None
            &&& after.position == before.position
            &&& to_kiln ==> {
                let delivered = crate::progression::accepted(amount, input_need(*old(session), resource));
                &&& after.carrying == 0
                &&& after.carrying_resource is None
                &&& after.status == WorkerStatus::Idle
                &&& input_need(*final(session), resource) == input_need(*old(session), resource) - delivered
                &&& final(session).progress == (crate::session::ProgressState {
                    production: final(session).progress.production,
                    ..old(session).progress
                })
                &&& final(session).economy == old(session).economy
                &&& messages@.len() == if delivered > 0 { 1int } else { 0int }
                &&& delivered > 0 ==> messages@[0]@ == kiln_delivery_message(delivered as int, resource)
            }
            &&& !to_kiln ==> {
                let stored = old(session).economy.storable(amount, capacity_of(*old(session), *rules));
                let left = amount - stored;
                &&& final(session).economy == old(session).economy.with_stored(resource, stored as int)
                &&& after.carrying == if left > 0 { left } else { 0 }
                &&& after.carrying_resource == if left > 0 { Some(resource) } else { None::<ResourceKind> }
                &&& after.status == if left > 0 { WorkerStatus::Carrying } else { WorkerStatus::Idle }
                &&& final(session).progress == old(session).progress
                &&& messages@.len() == (if stored > 0 { 1int } else { 0int }) + (if left > 0 { 1int } else { 0int })
                &&& stored > 0 ==> messages@[0]@ == stored_message(stored as int, resource)
                &&& left > 0 ==> messages@[messages@.len() - 1]@ == storage_full_message(left, resource)
            }
        }),
        others_unchanged(old(session).workforce.workers@, final(session).workforce.workers@, index as int),
        final(session).world == old(session).world,
        final(session).research == old(session).research,
        final(session).pressure == old(session).pressure,
{
    let mut messages: Vec<String> = Vec::new();
    let resource = match session.workforce.workers[index].carrying_resource {
        Some(r) => r,
        None => ResourceKind::Bones,
    };
    let amount = session.workforce.workers[index].carrying;
    let to_kiln = match session.workforce.workers[index].haul_plan {
        Some(plan) => plan.destination_kind == HaulDestination::Kiln,
        None => false,
    };
    session.workforce.workers[index].carrying = 0;
    session.workforce.workers[index].carrying_resource = None;
    session.workforce.workers[index].haul_plan = None;
    session.workforce.workers[index].status = WorkerStatus::Idle;
    if to_kiln {
        let delivered = deliver_production_input(session, resource, amount);
        if delivered > 0 {
            messages.push(amount_line("Delivered ", delivered, resource, " to the Ossuary Kiln."));
        }
    } else {
        let capacity = storage_capacity(session, rules);
        let stored = session.economy.store_resource(resource, amount, capacity);
        if stored > 0 {
            messages.push(amount_line("Hauled ", stored, resource, " into the stockpile."));
        }
        if stored < amount {
            let left = amount - stored;
            session.workforce.workers[index].carrying = left;
            session.workforce.workers[index].carrying_resource = Some(resource);
            session.workforce.workers[index].status = WorkerStatus::Carrying;
            messages.push(amount_line("Storage is full; ", left, resource, " remain carried."));
        }
    }
    messages
}

} // verus!
