//! Tile-authoritative movement orders for the necromancer and cargo drops.

use vstd::prelude::*;
use crate::economy::{added, positive_total, EconomyState};
use crate::kinds::{ResourceKind, WorkerStatus};
use crate::navigation::{
    first_shortest_step, grid_fits, is_valid_destination, neighbour_inside, neighbour_of, next_step, passable, plan_route,
    reachable, route_failure_label, shortest_route, starts_shortest, RouteFailure,
};
use crate::session::GameSession;
use crate::text_util::push_str;
use crate::tile::{adjacent, TilePos};
use crate::workforce::Worker;

verus! {

pub open spec fn blocked_order_message() -> Seq<char> {
    "That tile is blocked or outside the cemetery."@
}

pub open spec fn unreachable_order_message() -> Seq<char> {
    "The necromancer cannot reach that tile: "@ + route_failure_label(RouteFailure::NoPath) + "."@
}

pub open spec fn failed_route_message() -> Seq<char> {
    "The necromancer's route failed: "@ + route_failure_label(RouteFailure::NoPath) + "."@
}

/// Orders the necromancer to walk to `destination`.
pub fn request_necromancer_destination(session: &mut GameSession, destination: TilePos) -> (result: Result<(), String>)
    requires
        grid_fits(old(session).world),
    ensures
        destination == old(session).world.necromancer_position ==> result is Ok
            && final(session).world.necromancer_destination is None && final(session).world.necromancer_position
            == old(session).world.necromancer_position,
        destination != old(session).world.necromancer_position && !passable(old(session).world, destination)
            ==> (result matches Err(m) && m@ == blocked_order_message()) && *final(session) == *old(session),
        destination != old(session).world.necromancer_position && passable(old(session).world, destination)
            && !reachable(old(session).world, old(session).world.necromancer_position, destination) ==> (result matches Err(
            m,
        ) && m@ == unreachable_order_message()) && *final(session) == *old(session),
        destination != old(session).world.necromancer_position && passable(old(session).world, destination)
            && reachable(old(session).world, old(session).world.necromancer_position, destination) ==> result is Ok
            && final(session).world.necromancer_destination == Some(destination)
            && final(session).world.necromancer_position == old(session).world.necromancer_position,
        final(session).world.buildings@ == old(session).world.buildings@,
        final(session).workforce.workers@ == old(session).workforce.workers@,
        final(session).economy == old(session).economy,
        final(session).research == old(session).research,
        final(session).pressure == old(session).pressure,
{
    if destination == session.world.necromancer_position {
        session.world.necromancer_destination = None;
        return Ok(());
    }
    if !is_valid_destination(session, destination) {
        return Err(String::from_str("That tile is blocked or outside the cemetery."));
    }
    match plan_route(session, session.world.necromancer_position, destination) {
        Err(failure) => {
            let mut message = String::from_str("The necromancer cannot reach that tile: ");
            push_str(&mut message, failure.label());
            push_str(&mut message, ".");
            Err(message)
        },
        Ok(_) => {
            session.world.necromancer_destination = Some(destination);
            Ok(())
        },
    }
}

/// Moves the necromancer one step along its ordered walk; reports a walk
/// that has become impossible and cancels it.
pub fn simulate_necromancer(session: &mut GameSession) -> (report: Option<String>)
    requires
        grid_fits(old(session).world),
    ensures
        old(session).world.necromancer_destination is None ==> report is None && *final(session) == *old(session),
        old(session).world.necromancer_destination == Some(old(session).world.necromancer_position) ==> report is None
            && final(session).world.necromancer_destination is None && final(session).world.necromancer_position
            == old(session).world.necromancer_position,
        match old(session).world.necromancer_destination {
            Some(d) => d != old(session).world.necromancer_position ==> if reachable(
                old(session).world,
                old(session).world.necromancer_position,
                d,
            ) {
                &&& report is None
                &&& adjacent(old(session).world.necromancer_position, final(session).world.necromancer_position)
                &&& first_shortest_step(
                    old(session).world,
                    old(session).world.necromancer_position,
                    d,
                    final(session).world.necromancer_position,
                )
                &&& final(session).world.necromancer_destination == if final(session).world.necromancer_position
                    == d {
                    None
                } else {
                    Some(d)
                }
            } else {
                &&& report matches Some(m) && m@ == failed_route_message()
                &&& final(session).world.necromancer_destination is None
                &&& final(session).world.necromancer_position == old(session).world.necromancer_position
            },
            None => true,
        },
        final(session).world.buildings@ == old(session).world.buildings@,
        final(session).world.forest_tiles@ == old(session).world.forest_tiles@,
        final(session).world.width == old(session).world.width,
        final(session).world.height == old(session).world.height,
        final(session).world.road_x == old(session).world.road_x,
        final(session).workforce.workers@ == old(session).workforce.workers@,
        final(session).economy == old(session).economy,
        final(session).research == old(session).research,
        final(session).pressure == old(session).pressure,
{
    let destination = match session.world.necromancer_destination {
        None => return None,
        Some(d) => d,
    };
    if destination == session.world.necromancer_position {
        session.world.necromancer_destination = None;
        return None;
    }
    let current = session.world.necromancer_position;
    match next_step(session, current, destination) {
        Some(next) => {
            proof {
                let k = choose|k: int|
                    0 <= k < 4 && neighbour_inside(session.world, current, k) && next == neighbour_of(current, k)
                        && starts_shortest(session.world, current, destination, next) && forall|j: int|
                        0 <= j < k && neighbour_inside(session.world, current, j) ==> !starts_shortest(
                            session.world,
                            current,
                            destination,
                            #[trigger] neighbour_of(current, j),
                        );
                let steps = choose|steps: Seq<TilePos>|
                    #[trigger] shortest_route(session.world, current, destination, steps) && steps.len() >= 2
                        && steps[1] == next;
                assert(adjacent(steps[0], steps[0int + 1]));
            }
            session.world.necromancer_position = next;
            if next == destination {
                session.world.necromancer_destination = None;
            }
            None
        },
        None => {
            session.world.necromancer_destination = None;
            let mut message = String::from_str("The necromancer's route failed: ");
            push_str(&mut message, RouteFailure::NoPath.label());
            push_str(&mut message, ".");
            Some(message)
        },
    }
}

/// Dropping the cargo of the worker at `index` fits the loose-pile bookkeeping.
pub open spec fn can_drop_cargo(session: GameSession, index: usize) -> bool {
    index < session.workforce.workers@.len() && session.workforce.workers@[index as int].carrying > 0 ==> {
        let worker = session.workforce.workers@[index as int];
        let resource = match worker.carrying_resource {
            Some(r) => r,
            None => ResourceKind::Bones,
        };
        &&& session.economy.normalizable()
        &&& positive_total(session.economy.seeded_piles(resource)) + worker.carrying <= i32::MAX
    }
}

/// `after` is `before` once `worker` has set its load down as loose material
/// on its tile: the load joins the piles of its material there, and every
/// other count and pile is kept. Without a load nothing changes.
pub open spec fn cargo_dropped(before: EconomyState, after: EconomyState, worker: Worker) -> bool {
    let resource = match worker.carrying_resource {
        Some(r) => r,
        None => ResourceKind::Bones,
    };
    &&& worker.carrying <= 0 ==> after == before
    &&& worker.carrying > 0 ==> {
        &&& after.loose_wf()
        &&& after.same_stock(before)
        &&& after.piles_of(resource) == added(before.normalized_piles(resource), worker.position, worker.carrying)
        &&& forall|other: ResourceKind| other != resource ==> after.piles_of(other) == before.normalized_piles(other)
    }
}

/// The worker at `index` drops what it carries as a loose pile on its tile
/// and forgets its haul plan.
pub fn drop_worker_cargo(session: &mut GameSession, index: usize)
    requires
        can_drop_cargo(*old(session), index),
    ensures
        index >= old(session).workforce.workers@.len() ==> *final(session) == *old(session),
        index < old(session).workforce.workers@.len() ==> {
            let before = old(session).workforce.workers@[index as int];
            let after = final(session).workforce.workers@[index as int];
            let resource = match before.carrying_resource {
                Some(r) => r,
                None => ResourceKind::Bones,
            };
            &&& final(session).workforce.workers@.len() == old(session).workforce.workers@.len()
            &&& forall|j: int|
                0 <= j < old(session).workforce.workers@.len() && j != index ==> final(session).workforce.workers@[j]
                    == old(session).workforce.workers@[j]
            &&& after.carrying == 0
            &&& after.carrying_resource is None
            &&& after.haul_plan is None
            &&& after.status == WorkerStatus::Idle
            &&& after.position == before.position
            &&& after.id == before.id
            &&& after.name == before.name
            &&& after.kind == before.kind
            &&& after.assignment == before.assignment
            &&& after.target_plot == before.target_plot
            &&& after.priority_mode == before.priority_mode
            &&& cargo_dropped(old(session).economy, final(session).economy, before)
        },
        final(session).world == old(session).world,
        final(session).progress == old(session).progress,
        final(session).pressure == old(session).pressure,
        final(session).workforce.priorities@ == old(session).workforce.priorities@,
        final(session).workforce.selected_worker == old(session).workforce.selected_worker,
        final(session).research == old(session).research,
        final(session).phase == old(session).phase,
        final(session).stewardship_policy == old(session).stewardship_policy,
{
    if index >= session.workforce.workers.len() {
        return;
    }
    let amount = session.workforce.workers[index].carrying;
    if amount > 0 {
        let resource = match session.workforce.workers[index].carrying_resource {
            Some(r) => r,
            None => ResourceKind::Bones,
        };
        let position = session.workforce.workers[index].position;
        session.economy.add_loose(resource, position, amount);
    }
    session.workforce.workers[index].carrying = 0;
    session.workforce.workers[index].carrying_resource = None;
    session.workforce.workers[index].haul_plan = None;
    session.workforce.workers[index].status = WorkerStatus::Idle;
}

/// The way an actor looks on the map.
#[derive(Debug, Clone, Copy, PartialEq, Eq, Structural)]
pub enum Facing {
    Up,
    Down,
    Left,
    Right,
}

/// The facing after a step from `from` to `to`: sideways moves win, and a
/// step that does not move keeps `fallback`.
pub open spec fn facing_after(from: TilePos, to: TilePos, fallback: Facing) -> Facing {
    if to.x < from.x {
        Facing::Left
    } else if to.x > from.x {
        Facing::Right
    } else if to.y < from.y {
        Facing::Up
    } else if to.y > from.y {
        Facing::Down
    } else {
        fallback
    }
}

impl Facing {
    /// The facing of an actor stepping from `from` to `to`.
    pub fn from_step(from: TilePos, to: TilePos, fallback: Facing) -> (facing: Facing)
        ensures
            facing == facing_after(from, to, fallback),
    {
        if to.x < from.x {
            Facing::Left
        } else if to.x > from.x {
            Facing::Right
        } else if to.y < from.y {
            Facing::Up
        } else if to.y > from.y {
            Facing::Down
        } else {
            fallback
        }
    }
}

} // verus!
