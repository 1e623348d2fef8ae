//! The whole-step part of work at job sites: where builders and refiners
//! stand, and what a finished woodcutting cycle leaves behind.

use vstd::prelude::*;
use crate::districts::record_work_cycle;
use crate::economy::{added, positive_total};
use crate::kinds::{BuildingKind, ResourceKind};
use crate::progression::{first_complete_kiln, first_unfinished, input_need, work_tile_fits, lemma_first_unfinished};
use crate::session::GameSession;
use crate::text_util::{decimal, push_decimal, push_str};
use crate::tile::TilePos;
use crate::world::{guard_tile, work_tile, WorldState};
use crate::kinds::WorkerStatus;
use crate::logistics::{move_worker_to, others_unchanged, same_but_place, stepped, WorkerMoveResult};
use crate::navigation::{grid_fits, reachable};
use crate::targets::{destination_for_worker, work_tiles_fit, worker_dest};
use crate::workforce::Worker;

verus! {

/// Where builders stand: the work tile of the first unfinished structure.
pub open spec fn build_site(session: GameSession) -> Option<TilePos> {
    match first_unfinished(session.world.buildings@) {
        Some(i) => Some(work_tile(session.world.buildings@[i])),
        None => None,
    }
}

pub fn construction_target(session: &GameSession) -> (site: Option<TilePos>)
    requires
        forall|i: int|
            0 <= i < session.world.buildings@.len() ==> work_tile_fits(#[trigger] session.world.buildings@[i]),
    ensures
        site == build_site(*session),
{
    proof {
        lemma_first_unfinished(session.world.buildings@);
    }
    let buildings = &session.world.buildings;
    let mut i: usize = 0;
    while i < buildings.len() && buildings[i].complete
        invariant
            i <= buildings@.len(),
            forall|j: int| 0 <= j < i ==> (#[trigger] buildings@[j]).complete,
        decreases buildings.len() - i,
    {
        i = i + 1;
    }
    if i == buildings.len() {
        return None;
    }
    proof {
        if let Some(k) = first_unfinished(buildings@) {
            if k < i {
                assert(buildings@[k].complete);
            }
            if k > i {
                assert(!buildings@[i as int].complete);
            }
        }
        assert(work_tile_fits(buildings@[i as int]));
    }
    Some(buildings[i].work_position())
}

/// Where a refiner works: the first finished kiln, once a cycle is loaded
/// with every input; `None` while there is nothing to refine.
pub open spec fn refine_site(session: GameSession) -> Option<TilePos> {
    match first_complete_kiln(session.world.buildings@) {
        None => None,
        Some(kiln) => if session.progress.production is None || input_need(session, ResourceKind::Bones) > 0
            || input_need(session, ResourceKind::Wood) > 0 {
            None
        } else {
            Some(work_tile(kiln))
        },
    }
}

pub fn refine_target(session: &GameSession) -> (site: Option<TilePos>)
    requires
        forall|i: int|
            0 <= i < session.world.buildings@.len() ==> work_tile_fits(#[trigger] session.world.buildings@[i]),
    ensures
        site == refine_site(*session),
{
    let kiln_tile = crate::progression::production_destination(session);
    if kiln_tile.is_none() {
        return None;
    }
    if session.progress.production.is_none() || crate::progression::production_input_need(session, ResourceKind::Bones)
        > 0 || crate::progression::production_input_need(session, ResourceKind::Wood) > 0 {
        return None;
    }
    kiln_tile
}

pub open spec fn gathered_message(amount: i32) -> Seq<char> {
    "Gathered "@ + decimal(amount as int) + " loose wood."@
}

/// A woodcutter on `tile` finishes a cycle: `output` wood lies loose on the
/// tile, and an accelerated cycle on marked work is counted. Returns the
/// line to report.
pub fn finish_wood_cycle(session: &mut GameSession, tile: TilePos, output: i32, accelerated: bool) -> (message: String)
    requires
        output > 0 ==> old(session).economy.normalizable(),
        output > 0 ==> positive_total(old(session).economy.seeded_piles(ResourceKind::Wood)) + output <= i32::MAX,
    ensures
        message@ == gathered_message(output),
        output <= 0 ==> final(session).economy == old(session).economy,
        output > 0 ==> {
            &&& final(session).economy.loose_wf()
            &&& final(session).economy.same_stock(old(session).economy)
            &&& final(session).economy.piles_of(ResourceKind::Wood) == added(
                old(session).economy.normalized_piles(ResourceKind::Wood),
                tile,
                output,
            )
            &&& final(session).economy.piles_of(ResourceKind::Bones) == old(session).economy.normalized_piles(
                ResourceKind::Bones,
            )
        },
        final(session).progress.district_ledger.work_cycles == if accelerated {
            crate::production::sat_add_u32(old(session).progress.district_ledger.work_cycles, 1)
        } else {
            old(session).progress.district_ledger.work_cycles
        },
        final(session).world == old(session).world,
        final(session).workforce == old(session).workforce,
        final(session).research == old(session).research,
{
    session.economy.add_loose(ResourceKind::Wood, tile, output);
    if accelerated {
        record_work_cycle(session);
    }
    let mut message = String::from_str("Gathered ");
    push_decimal(&mut message, output as i64);
    push_str(&mut message, " loose wood.");
    message
}


// ------------------------------------------------------------ worker steps

/// How a refiner's step went.
#[derive(Debug, Clone, Copy, PartialEq, Eq, Structural)]
pub enum RefineApproach {
    Waiting,
    Walking,
    Blocked,
    Working,
}

/// The rest of the session is untouched by a worker's step.
pub open spec fn step_frame(before: GameSession, after: GameSession, index: int) -> bool {
    &&& others_unchanged(before.workforce.workers@, after.workforce.workers@, index)
    &&& after.world == before.world
    &&& after.economy == before.economy
    &&& after.progress == before.progress
    &&& after.research == before.research
    &&& after.pressure == before.pressure
    &&& after.workforce.priorities@ == before.workforce.priorities@
    &&& after.workforce.selected_worker == before.workforce.selected_worker
}

/// Refiner `index` takes one whole step of kiln work. While no loaded cycle
/// waits at a complete kiln it idles (`Waiting`), and the cycle does not
/// advance; otherwise it walks toward the kiln's work tile, and on that tile
/// it works.
pub fn refine_step(session: &mut GameSession, index: usize) -> (approach: RefineApproach)
    requires
        grid_fits(old(session).world),
        work_tiles_fit(old(session).world),
        index < old(session).workforce.workers@.len(),
    ensures
        step_frame(*old(session), *final(session), index as int),
        ({
            let before = old(session).workforce.workers@[index as int];
            let after = final(session).workforce.workers@[index as int];
            match refine_site(*old(session)) {
                None => approach == RefineApproach::Waiting && same_but_place(before, after) && after.position
                    == before.position && after.status == WorkerStatus::Idle,
                Some(site) => if before.position == site {
                    approach == RefineApproach::Working && same_but_place(before, after) && after.position
                        == before.position && after.status == WorkerStatus::Working
                } else if reachable(old(session).world, before.position, site) {
                    approach == RefineApproach::Walking && stepped(
                        old(session).world,
                        before,
                        after,
                        site,
                        WorkerMoveResult::Walking,
                    )
                } else {
                    approach == RefineApproach::Blocked && stepped(
                        old(session).world,
                        before,
                        after,
                        site,
                        WorkerMoveResult::Blocked,
                    )
                },
            }
        }),
{
    let site = match refine_target(session) {
        None => {
            session.workforce.workers[index].status = WorkerStatus::Idle;
            return RefineApproach::Waiting;
        },
        Some(site) => site,
    };
    match move_worker_to(session, index, site) {
        WorkerMoveResult::Arrived => {
            session.workforce.workers[index].status = WorkerStatus::Working;
            RefineApproach::Working
        },
        WorkerMoveResult::Walking => RefineApproach::Walking,
        WorkerMoveResult::Blocked => RefineApproach::Blocked,
    }
}

/// Where guard `worker` keeps watch: the post its job names, else the
/// roadside post.
pub open spec fn guard_post(session: GameSession, worker: Worker) -> TilePos {
    match worker_dest(session, worker) {
        Some(t) => t,
        None => guard_tile(session.world.road_x),
    }
}

/// Guard `index` takes one whole step toward its post; standing on it, it
/// hides there. Reports whether it stands on its post.
pub fn guard_step(session: &mut GameSession, index: usize) -> (arrived: bool)
    requires
        grid_fits(old(session).world),
        work_tiles_fit(old(session).world),
        index < old(session).workforce.workers@.len(),
    ensures
        step_frame(*old(session), *final(session), index as int),
        ({
            let before = old(session).workforce.workers@[index as int];
            let after = final(session).workforce.workers@[index as int];
            let post = guard_post(*old(session), before);
            &&& arrived == (before.position == post)
            &&& arrived ==> same_but_place(before, after) && after.position == before.position && after.status
                == WorkerStatus::Hiding
            &&& !arrived ==> stepped(
                old(session).world,
                before,
                after,
                post,
                if reachable(old(session).world, before.position, post) {
                    WorkerMoveResult::Walking
                } else {
                    WorkerMoveResult::Blocked
                },
            )
        }),
{
    let post = match destination_for_worker(session, &session.workforce.workers[index]) {
        Some(t) => t,
        None => WorldState::guard_position(session.world.road_x),
    };
    if move_worker_to(session, index, post) == WorkerMoveResult::Arrived {
        session.workforce.workers[index].status = WorkerStatus::Hiding;
        true
    } else {
        false
    }
}

} // verus!
