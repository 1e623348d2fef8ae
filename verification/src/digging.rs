//! Grave selection and the whole-step part of digging: claiming a grave,
//! walking to it, and turning a finished grave into loose bones.

use vstd::prelude::*;
use crate::districts::record_work_cycle;
use crate::kinds::{PlotStatus, WorkerStatus, ZoneKind};
use crate::logistics::{move_worker_to, others_unchanged, stepped, WorkerMoveResult};
use crate::navigation::{grid_fits, nearest_reachable, nearest_routable, route_exists, routable};
use crate::session::GameSession;
use crate::text_util::{decimal, push_decimal, push_digits, push_str};
use crate::tile::{tile_position, TilePos};
use crate::workforce::Worker;
use crate::world::Plot;

verus! {

/// A ready plot whose id `claimed` does not hold.
pub open spec fn unclaimed_ready(plot: Plot, claimed: Seq<usize>) -> bool {
    plot.status == PlotStatus::Ready && !claimed.contains(plot.id)
}

/// Ids and tiles of unclaimed ready plots, only those marked for work when
/// `marked_only`.
pub open spec fn grave_candidates(session: GameSession, plots: Seq<Plot>, claimed: Seq<usize>, marked_only: bool) -> Seq<
    (usize, TilePos),
>
    decreases plots.len(),
{
    if plots.len() == 0 {
        Seq::empty()
    } else {
        let kept = grave_candidates(session, plots.drop_last(), claimed, marked_only);
        let plot = plots.last();
        if unclaimed_ready(plot, claimed) && (!marked_only || crate::world::zones_mark(
            session.world.zones@,
            ZoneKind::Work,
            plot.position,
        )) {
            kept.push((plot.id, plot.position))
        } else {
            kept
        }
    }
}

pub open spec fn candidate_tiles(candidates: Seq<(usize, TilePos)>) -> Seq<TilePos> {
    candidates.map_values(|c: (usize, TilePos)| c.1)
}

/// The first index of `tile` in `tiles`.
pub open spec fn first_index(tiles: Seq<TilePos>, tile: TilePos) -> Option<int>
    decreases tiles.len(),
{
    if tiles.len() == 0 {
        None
    } else if tiles[0] == tile {
        Some(0)
    } else {
        match first_index(tiles.skip(1), tile) {
            Some(i) => Some(i + 1),
            None => None,
        }
    }
}

/// The id of the candidate nearest to `origin` that a walk reaches.
pub open spec fn nearest_candidate(session: GameSession, origin: TilePos, candidates: Seq<(usize, TilePos)>) -> Option<
    usize,
> {
    match nearest_routable(session.world, origin, candidate_tiles(candidates)) {
        None => None,
        Some(tile) => match first_index(candidate_tiles(candidates), tile) {
            Some(i) => Some(candidates[i].0),
            None => None,
        },
    }
}

/// The first plot with id `plot_id` that is ready and unclaimed.
pub open spec fn open_plot(plots: Seq<Plot>, plot_id: usize, claimed: Seq<usize>) -> Option<Plot>
    decreases plots.len(),
{
    if plots.len() == 0 {
        None
    } else if plots[0].id == plot_id && unclaimed_ready(plots[0], claimed) {
        Some(plots[0])
    } else {
        open_plot(plots.skip(1), plot_id, claimed)
    }
}

/// The grave a digger on `origin` claims: the selected plot if it is open
/// and a walk reaches it, else the nearest reachable open grave marked for
/// work, else the nearest reachable open grave.
pub open spec fn chosen_grave(session: GameSession, origin: TilePos, claimed: Seq<usize>, selected: Option<usize>) -> Option<
    usize,
> {
    let from_selection = match selected {
        None => None,
        Some(plot_id) => match open_plot(session.world.plots@, plot_id, claimed) {
            Some(plot) if routable(session.world, origin, plot.position) => Some(plot_id),
            _ => None,
        },
    };
    match from_selection {
        Some(id) => Some(id),
        None => match nearest_candidate(
            session,
            origin,
            grave_candidates(session, session.world.plots@, claimed, true),
        ) {
            Some(id) => Some(id),
            None => nearest_candidate(session, origin, grave_candidates(session, session.world.plots@, claimed, false)),
        },
    }
}

fn listed(ids: &Vec<usize>, id: usize) -> (found: bool)
    ensures
        found == ids@.contains(id),
{
    let mut i: usize = 0;
    while i < ids.len()
        invariant
            i <= ids@.len(),
            forall|j: int| 0 <= j < i ==> ids@[j] != id,
        decreases ids.len() - i,
    {
        if ids[i] == id {
            return true;
        }
        i = i + 1;
    }
    false
}

fn candidate_lists(session: &GameSession, claimed: &Vec<usize>, marked_only: bool) -> (lists: (Vec<usize>, Vec<TilePos>))
    ensures
        lists.0@.len() == lists.1@.len(),
        lists.1@ == candidate_tiles(grave_candidates(*session, session.world.plots@, claimed@, marked_only)),
        forall|i: int|
            0 <= i < lists.0@.len() ==> lists.0@[i] == grave_candidates(
                *session,
                session.world.plots@,
                claimed@,
                marked_only,
            )[i].0,
        lists.0@.len() == grave_candidates(*session, session.world.plots@, claimed@, marked_only).len(),
{
    let plots = &session.world.plots;
    let mut ids: Vec<usize> = Vec::new();
    let mut tiles: Vec<TilePos> = Vec::new();
    let mut i: usize = 0;
    while i < plots.len()
        invariant
            i <= plots@.len(),
            plots@ == session.world.plots@,
            ids@.len() == tiles@.len(),
            ids@.len() == grave_candidates(*session, plots@.take(i as int), claimed@, marked_only).len(),
            tiles@ == candidate_tiles(grave_candidates(*session, plots@.take(i as int), claimed@, marked_only)),
            forall|k: int|
                0 <= k < ids@.len() ==> ids@[k] == grave_candidates(*session, plots@.take(i as int), claimed@, marked_only)[k].0,
        decreases plots.len() - i,
    {
        assert(plots@.take(i as int + 1).drop_last() == plots@.take(i as int));
        let plot = plots[i];
        let ghost before = grave_candidates(*session, plots@.take(i as int), claimed@, marked_only);
        if plot.status == PlotStatus::Ready && !listed(claimed, plot.id) && (!marked_only
            || session.world.zone_contains(ZoneKind::Work, plot.position)) {
            ids.push(plot.id);
            tiles.push(plot.position);
            assert(candidate_tiles(before.push((plot.id, plot.position))) =~= candidate_tiles(before).push(plot.position));
        }
        i = i + 1;
    }
    assert(plots@.take(i as int) == plots@);
    (ids, tiles)
}

proof fn lemma_first_index(tiles: Seq<TilePos>, tile: TilePos)
    ensures
        first_index(tiles, tile) matches Some(i) ==> 0 <= i < tiles.len() && tiles[i] == tile && forall|j: int|
            0 <= j < i ==> tiles[j] != tile,
        first_index(tiles, tile) is None ==> !tiles.contains(tile),
    decreases tiles.len(),
{
    if tiles.len() > 0 && tiles[0] != tile {
        let rest = tiles.skip(1);
        lemma_first_index(rest, tile);
        assert forall|j: int| 1 <= j < tiles.len() implies tiles[j] == rest[j - 1] by {}
        if tiles.contains(tile) {
            let k = choose|k: int| 0 <= k < tiles.len() && tiles[k] == tile;
            assert(rest[k - 1] == tile);
        }
    }
}

fn nearest_candidate_id(session: &GameSession, origin: TilePos, ids: &Vec<usize>, tiles: &Vec<TilePos>, candidates: Ghost<
    Seq<(usize, TilePos)>,
>) -> (id: Option<usize>)
    requires
        grid_fits(session.world),
        ids@.len() == tiles@.len(),
        ids@.len() == candidates@.len(),
        tiles@ == candidate_tiles(candidates@),
        forall|i: int| 0 <= i < ids@.len() ==> ids@[i] == candidates@[i].0,
    ensures
        id == nearest_candidate(*session, origin, candidates@),
{
    match nearest_reachable(session, origin, tiles) {
        None => None,
        Some(tile) => {
            proof {
                crate::navigation::lemma_nearest_reachable_is_nearest(session.world, origin, tiles@);
                lemma_first_index(tiles@, tile);
            }
            match tile_position(tiles, tile) {
                Some(i) => Some(ids[i]),
                None => None,
            }
        },
    }
}

/// `open_plot` finds a ready, unclaimed plot that no earlier plot shares its
/// id with.
proof fn lemma_open_plot_at(plots: Seq<Plot>, plot_id: usize, claimed: Seq<usize>, k: int)
    requires
        0 <= k < plots.len(),
        plots[k].id == plot_id,
        plots[k].status == PlotStatus::Ready,
        !claimed.contains(plot_id),
        forall|j: int| 0 <= j < k ==> (#[trigger] plots[j]).id != plot_id,
    ensures
        open_plot(plots, plot_id, claimed) == Some(plots[k]),
    decreases k,
{
    if k > 0 {
        let rest = plots.skip(1);
        assert forall|j: int| 0 <= j < k - 1 implies (#[trigger] rest[j]).id != plot_id by {
            assert(rest[j] == plots[j + 1]);
        }
        assert(plots[0].id != plot_id);
        lemma_open_plot_at(rest, plot_id, claimed, k - 1);
    }
}

/// The player's selection wins: when the selected plot is ready, unclaimed
/// and a walk from `origin` reaches it, the digger claims that plot and no
/// other, however near other graves lie.
pub proof fn lemma_selected_grave_preferred(
    session: GameSession,
    origin: TilePos,
    claimed: Seq<usize>,
    plot_id: usize,
    k: int,
)
    requires
        0 <= k < session.world.plots@.len(),
        session.world.plots@[k].id == plot_id,
        session.world.plots@[k].status == PlotStatus::Ready,
        !claimed.contains(plot_id),
        forall|j: int| 0 <= j < k ==> (#[trigger] session.world.plots@[j]).id != plot_id,
        routable(session.world, origin, session.world.plots@[k].position),
    ensures
        chosen_grave(session, origin, claimed, Some(plot_id)) == Some(plot_id),
{
    lemma_open_plot_at(session.world.plots@, plot_id, claimed, k);
}

fn open_selected_plot(plots: &Vec<Plot>, plot_id: usize, claimed: &Vec<usize>) -> (plot: Option<Plot>)
    ensures
        plot == open_plot(plots@, plot_id, claimed@),
{
    let mut i: usize = 0;
    assert(plots@.skip(0) == plots@);
    while i < plots.len()
        invariant
            i <= plots@.len(),
            open_plot(plots@, plot_id, claimed@) == open_plot(plots@.skip(i as int), plot_id, claimed@),
        decreases plots.len() - i,
    {
        let ghost rest = plots@.skip(i as int);
        assert(rest[0] == plots@[i as int]);
        assert(rest.skip(1) == plots@.skip(i as int + 1));
        let plot = plots[i];
        if plot.id == plot_id && plot.status == PlotStatus::Ready && !listed(claimed, plot.id) {
            return Some(plot);
        }
        i = i + 1;
    }
    None
}

/// The grave a digger on `origin` claims, given the plot ids already
/// claimed and the player's selection.
pub fn select_reachable_target(session: &GameSession, origin: TilePos, claimed: &Vec<usize>, selected: Option<usize>) -> (target:
    Option<usize>)
    requires
        grid_fits(session.world),
    ensures
        target == chosen_grave(*session, origin, claimed@, selected),
{
    if let Some(plot_id) = selected {
        if let Some(plot) = open_selected_plot(&session.world.plots, plot_id, claimed) {
            if route_exists(session, origin, plot.position) {
                return Some(plot_id);
            }
        }
    }
    let (ids, tiles) = candidate_lists(session, claimed, true);
    let designated = nearest_candidate_id(
        session,
        origin,
        &ids,
        &tiles,
        Ghost(grave_candidates(*session, session.world.plots@, claimed@, true)),
    );
    if designated.is_some() {
        return designated;
    }
    let (all_ids, all_tiles) = candidate_lists(session, claimed, false);
    nearest_candidate_id(
        session,
        origin,
        &all_ids,
        &all_tiles,
        Ghost(grave_candidates(*session, session.world.plots@, claimed@, false)),
    )
}

/// The plot ids workers are bound to, in roster order.
pub open spec fn claims(workers: Seq<Worker>) -> Seq<usize>
    decreases workers.len(),
{
    if workers.len() == 0 {
        Seq::empty()
    } else {
        let kept = claims(workers.drop_last());
        match workers.last().target_plot {
            Some(id) => kept.push(id),
            None => kept,
        }
    }
}

fn claimed_ids(workers: &Vec<Worker>) -> (ids: Vec<usize>)
    ensures
        ids@ == claims(workers@),
{
    let mut ids: Vec<usize> = Vec::new();
    let mut i: usize = 0;
    while i < workers.len()
        invariant
            i <= workers@.len(),
            ids@ == claims(workers@.take(i as int)),
        decreases workers.len() - i,
    {
        assert(workers@.take(i as int + 1).drop_last() == workers@.take(i as int));
        match workers[i].target_plot {
            Some(id) => ids.push(id),
            None => {},
        }
        i = i + 1;
    }
    assert(workers@.take(i as int) == workers@);
    ids
}

/// The grave digger `index` works on: the one it is bound to, or the one it
/// would claim now.
pub open spec fn dig_target(session: GameSession, index: int) -> Option<usize> {
    let worker = session.workforce.workers@[index];
    match worker.target_plot {
        Some(id) => Some(id),
        None => chosen_grave(session, worker.position, claims(session.workforce.workers@), session.world.selected_plot),
    }
}

/// The plots once digger `index` has claimed its grave: a newly claimed
/// plot is being dug.
pub open spec fn plots_after_claim(session: GameSession, index: int) -> Seq<Plot> {
    let plots = session.world.plots@;
    match (session.workforce.workers@[index].target_plot, dig_target(session, index)) {
        (None, Some(id)) => if id < plots.len() {
            plots.update(id as int, Plot { status: PlotStatus::Digging, ..plots[id as int] })
        } else {
            plots
        },
        _ => plots,
    }
}

/// How a digger's step toward its grave went.
#[derive(Debug, Clone, Copy, PartialEq, Eq, Structural)]
pub enum DigApproach {
    /// No grave to dig.
    Idle,
    /// The bound plot id names no plot.
    Missing,
    /// A step was taken toward the grave.
    Walking,
    /// No walk reaches the grave; the digger let go of it.
    Released,
    /// The digger stands on its grave and works.
    Arrived,
}

/// Digger `index` claims a grave if it has none and takes one step toward
/// it; on arrival it sets to work, and when no walk reaches the grave it
/// lets go of it.
pub fn dig_step(session: &mut GameSession, index: usize) -> (approach: DigApproach)
    requires
        grid_fits(old(session).world),
        index < old(session).workforce.workers@.len(),
    ensures
        ({
            let before = old(session).workforce.workers@[index as int];
            let after = final(session).workforce.workers@[index as int];
            let plots = plots_after_claim(*old(session), index as int);
            match dig_target(*old(session), index as int) {
                None => approach == DigApproach::Idle && after.status == WorkerStatus::Idle && after.target_plot is None
                    && final(session).world.plots@ == plots && after.position == before.position,
                Some(id) => if id >= plots.len() {
                    approach == DigApproach::Missing && after.target_plot == Some(id) && final(session).world.plots@ == plots
                        && after.position == before.position && after.status == before.status
                } else {
                    let tile = plots[id as int].position;
                    if before.position == tile {
                        approach == DigApproach::Arrived && after.status == WorkerStatus::Working
                            && after.target_plot == Some(id) && final(session).world.plots@ == plots
                            && after.position == before.position
                    } else if crate::navigation::reachable(old(session).world, before.position, tile) {
                        approach == DigApproach::Walking && after.target_plot == Some(id)
                            && final(session).world.plots@ == plots && stepped(
                            old(session).world,
                            Worker { target_plot: Some(id), ..before },
                            after,
                            tile,
                            WorkerMoveResult::Walking,
                        )
                    } else {
                        approach == DigApproach::Released && after.target_plot is None && after.status
                            == WorkerStatus::Idle && final(session).world.plots@ == crate::jobs::released(
                            plots,
                            Some(id),
                        ) && after.position == before.position
                    }
                }
            }
        }),
        ({
            let before = old(session).workforce.workers@[index as int];
            let after = final(session).workforce.workers@[index as int];
            &&& after.id == before.id
            &&& after.assignment == before.assignment
            &&& after.carrying == before.carrying
            &&& after.haul_plan == before.haul_plan
        }),
        others_unchanged(old(session).workforce.workers@, final(session).workforce.workers@, index as int),
        final(session).economy == old(session).economy,
        final(session).progress == old(session).progress,
        final(session).world.buildings@ == old(session).world.buildings@,
        final(session).world.zones@ == old(session).world.zones@,
        final(session).research == old(session).research,
        final(session).pressure == old(session).pressure,
{
    if session.workforce.workers[index].target_plot.is_none() {
        let origin = session.workforce.workers[index].position;
        let claimed = claimed_ids(&session.workforce.workers);
        let target = select_reachable_target(session, origin, &claimed, session.world.selected_plot);
        if let Some(id) = target {
            if id < session.world.plots.len() {
                session.world.plots[id].status = PlotStatus::Digging;
            }
            session.workforce.workers[index].target_plot = Some(id);
        }
    }
    let plot_id = match session.workforce.workers[index].target_plot {
        None => {
            session.workforce.workers[index].status = WorkerStatus::Idle;
            return DigApproach::Idle;
        },
        Some(id) => id,
    };
    if plot_id >= session.world.plots.len() {
        return DigApproach::Missing;
    }
    let tile = session.world.plots[plot_id].position;
    proof {
        crate::navigation::lemma_routes_follow_terrain(
            old(session).world,
            session.world,
            session.workforce.workers@[index as int].position,
            tile,
        );
    }
    match move_worker_to(session, index, tile) {
        WorkerMoveResult::Arrived => {
            session.workforce.workers[index].status = WorkerStatus::Working;
            DigApproach::Arrived
        },
        WorkerMoveResult::Walking => DigApproach::Walking,
        WorkerMoveResult::Blocked => {
            crate::jobs::release_plot(&mut session.world.plots, Some(plot_id));
            session.workforce.workers[index].target_plot = None;
            session.workforce.workers[index].status = WorkerStatus::Idle;
            DigApproach::Released
        },
    }
}

pub open spec fn loose_by_plot_message(amount: i32, plot_id: usize) -> Seq<char> {
    decimal(amount as int) + " bones are loose by plot "@ + decimal(plot_id + 1) + "."@
}

/// Digger `index` finishes its grave: the plot is dug, `output` bones lie
/// loose (the grave becomes their source if none is known), and an
/// accelerated cycle on marked work is counted. Returns the line to report.
pub fn finish_grave(session: &mut GameSession, index: usize, output: i32, accelerated: bool) -> (message: String)
    requires
        index < old(session).workforce.workers@.len(),
        old(session).workforce.workers@[index as int].target_plot matches Some(id) && id < old(session).world.plots@.len(),
        i32::MIN <= old(session).economy.loose_bones + output <= i32::MAX,
    ensures
        ({
            let id = old(session).workforce.workers@[index as int].target_plot->0;
            let plot = old(session).world.plots@[id as int];
            &&& message@ == loose_by_plot_message(output, id)
            &&& final(session).workforce.workers@[index as int].target_plot is None
            &&& final(session).world.plots@ == old(session).world.plots@.update(
                id as int,
                Plot { status: PlotStatus::Dug, ..plot },
            )
            &&& final(session).economy.loose_bones == old(session).economy.loose_bones + output
            &&& final(session).economy.loose_bones_source == match old(session).economy.loose_bones_source {
                Some(t) => Some(t),
                None => Some(plot.position),
            }
            &&& final(session).economy.bones == old(session).economy.bones
            &&& final(session).economy.wood == old(session).economy.wood
            &&& final(session).economy.loose_bones_piles@ == old(session).economy.loose_bones_piles@
            &&& final(session).economy.mana == old(session).economy.mana
            &&& final(session).economy.ward_charges == old(session).economy.ward_charges
            &&& final(session).economy.shovels == old(session).economy.shovels
            &&& final(session).economy.storage_capacity == old(session).economy.storage_capacity
            &&& final(session).economy.corpses@ == old(session).economy.corpses@
            &&& final(session).economy.loose_wood == old(session).economy.loose_wood
            &&& final(session).economy.loose_wood_source == old(session).economy.loose_wood_source
            &&& final(session).economy.loose_wood_piles@ == old(session).economy.loose_wood_piles@
            &&& final(session).research == old(session).research
            &&& final(session).workforce.workers@.len() == old(session).workforce.workers@.len()
            &&& forall|j: int|
                0 <= j < old(session).workforce.workers@.len() && j != index ==> final(session).workforce.workers@[j]
                    == old(session).workforce.workers@[j]
            &&& final(session).progress.district_ledger.work_cycles == if accelerated {
                crate::production::sat_add_u32(old(session).progress.district_ledger.work_cycles, 1)
            } else {
                old(session).progress.district_ledger.work_cycles
            }
        }),
{
    let id = match session.workforce.workers[index].target_plot {
        Some(id) => id,
        None => 0,
    };
    let tile = session.world.plots[id].position;
    session.workforce.workers[index].target_plot = None;
    session.world.plots[id].status = PlotStatus::Dug;
    session.economy.loose_bones = session.economy.loose_bones + output;
    if session.economy.loose_bones_source.is_none() {
        session.economy.loose_bones_source = Some(tile);
    }
    if accelerated {
        record_work_cycle(session);
    }
    let mut message = String::new();
    push_decimal(&mut message, output as i64);
    push_str(&mut message, " bones are loose by plot ");
    assert(id < session.world.plots.len());
    push_digits(&mut message, id as u64 + 1);
    push_str(&mut message, ".");
    assert(Seq::<char>::empty() + decimal(output as int) == decimal(output as int));
    message
}

} // verus!
