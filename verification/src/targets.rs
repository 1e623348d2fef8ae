//! Route-aware destinations for workers, spread over marked districts.
//!
//! Workers of one job take turns by roster slot: the first takes the
//! nearest candidate, later ones start from their own slot in the candidate
//! list, and a candidate an earlier worker already heads for is left to
//! them while another one can be reached.

use vstd::prelude::*;
use crate::kinds::{BuildingKind, JobKind, PlotStatus, ResourceKind, Technology, ZoneKind};
use crate::economy::LooseResourcePile;
use crate::navigation::{
    grid_fits, nearest_or_any, nearest_reachable, nearest_reachable_or_nearest, nearest_routable, route_exists, routable,
};
use crate::policies::RoutePolicy;
use crate::session::GameSession;
use crate::tile::{tiles_contain, TilePos};
use crate::workforce::Worker;
use crate::progression::work_tile_fits;
use crate::world::{collect_district_tiles, district_tiles, work_tile, zones_mark, Building, Plot, WorldState};

verus! {

// ------------------------------------------------------------------ roster

/// The index of the first worker with id `id`.
pub open spec fn index_of_id(workers: Seq<Worker>, id: u32) -> Option<int>
    decreases workers.len(),
{
    if workers.len() == 0 {
        None
    } else if workers[0].id == id {
        Some(0)
    } else {
        match index_of_id(workers.skip(1), id) {
            Some(i) => Some(i + 1),
            None => None,
        }
    }
}

proof fn lemma_index_of_id(workers: Seq<Worker>, id: u32)
    ensures
        index_of_id(workers, id) matches Some(i) ==> 0 <= i < workers.len() && workers[i].id == id && forall|j: int|
            0 <= j < i ==> (#[trigger] workers[j]).id != id,
        index_of_id(workers, id) is None ==> forall|j: int| 0 <= j < workers.len() ==> (#[trigger] workers[j]).id != id,
    decreases workers.len(),
{
    if workers.len() > 0 && workers[0].id != id {
        let rest = workers.skip(1);
        lemma_index_of_id(rest, id);
        assert forall|j: int| 1 <= j < workers.len() implies workers[j] == rest[j - 1] by {}
    }
}

fn find_worker(workers: &Vec<Worker>, id: u32) -> (index: Option<usize>)
    ensures
        match index {
            Some(i) => index_of_id(workers@, id) == Some(i as int),
            None => index_of_id(workers@, id) is None,
        },
{
    let mut i: usize = 0;
    while i < workers.len()
        invariant
            i <= workers@.len(),
            forall|j: int| 0 <= j < i ==> (#[trigger] workers@[j]).id != id,
        decreases workers.len() - i,
    {
        if workers[i].id == id {
            proof {
                lemma_index_of_id(workers@, id);
                if let Some(k) = index_of_id(workers@, id) {
                    if k < i {
                        assert(workers@[k].id != id);
                    }
                    if k > i {
                        assert(workers@[i as int].id == id);
                    }
                }
            }
            return Some(i);
        }
        i = i + 1;
    }
    proof {
        lemma_index_of_id(workers@, id);
        if let Some(k) = index_of_id(workers@, id) {
            assert(workers@[k].id != id);
        }
    }
    None
}

/// The route policy that steers worker `id` to districts of `kind`: the
/// district's own policy for automated workers once Domain Stewardship is
/// studied, and marked-first otherwise.
pub open spec fn policy_for(session: GameSession, id: u32, kind: ZoneKind) -> RoutePolicy {
    let automated = match index_of_id(session.workforce.workers@, id) {
        Some(i) => session.workforce.workers@[i].priority_mode,
        None => false,
    };
    if automated && session.research.completed@.contains(Technology::DomainStewardship) {
        session.world.route_policies.policy_of(kind)
    } else {
        RoutePolicy::MarkedFirst
    }
}

pub fn route_policy(session: &GameSession, worker_id: u32, kind: ZoneKind) -> (policy: RoutePolicy)
    ensures
        policy == policy_for(*session, worker_id, kind),
{
    proof {
        lemma_index_of_id(session.workforce.workers@, worker_id);
    }
    let automated = match find_worker(&session.workforce.workers, worker_id) {
        Some(i) => session.workforce.workers[i].priority_mode,
        None => false,
    };
    if automated && session.research.is_unlocked(Technology::DomainStewardship) {
        session.world.route_policies.for_kind(kind)
    } else {
        RoutePolicy::MarkedFirst
    }
}

/// Workers of `workers` that are worker `id` or hold `job`.
pub open spec fn count_roster(workers: Seq<Worker>, job: JobKind, id: u32) -> nat
    decreases workers.len(),
{
    if workers.len() == 0 {
        0
    } else {
        count_roster(workers.drop_last(), job, id) + if workers.last().id == id || workers.last().assignment == job {
            1nat
        } else {
            0nat
        }
    }
}

/// A hauler that is carrying or has a committed haul.
pub open spec fn busy_hauler(worker: Worker) -> bool {
    worker.assignment == JobKind::Haul && (worker.carrying > 0 || worker.haul_plan is Some)
}

/// Workers of `workers` that are worker `id` or busy haulers.
pub open spec fn count_haulers(workers: Seq<Worker>, id: u32) -> nat
    decreases workers.len(),
{
    if workers.len() == 0 {
        0
    } else {
        count_haulers(workers.drop_last(), id) + if workers.last().id == id || busy_hauler(workers.last()) {
            1nat
        } else {
            0nat
        }
    }
}

pub open spec fn less_one(n: nat) -> nat {
    if n == 0 { 0 } else { (n - 1) as nat }
}

/// Worker `id`'s turn among workers of `job`: how many of them come before
/// it in the roster (its id when it is not on the roster).
pub open spec fn roster_slot_of(workers: Seq<Worker>, job: JobKind, id: u32) -> nat {
    match index_of_id(workers, id) {
        None => id as nat,
        Some(i) => less_one(count_roster(workers.take(i + 1), job, id)),
    }
}

/// Worker `id`'s turn among busy haulers.
pub open spec fn storage_slot_of(workers: Seq<Worker>, id: u32) -> nat {
    match index_of_id(workers, id) {
        None => id as nat,
        Some(i) => less_one(count_haulers(workers.take(i + 1), id)),
    }
}

pub fn roster_slot(session: &GameSession, job: JobKind, worker_id: u32) -> (slot: usize)
    ensures
        slot == roster_slot_of(session.workforce.workers@, job, worker_id),
{
    let workers = &session.workforce.workers;
    let index = match find_worker(workers, worker_id) {
        None => {
            return worker_id as usize;
        },
        Some(i) => i,
    };
    proof {
        lemma_index_of_id(workers@, worker_id);
    }
    let mut count: usize = 0;
    let mut i: usize = 0;
    while i <= index
        invariant
            index < workers@.len(),
            workers@.len() == workers.len(),
            i <= index + 1,
            count <= i,
            count == count_roster(workers@.take(i as int), job, worker_id),
        decreases index + 1 - i,
    {
        assert(workers@.take(i as int + 1).drop_last() == workers@.take(i as int));
        if workers[i].id == worker_id || workers[i].assignment == job {
            count = count + 1;
        }
        i = i + 1;
    }
    if count == 0 {
        0
    } else {
        count - 1
    }
}

pub fn storage_slot(session: &GameSession, worker_id: u32) -> (slot: usize)
    ensures
        slot == storage_slot_of(session.workforce.workers@, worker_id),
{
    let workers = &session.workforce.workers;
    let index = match find_worker(workers, worker_id) {
        None => {
            return worker_id as usize;
        },
        Some(i) => i,
    };
    proof {
        lemma_index_of_id(workers@, worker_id);
    }
    let mut count: usize = 0;
    let mut i: usize = 0;
    while i <= index
        invariant
            index < workers@.len(),
            workers@.len() == workers.len(),
            i <= index + 1,
            count <= i,
            count == count_haulers(workers@.take(i as int), worker_id),
        decreases index + 1 - i,
    {
        assert(workers@.take(i as int + 1).drop_last() == workers@.take(i as int));
        let w = &workers[i];
        if w.id == worker_id || (w.assignment == JobKind::Haul && (w.carrying > 0 || w.haul_plan.is_some())) {
            count = count + 1;
        }
        i = i + 1;
    }
    if count == 0 {
        0
    } else {
        count - 1
    }
}

// ------------------------------------------------------------ tile lists

/// `tiles` without repeats, each kept where it first occurs.
pub open spec fn unique_of(tiles: Seq<TilePos>) -> Seq<TilePos>
    decreases tiles.len(),
{
    if tiles.len() == 0 {
        tiles
    } else {
        let kept = unique_of(tiles.drop_last());
        if kept.contains(tiles.last()) {
            kept
        } else {
            kept.push(tiles.last())
        }
    }
}

fn unique_tiles(tiles: &Vec<TilePos>) -> (unique: Vec<TilePos>)
    ensures
        unique@ == unique_of(tiles@),
{
    let mut unique: Vec<TilePos> = Vec::new();
    let mut i: usize = 0;
    while i < tiles.len()
        invariant
            i <= tiles@.len(),
            unique@ == unique_of(tiles@.take(i as int)),
        decreases tiles.len() - i,
    {
        assert(tiles@.take(i as int + 1).drop_last() == tiles@.take(i as int));
        if !tiles_contain(&unique, tiles[i]) {
            unique.push(tiles[i]);
        }
        i = i + 1;
    }
    assert(tiles@.take(i as int) == tiles@);
    unique
}

/// The tiles of `tiles` that zones of `kind` mark, in order.
pub open spec fn marked_among(tiles: Seq<TilePos>, zones: Seq<crate::world::Zone>, kind: ZoneKind) -> Seq<TilePos>
    decreases tiles.len(),
{
    if tiles.len() == 0 {
        tiles
    } else {
        let kept = marked_among(tiles.drop_last(), zones, kind);
        if zones_mark(zones, kind, tiles.last()) {
            kept.push(tiles.last())
        } else {
            kept
        }
    }
}

fn marked_tiles(world: &WorldState, tiles: &Vec<TilePos>, kind: ZoneKind) -> (marked: Vec<TilePos>)
    ensures
        marked@ == marked_among(tiles@, world.zones@, kind),
{
    let mut marked: Vec<TilePos> = Vec::new();
    let mut i: usize = 0;
    while i < tiles.len()
        invariant
            i <= tiles@.len(),
            marked@ == marked_among(tiles@.take(i as int), world.zones@, kind),
        decreases tiles.len() - i,
    {
        assert(tiles@.take(i as int + 1).drop_last() == tiles@.take(i as int));
        if world.zone_contains(kind, tiles[i]) {
            marked.push(tiles[i]);
        }
        i = i + 1;
    }
    assert(tiles@.take(i as int) == tiles@);
    marked
}

/// The tiles of `tiles` not in `taken`, in order.
pub open spec fn not_taken(tiles: Seq<TilePos>, taken: Set<TilePos>) -> Seq<TilePos>
    decreases tiles.len(),
{
    if tiles.len() == 0 {
        tiles
    } else {
        let kept = not_taken(tiles.drop_last(), taken);
        if taken.contains(tiles.last()) {
            kept
        } else {
            kept.push(tiles.last())
        }
    }
}

fn without_taken(tiles: &Vec<TilePos>, taken: &Vec<TilePos>) -> (kept: Vec<TilePos>)
    ensures
        kept@ == not_taken(tiles@, taken@.to_set()),
{
    let mut kept: Vec<TilePos> = Vec::new();
    let mut i: usize = 0;
    while i < tiles.len()
        invariant
            i <= tiles@.len(),
            kept@ == not_taken(tiles@.take(i as int), taken@.to_set()),
        decreases tiles.len() - i,
    {
        assert(tiles@.take(i as int + 1).drop_last() == tiles@.take(i as int));
        if !tiles_contain(taken, tiles[i]) {
            kept.push(tiles[i]);
        }
        i = i + 1;
    }
    assert(tiles@.take(i as int) == tiles@);
    kept
}

// -------------------------------------------------------------- wood

/// The forest tiles a woodcutter may head for under its route policy.
pub open spec fn wood_pool(session: GameSession, id: u32) -> Seq<TilePos> {
    let forest = session.world.forest_tiles@;
    let marked = marked_among(forest, session.world.zones@, ZoneKind::Work);
    unique_of(
        match policy_for(session, id, ZoneKind::Work) {
            RoutePolicy::MarkedFirst => if marked.len() == 0 {
                forest
            } else {
                marked
            },
            RoutePolicy::Nearest => forest,
            RoutePolicy::MarkedOnly => marked,
        },
    )
}

/// Where woodcutters earlier in the roster than slot `cur` head.
pub open spec fn wood_taken(session: GameSession, id: u32, cur: nat) -> Set<TilePos>
    decreases cur, 0nat,
{
    Set::new(
        |t: TilePos|
            exists|i: int|
                0 <= i < session.workforce.workers@.len() && (#[trigger] session.workforce.workers@[i]).assignment
                    == JobKind::Wood && session.workforce.workers@[i].id != id && roster_slot_of(
                    session.workforce.workers@,
                    JobKind::Wood,
                    session.workforce.workers@[i].id,
                ) < cur && wood_dest(session, session.workforce.workers@[i].position, session.workforce.workers@[i].id)
                    == Some(t),
    )
}

/// The forest tile woodcutter `id` standing on `origin` heads for.
pub open spec fn wood_dest(session: GameSession, origin: TilePos, id: u32) -> Option<TilePos>
    decreases roster_slot_of(session.workforce.workers@, JobKind::Wood, id), 1nat,
{
    let pool = wood_pool(session, id);
    let cur = roster_slot_of(session.workforce.workers@, JobKind::Wood, id);
    if pool.len() == 0 {
        None
    } else {
        let preferred = if cur == 0 {
            nearest_or_any(session.world, origin, pool)
        } else {
            Some(pool[(cur % pool.len()) as int])
        };
        match preferred {
            None => None,
            Some(p) => {
                let taken = wood_taken(session, id, cur);
                if !taken.contains(p) && routable(session.world, origin, p) {
                    Some(p)
                } else {
                    match nearest_or_any(session.world, origin, not_taken(pool, taken)) {
                        Some(t) => Some(t),
                        None => nearest_or_any(session.world, origin, pool),
                    }
                }
            },
        }
    }
}

fn wood_pool_tiles(session: &GameSession, worker_id: u32) -> (pool: Vec<TilePos>)
    ensures
        pool@ == wood_pool(*session, worker_id),
{
    let forest = &session.world.forest_tiles;
    let marked = marked_tiles(&session.world, forest, ZoneKind::Work);
    match route_policy(session, worker_id, ZoneKind::Work) {
        RoutePolicy::MarkedFirst => if marked.len() == 0 {
            unique_tiles(forest)
        } else {
            unique_tiles(&marked)
        },
        RoutePolicy::Nearest => unique_tiles(forest),
        RoutePolicy::MarkedOnly => unique_tiles(&marked),
    }
}

/// The forest tile woodcutter `worker_id` standing on `origin` heads for.
pub fn wood_destination(session: &GameSession, origin: TilePos, worker_id: u32) -> (destination: Option<TilePos>)
    requires
        grid_fits(session.world),
    ensures
        destination == wood_dest(*session, origin, worker_id),
    decreases roster_slot_of(session.workforce.workers@, JobKind::Wood, worker_id),
{
    let pool = wood_pool_tiles(session, worker_id);
    if pool.len() == 0 {
        return None;
    }
    let cur = roster_slot(session, JobKind::Wood, worker_id);
    let preferred = if cur == 0 {
        match nearest_reachable_or_nearest(session, origin, &pool) {
            None => {
                return None;
            },
            Some(p) => p,
        }
    } else {
        pool[cur % pool.len()]
    };
    let ghost taken = wood_taken(*session, worker_id, cur as nat);
    let workers = &session.workforce.workers;
    let mut occupied: Vec<TilePos> = Vec::new();
    let mut i: usize = 0;
    while i < workers.len()
        invariant
            i <= workers@.len(),
            workers@ == session.workforce.workers@,
            grid_fits(session.world),
            cur == roster_slot_of(session.workforce.workers@, JobKind::Wood, worker_id),
            forall|t: TilePos|
                occupied@.contains(t) <==> exists|j: int|
                    0 <= j < i && (#[trigger] workers@[j]).assignment == JobKind::Wood && workers@[j].id != worker_id
                        && roster_slot_of(workers@, JobKind::Wood, workers@[j].id) < cur && wood_dest(
                        *session,
                        workers@[j].position,
                        workers@[j].id,
                    ) == Some(t),
        decreases workers.len() - i,
    {
        let w = &workers[i];
        let ghost before = occupied@;
        let ghost counts = w.assignment == JobKind::Wood && w.id != worker_id && roster_slot_of(
            workers@,
            JobKind::Wood,
            w.id,
        ) < cur;
        if w.assignment == JobKind::Wood && w.id != worker_id && roster_slot(session, JobKind::Wood, w.id) < cur {
            match wood_destination(session, w.position, w.id) {
                Some(d) => {
                    occupied.push(d);
                },
                None => {},
            }
        }
        proof {
            assert forall|t: TilePos|
                occupied@.contains(t) <==> (before.contains(t) || (counts && wood_dest(*session, w.position, w.id)
                    == Some(t))) by {
                if occupied@.len() > before.len() {
                    assert(occupied@ == before.push(occupied@.last()));
                    if occupied@.contains(t) && !before.contains(t) {
                        let k = choose|k: int| 0 <= k < occupied@.len() && occupied@[k] == t;
                        if k < before.len() {
                            assert(before[k] == t);
                        }
                    }
                    if before.contains(t) {
                        let k = choose|k: int| 0 <= k < before.len() && before[k] == t;
                        assert(occupied@[k] == t);
                    }
                } else {
                    assert(occupied@ == before);
                }
            }
            assert forall|t: TilePos|
                occupied@.contains(t) <==> exists|j: int|
                    0 <= j < i + 1 && (#[trigger] workers@[j]).assignment == JobKind::Wood && workers@[j].id
                        != worker_id && roster_slot_of(workers@, JobKind::Wood, workers@[j].id) < cur && wood_dest(
                        *session,
                        workers@[j].position,
                        workers@[j].id,
                    ) == Some(t) by {
                assert(workers@[i as int] == *w);
                if before.contains(t) {
                    let j = choose|j: int|
                        0 <= j < i && (#[trigger] workers@[j]).assignment == JobKind::Wood && workers@[j].id
                            != worker_id && roster_slot_of(workers@, JobKind::Wood, workers@[j].id) < cur && wood_dest(
                            *session,
                            workers@[j].position,
                            workers@[j].id,
                        ) == Some(t);
                    assert(0 <= j < i + 1);
                }
                if exists|j: int|
                    0 <= j < i + 1 && (#[trigger] workers@[j]).assignment == JobKind::Wood && workers@[j].id
                        != worker_id && roster_slot_of(workers@, JobKind::Wood, workers@[j].id) < cur && wood_dest(
                        *session,
                        workers@[j].position,
                        workers@[j].id,
                    ) == Some(t) {
                    let j = choose|j: int|
                        0 <= j < i + 1 && (#[trigger] workers@[j]).assignment == JobKind::Wood && workers@[j].id
                            != worker_id && roster_slot_of(workers@, JobKind::Wood, workers@[j].id) < cur && wood_dest(
                            *session,
                            workers@[j].position,
                            workers@[j].id,
                        ) == Some(t);
                    if j < i {
                        assert(before.contains(t));
                    }
                }
            }
        }
        i = i + 1;
    }
    assert(occupied@.to_set() =~= taken);
    if !tiles_contain(&occupied, preferred) && route_exists(session, origin, preferred) {
        return Some(preferred);
    }
    let unoccupied = without_taken(&pool, &occupied);
    match nearest_reachable_or_nearest(session, origin, &unoccupied) {
        Some(t) => Some(t),
        None => nearest_reachable_or_nearest(session, origin, &pool),
    }
}

proof fn lemma_taken_step(before: Seq<TilePos>, after: Seq<TilePos>, added: Option<TilePos>)
    requires
        after == match added {
            Some(d) => before.push(d),
            None => before,
        },
    ensures
        forall|t: TilePos| after.contains(t) <==> (before.contains(t) || added == Some(t)),
{
    assert forall|t: TilePos| after.contains(t) <==> (before.contains(t) || added == Some(t)) by {
        if let Some(d) = added {
            if after.contains(t) && !before.contains(t) {
                let k = choose|k: int| 0 <= k < after.len() && after[k] == t;
                if k < before.len() {
                    assert(before[k] == t);
                }
            }
            if before.contains(t) {
                let k = choose|k: int| 0 <= k < before.len() && before[k] == t;
                assert(after[k] == t);
            }
            if t == d {
                assert(after[after.len() - 1] == d);
            }
        }
    }
}

// ------------------------------------------------------------------ patrol

pub open spec fn patrol_pool(session: GameSession) -> Seq<TilePos> {
    unique_of(district_tiles(session.world.zones@, ZoneKind::Patrol))
}

/// The marked patrol tile nearest to `origin`, or the roadside post.
pub open spec fn patrol_tile_for(world: WorldState, origin: TilePos) -> TilePos {
    match crate::world::first_nearest(district_tiles(world.zones@, ZoneKind::Patrol), origin) {
        Some(t) => t,
        None => crate::world::guard_tile(world.road_x),
    }
}

/// Where guards earlier in the roster than slot `cur` stand watch.
pub open spec fn patrol_taken(session: GameSession, id: u32, cur: nat) -> Set<TilePos>
    decreases cur, 0nat,
{
    Set::new(
        |t: TilePos|
            exists|i: int|
                0 <= i < session.workforce.workers@.len() && (#[trigger] session.workforce.workers@[i]).assignment
                    == JobKind::Guard && session.workforce.workers@[i].id != id && roster_slot_of(
                    session.workforce.workers@,
                    JobKind::Guard,
                    session.workforce.workers@[i].id,
                ) < cur && patrol_dest(
                    session,
                    session.workforce.workers@[i].position,
                    session.workforce.workers@[i].id,
                ) == Some(t),
    )
}

/// The post guard `id` standing on `origin` keeps.
pub open spec fn patrol_dest(session: GameSession, origin: TilePos, id: u32) -> Option<TilePos>
    decreases roster_slot_of(session.workforce.workers@, JobKind::Guard, id), 1nat,
{
    let policy = policy_for(session, id, ZoneKind::Patrol);
    let fallback = if policy == RoutePolicy::Nearest {
        crate::world::guard_tile(session.world.road_x)
    } else {
        crate::world::anchor_of(session.world.zones@, ZoneKind::Patrol, crate::world::guard_tile(session.world.road_x))
    };
    let pool = patrol_pool(session);
    let cur = roster_slot_of(session.workforce.workers@, JobKind::Guard, id);
    if policy == RoutePolicy::Nearest {
        Some(fallback)
    } else if pool.len() == 0 {
        if policy == RoutePolicy::MarkedOnly {
            None
        } else {
            Some(fallback)
        }
    } else {
        let preferred = pool[(cur % pool.len()) as int];
        if routable(session.world, origin, preferred) {
            Some(preferred)
        } else {
            match nearest_or_any(session.world, origin, not_taken(pool, patrol_taken(session, id, cur))) {
                Some(t) => Some(t),
                None => match nearest_or_any(session.world, origin, pool) {
                    Some(t) => Some(t),
                    None => if policy != RoutePolicy::MarkedOnly {
                        Some(patrol_tile_for(session.world, origin))
                    } else {
                        None
                    },
                },
            }
        }
    }
}

/// The post guard `worker_id` standing on `origin` keeps.
pub fn patrol_destination(session: &GameSession, origin: TilePos, worker_id: u32) -> (destination: Option<TilePos>)
    requires
        grid_fits(session.world),
    ensures
        destination == patrol_dest(*session, origin, worker_id),
    decreases roster_slot_of(session.workforce.workers@, JobKind::Guard, worker_id),
{
    let policy = route_policy(session, worker_id, ZoneKind::Patrol);
    let fallback = if policy == RoutePolicy::Nearest {
        WorldState::guard_position(session.world.road_x)
    } else {
        session.world.patrol_position()
    };
    let marked = collect_district_tiles(&session.world.zones, ZoneKind::Patrol);
    let pool = unique_tiles(&marked);
    if policy == RoutePolicy::Nearest {
        return Some(fallback);
    }
    if pool.len() == 0 {
        if policy == RoutePolicy::MarkedOnly {
            return None;
        }
        return Some(fallback);
    }
    let cur = roster_slot(session, JobKind::Guard, worker_id);
    let preferred = pool[cur % pool.len()];
    if route_exists(session, origin, preferred) {
        return Some(preferred);
    }
    let ghost taken = patrol_taken(*session, worker_id, cur as nat);
    let workers = &session.workforce.workers;
    let mut occupied: Vec<TilePos> = Vec::new();
    let mut i: usize = 0;
    while i < workers.len()
        invariant
            i <= workers@.len(),
            workers@ == session.workforce.workers@,
            grid_fits(session.world),
            cur == roster_slot_of(session.workforce.workers@, JobKind::Guard, worker_id),
            forall|t: TilePos|
                occupied@.contains(t) <==> exists|j: int|
                    0 <= j < i && (#[trigger] workers@[j]).assignment == JobKind::Guard && workers@[j].id != worker_id
                        && roster_slot_of(workers@, JobKind::Guard, workers@[j].id) < cur && patrol_dest(
                        *session,
                        workers@[j].position,
                        workers@[j].id,
                    ) == Some(t),
        decreases workers.len() - i,
    {
        let w = &workers[i];
        let ghost before = occupied@;
        let ghost counts = w.assignment == JobKind::Guard && w.id != worker_id && roster_slot_of(
            workers@,
            JobKind::Guard,
            w.id,
        ) < cur;
        let mut added: Option<TilePos> = None;
        if w.assignment == JobKind::Guard && w.id != worker_id && roster_slot(session, JobKind::Guard, w.id) < cur {
            added = patrol_destination(session, w.position, w.id);
        }
        match added {
            Some(d) => occupied.push(d),
            None => {},
        }
        proof {
            lemma_taken_step(before, occupied@, added);
            assert(workers@[i as int] == *w);
            assert forall|t: TilePos|
                occupied@.contains(t) <==> exists|j: int|
                    0 <= j < i + 1 && (#[trigger] workers@[j]).assignment == JobKind::Guard && workers@[j].id
                        != worker_id && roster_slot_of(workers@, JobKind::Guard, workers@[j].id) < cur && patrol_dest(
                        *session,
                        workers@[j].position,
                        workers@[j].id,
                    ) == Some(t) by {
                if exists|j: int|
                    0 <= j < i + 1 && (#[trigger] workers@[j]).assignment == JobKind::Guard && workers@[j].id
                        != worker_id && roster_slot_of(workers@, JobKind::Guard, workers@[j].id) < cur && patrol_dest(
                        *session,
                        workers@[j].position,
                        workers@[j].id,
                    ) == Some(t) {
                    let j = choose|j: int|
                        0 <= j < i + 1 && (#[trigger] workers@[j]).assignment == JobKind::Guard && workers@[j].id
                            != worker_id && roster_slot_of(workers@, JobKind::Guard, workers@[j].id) < cur
                            && patrol_dest(*session, workers@[j].position, workers@[j].id) == Some(t);
                    if j < i {
                        assert(before.contains(t));
                    }
                }
                if before.contains(t) {
                    let j = choose|j: int|
                        0 <= j < i && (#[trigger] workers@[j]).assignment == JobKind::Guard && workers@[j].id
                            != worker_id && roster_slot_of(workers@, JobKind::Guard, workers@[j].id) < cur
                            && patrol_dest(*session, workers@[j].position, workers@[j].id) == Some(t);
                    assert(0 <= j < i + 1);
                }
            }
        }
        i = i + 1;
    }
    assert(occupied@.to_set() =~= taken);
    let unoccupied = without_taken(&pool, &occupied);
    match nearest_reachable_or_nearest(session, origin, &unoccupied) {
        Some(t) => Some(t),
        None => match nearest_reachable_or_nearest(session, origin, &pool) {
            Some(t) => Some(t),
            None => if policy != RoutePolicy::MarkedOnly {
                Some(session.world.patrol_position_for(origin))
            } else {
                None
            },
        },
    }
}

// ----------------------------------------------------------------- storage

/// The marked storage tile nearest to the stockpile, or the stockpile.
pub open spec fn storage_tile(world: WorldState) -> TilePos {
    match crate::world::first_nearest(district_tiles(world.zones@, ZoneKind::Storage), world.stockpile_position) {
        Some(t) => t,
        None => world.stockpile_position,
    }
}

/// Where a hauler delivers when nothing better is marked.
pub open spec fn storage_fallback(session: GameSession, id: u32) -> TilePos {
    if policy_for(session, id, ZoneKind::Storage) == RoutePolicy::Nearest {
        session.world.stockpile_position
    } else {
        storage_tile(session.world)
    }
}

/// The drop tiles a hauler may deliver to under its route policy; `None`
/// when it may only use marked storage and none is marked.
pub open spec fn storage_pool(session: GameSession, id: u32) -> Option<Seq<TilePos>> {
    let marked = unique_of(district_tiles(session.world.zones@, ZoneKind::Storage));
    let fallback = storage_fallback(session, id);
    match policy_for(session, id, ZoneKind::Storage) {
        RoutePolicy::MarkedFirst => if marked.len() == 0 {
            Some(seq![fallback])
        } else {
            Some(marked)
        },
        RoutePolicy::Nearest => Some(seq![fallback]),
        RoutePolicy::MarkedOnly => if marked.len() == 0 {
            None
        } else {
            Some(marked)
        },
    }
}

/// Where busy haulers earlier in the turn order than slot `cur` deliver.
pub open spec fn storage_taken(session: GameSession, id: u32, cur: nat) -> Set<TilePos>
    decreases cur, 0nat,
{
    Set::new(
        |t: TilePos|
            exists|i: int|
                0 <= i < session.workforce.workers@.len() && busy_hauler(#[trigger] session.workforce.workers@[i])
                    && session.workforce.workers@[i].id != id && storage_slot_of(
                    session.workforce.workers@,
                    session.workforce.workers@[i].id,
                ) < cur && match session.workforce.workers@[i].haul_plan {
                    Some(plan) => plan.destination == t,
                    None => storage_dest(
                        session,
                        session.workforce.workers@[i].position,
                        session.workforce.workers@[i].id,
                    ) == Some(t),
                },
    )
}

/// The drop tile hauler `id` standing on `origin` delivers to.
pub open spec fn storage_dest(session: GameSession, origin: TilePos, id: u32) -> Option<TilePos>
    decreases storage_slot_of(session.workforce.workers@, id), 1nat,
{
    let policy = policy_for(session, id, ZoneKind::Storage);
    let fallback = storage_fallback(session, id);
    let cur = storage_slot_of(session.workforce.workers@, id);
    match storage_pool(session, id) {
        None => None,
        Some(pool) => {
            let preferred = if cur == 0 {
                nearest_or_any(session.world, origin, pool)
            } else {
                Some(pool[(cur % pool.len()) as int])
            };
            match preferred {
                None => None,
                Some(p) => {
                    let taken = storage_taken(session, id, cur);
                    if !taken.contains(p) && routable(session.world, origin, p) {
                        Some(p)
                    } else {
                        match nearest_or_any(session.world, origin, not_taken(pool, taken)) {
                            Some(t) => Some(t),
                            None => match nearest_or_any(session.world, origin, pool) {
                                Some(t) => Some(t),
                                None => if policy != RoutePolicy::MarkedOnly {
                                    Some(fallback)
                                } else {
                                    None
                                },
                            },
                        }
                    }
                },
            }
        },
    }
}

/// The drop tile hauler `worker_id` standing on `origin` delivers to.
pub fn storage_destination(session: &GameSession, origin: TilePos, worker_id: u32) -> (destination: Option<TilePos>)
    requires
        grid_fits(session.world),
    ensures
        destination == storage_dest(*session, origin, worker_id),
    decreases storage_slot_of(session.workforce.workers@, worker_id),
{
    let policy = route_policy(session, worker_id, ZoneKind::Storage);
    let fallback = if policy == RoutePolicy::Nearest {
        session.world.stockpile_position()
    } else {
        session.world.storage_position()
    };
    let marked_all = collect_district_tiles(&session.world.zones, ZoneKind::Storage);
    let marked = unique_tiles(&marked_all);
    let pool: Vec<TilePos> = match policy {
        RoutePolicy::MarkedFirst => if marked.len() == 0 {
            let mut single: Vec<TilePos> = Vec::new();
            single.push(fallback);
            single
        } else {
            marked
        },
        RoutePolicy::Nearest => {
            let mut single: Vec<TilePos> = Vec::new();
            single.push(fallback);
            single
        },
        RoutePolicy::MarkedOnly => {
            if marked.len() == 0 {
                return None;
            }
            marked
        },
    };
    assert(storage_pool(*session, worker_id) == Some(pool@));
    let cur = storage_slot(session, worker_id);
    let preferred = if cur == 0 {
        match nearest_reachable_or_nearest(session, origin, &pool) {
            None => {
                return None;
            },
            Some(p) => p,
        }
    } else {
        pool[cur % pool.len()]
    };
    let ghost taken = storage_taken(*session, worker_id, cur as nat);
    let workers = &session.workforce.workers;
    let mut occupied: Vec<TilePos> = Vec::new();
    let mut i: usize = 0;
    while i < workers.len()
        invariant
            i <= workers@.len(),
            workers@ == session.workforce.workers@,
            grid_fits(session.world),
            cur == storage_slot_of(session.workforce.workers@, worker_id),
            forall|t: TilePos|
                occupied@.contains(t) <==> exists|j: int|
                    0 <= j < i && busy_hauler(#[trigger] workers@[j]) && workers@[j].id != worker_id && storage_slot_of(
                        workers@,
                        workers@[j].id,
                    ) < cur && match workers@[j].haul_plan {
                        Some(plan) => plan.destination == t,
                        None => storage_dest(*session, workers@[j].position, workers@[j].id) == Some(t),
                    },
        decreases workers.len() - i,
    {
        let w = &workers[i];
        let ghost before = occupied@;
        let mut added: Option<TilePos> = None;
        if w.assignment == JobKind::Haul && w.id != worker_id && (w.carrying > 0 || w.haul_plan.is_some())
            && storage_slot(session, w.id) < cur {
            added = match w.haul_plan {
                Some(plan) => Some(plan.destination),
                None => storage_destination(session, w.position, w.id),
            };
        }
        match added {
            Some(d) => occupied.push(d),
            None => {},
        }
        proof {
            lemma_taken_step(before, occupied@, added);
            assert(workers@[i as int] == *w);
            assert forall|t: TilePos|
                occupied@.contains(t) <==> exists|j: int|
                    0 <= j < i + 1 && busy_hauler(#[trigger] workers@[j]) && workers@[j].id != worker_id
                        && storage_slot_of(workers@, workers@[j].id) < cur && match workers@[j].haul_plan {
                        Some(plan) => plan.destination == t,
                        None => storage_dest(*session, workers@[j].position, workers@[j].id) == Some(t),
                    } by {
                if exists|j: int|
                    0 <= j < i + 1 && busy_hauler(#[trigger] workers@[j]) && workers@[j].id != worker_id
                        && storage_slot_of(workers@, workers@[j].id) < cur && match workers@[j].haul_plan {
                        Some(plan) => plan.destination == t,
                        None => storage_dest(*session, workers@[j].position, workers@[j].id) == Some(t),
                    } {
                    let j = choose|j: int|
                        0 <= j < i + 1 && busy_hauler(#[trigger] workers@[j]) && workers@[j].id != worker_id
                            && storage_slot_of(workers@, workers@[j].id) < cur && match workers@[j].haul_plan {
                            Some(plan) => plan.destination == t,
                            None => storage_dest(*session, workers@[j].position, workers@[j].id) == Some(t),
                        };
                    if j < i {
                        assert(before.contains(t));
                    }
                }
                if before.contains(t) {
                    let j = choose|j: int|
                        0 <= j < i && busy_hauler(#[trigger] workers@[j]) && workers@[j].id != worker_id
                            && storage_slot_of(workers@, workers@[j].id) < cur && match workers@[j].haul_plan {
                            Some(plan) => plan.destination == t,
                            None => storage_dest(*session, workers@[j].position, workers@[j].id) == Some(t),
                        };
                    assert(0 <= j < i + 1);
                }
            }
        }
        i = i + 1;
    }
    assert(occupied@.to_set() =~= taken);
    if !tiles_contain(&occupied, preferred) && route_exists(session, origin, preferred) {
        return Some(preferred);
    }
    let unoccupied = without_taken(&pool, &occupied);
    match nearest_reachable_or_nearest(session, origin, &unoccupied) {
        Some(t) => Some(t),
        None => match nearest_reachable_or_nearest(session, origin, &pool) {
            Some(t) => Some(t),
            None => if policy != RoutePolicy::MarkedOnly {
                Some(fallback)
            } else {
                None
            },
        },
    }
}

/// Whether `destination` still suits hauler `worker_id`'s storage policy.
pub open spec fn storage_current(session: GameSession, id: u32, destination: TilePos) -> bool {
    let marked = unique_of(district_tiles(session.world.zones@, ZoneKind::Storage));
    match policy_for(session, id, ZoneKind::Storage) {
        RoutePolicy::Nearest => destination == session.world.stockpile_position,
        RoutePolicy::MarkedOnly => zones_mark(session.world.zones@, ZoneKind::Storage, destination),
        RoutePolicy::MarkedFirst => marked.len() == 0 && destination == storage_tile(session.world) || marked.contains(
            destination,
        ) || destination == storage_tile(session.world),
    }
}

pub fn storage_destination_is_current(session: &GameSession, worker_id: u32, destination: TilePos) -> (current: bool)
    ensures
        current == storage_current(*session, worker_id, destination),
{
    match route_policy(session, worker_id, ZoneKind::Storage) {
        RoutePolicy::Nearest => destination == session.world.stockpile_position(),
        RoutePolicy::MarkedOnly => session.world.zone_contains(ZoneKind::Storage, destination),
        RoutePolicy::MarkedFirst => {
            let marked_all = collect_district_tiles(&session.world.zones, ZoneKind::Storage);
            let marked = unique_tiles(&marked_all);
            let anchor = session.world.storage_position();
            marked.len() == 0 && destination == anchor || tiles_contain(&marked, destination) || destination == anchor
        },
    }
}

// --------------------------------------------------------------------- dig

/// Some worker is bound to the plot with id `plot_id`.
pub open spec fn plot_claimed(workers: Seq<Worker>, plot_id: usize) -> bool {
    exists|i: int| 0 <= i < workers.len() && (#[trigger] workers[i]).target_plot == Some(plot_id)
}

/// A ready plot no worker is bound to.
pub open spec fn plot_open(session: GameSession, plot: Plot) -> bool {
    plot.status == PlotStatus::Ready && !plot_claimed(session.workforce.workers@, plot.id)
}

/// The tiles of open plots, only those marked for work when `marked_only`.
pub open spec fn open_plot_tiles(session: GameSession, plots: Seq<Plot>, marked_only: bool) -> Seq<TilePos>
    decreases plots.len(),
{
    if plots.len() == 0 {
        Seq::empty()
    } else {
        let kept = open_plot_tiles(session, plots.drop_last(), marked_only);
        let plot = plots.last();
        if plot_open(session, plot) && (!marked_only || zones_mark(session.world.zones@, ZoneKind::Work, plot.position)) {
            kept.push(plot.position)
        } else {
            kept
        }
    }
}

/// The first open plot with id `plot_id`.
pub open spec fn open_plot_with_id(session: GameSession, plots: Seq<Plot>, plot_id: usize) -> Option<Plot>
    decreases plots.len(),
{
    if plots.len() == 0 {
        None
    } else if plots[0].id == plot_id && plot_open(session, plots[0]) {
        Some(plots[0])
    } else {
        open_plot_with_id(session, plots.skip(1), plot_id)
    }
}

/// The tile of the selected plot, if it is open.
pub open spec fn selected_open_tile(session: GameSession) -> Option<TilePos> {
    match session.world.selected_plot {
        None => None,
        Some(plot_id) => match open_plot_with_id(session, session.world.plots@, plot_id) {
            None => None,
            Some(plot) => Some(plot.position),
        },
    }
}

pub open spec fn first_tile(tiles: Seq<TilePos>) -> Option<TilePos> {
    if tiles.len() == 0 { None } else { Some(tiles[0]) }
}

/// The grave a digger heads for: its bound plot, else the player's
/// selection, else the nearest open grave, as its route policy orders them.
pub open spec fn dig_dest(session: GameSession, worker: Worker) -> Option<TilePos> {
    let plots = session.world.plots@;
    match worker.target_plot {
        Some(plot_id) if plot_id < plots.len() => Some(plots[plot_id as int].position),
        _ => {
            let designated = open_plot_tiles(session, plots, true);
            let available = open_plot_tiles(session, plots, false);
            let selected = match selected_open_tile(session) {
                Some(t) => if routable(session.world, worker.position, t) {
                    Some(t)
                } else {
                    None
                },
                None => None,
            };
            let near_designated = crate::navigation::nearest_routable(session.world, worker.position, designated);
            let near_available = crate::navigation::nearest_routable(session.world, worker.position, available);
            match policy_for(session, worker.id, ZoneKind::Work) {
                RoutePolicy::MarkedOnly => match selected {
                    Some(t) if zones_mark(session.world.zones@, ZoneKind::Work, t) => Some(t),
                    _ => match near_designated {
                        Some(t) => Some(t),
                        None => first_tile(designated),
                    },
                },
                RoutePolicy::Nearest => match selected {
                    Some(t) => Some(t),
                    None => match near_available {
                        Some(t) => Some(t),
                        None => first_tile(available),
                    },
                },
                RoutePolicy::MarkedFirst => match selected {
                    Some(t) => Some(t),
                    None => match near_designated {
                        Some(t) => Some(t),
                        None => match near_available {
                            Some(t) => Some(t),
                            None => match selected_open_tile(session) {
                                Some(t) => Some(t),
                                None => first_tile(available),
                            },
                        },
                    },
                },
            }
        },
    }
}

fn claimed_plot_ids(workers: &Vec<Worker>) -> (ids: Vec<usize>)
    ensures
        forall|plot_id: usize| ids@.contains(plot_id) <==> plot_claimed(workers@, plot_id),
{
    let mut ids: Vec<usize> = Vec::new();
    let mut i: usize = 0;
    while i < workers.len()
        invariant
            i <= workers@.len(),
            forall|plot_id: usize|
                ids@.contains(plot_id) <==> exists|j: int|
                    0 <= j < i && (#[trigger] workers@[j]).target_plot == Some(plot_id),
        decreases workers.len() - i,
    {
        let ghost before = ids@;
        match workers[i].target_plot {
            Some(plot_id) => ids.push(plot_id),
            None => {},
        }
        proof {
            assert forall|plot_id: usize|
                ids@.contains(plot_id) <==> exists|j: int|
                    0 <= j < i + 1 && (#[trigger] workers@[j]).target_plot == Some(plot_id) by {
                if ids@.contains(plot_id) && !before.contains(plot_id) {
                    let k = choose|k: int| 0 <= k < ids@.len() && ids@[k] == plot_id;
                    if k < before.len() {
                        assert(before[k] == plot_id);
                    }
                    assert(workers@[i as int].target_plot == Some(plot_id));
                }
                if before.contains(plot_id) {
                    let k = choose|k: int| 0 <= k < before.len() && before[k] == plot_id;
                    assert(ids@[k] == plot_id);
                }
                if exists|j: int| 0 <= j < i + 1 && (#[trigger] workers@[j]).target_plot == Some(plot_id) {
                    let j = choose|j: int| 0 <= j < i + 1 && (#[trigger] workers@[j]).target_plot == Some(plot_id);
                    if j == i {
                        assert(ids@[ids@.len() - 1] == plot_id);
                    }
                }
            }
        }
        i = i + 1;
    }
    ids
}

fn usize_listed(ids: &Vec<usize>, id: usize) -> (found: bool)
    ensures
        found == ids@.contains(id),
{
    let mut i: usize = 0;
    while i < ids.len()
        invariant
            i <= ids@.len(),
            forall|j: int| 0 <= j < i ==> ids@[j] != id,
        decreases ids.len() - i,
    {
        if ids[i] == id {
            return true;
        }
        i = i + 1;
    }
    false
}

fn open_plots(session: &GameSession, claimed: &Vec<usize>, marked_only: bool) -> (tiles: Vec<TilePos>)
    requires
        forall|plot_id: usize| claimed@.contains(plot_id) <==> plot_claimed(session.workforce.workers@, plot_id),
    ensures
        tiles@ == open_plot_tiles(*session, session.world.plots@, marked_only),
{
    let plots = &session.world.plots;
    let mut tiles: Vec<TilePos> = Vec::new();
    let mut i: usize = 0;
    while i < plots.len()
        invariant
            i <= plots@.len(),
            plots@ == session.world.plots@,
            forall|plot_id: usize| claimed@.contains(plot_id) <==> plot_claimed(session.workforce.workers@, plot_id),
            tiles@ == open_plot_tiles(*session, plots@.take(i as int), marked_only),
        decreases plots.len() - i,
    {
        assert(plots@.take(i as int + 1).drop_last() == plots@.take(i as int));
        let plot = plots[i];
        if plot.status == PlotStatus::Ready && !usize_listed(claimed, plot.id) && (!marked_only
            || session.world.zone_contains(ZoneKind::Work, plot.position)) {
            tiles.push(plot.position);
        }
        i = i + 1;
    }
    assert(plots@.take(i as int) == plots@);
    tiles
}

fn selected_open_plot(session: &GameSession, claimed: &Vec<usize>) -> (tile: Option<TilePos>)
    requires
        forall|plot_id: usize| claimed@.contains(plot_id) <==> plot_claimed(session.workforce.workers@, plot_id),
    ensures
        tile == selected_open_tile(*session),
{
    let plot_id = match session.world.selected_plot {
        None => {
            return None;
        },
        Some(id) => id,
    };
    let plots = &session.world.plots;
    let mut i: usize = 0;
    assert(plots@.skip(0) == plots@);
    while i < plots.len()
        invariant
            i <= plots@.len(),
            plots@ == session.world.plots@,
            forall|id: usize| claimed@.contains(id) <==> plot_claimed(session.workforce.workers@, id),
            session.world.selected_plot == Some(plot_id),
            open_plot_with_id(*session, plots@, plot_id) == open_plot_with_id(*session, plots@.skip(i as int), plot_id),
        decreases plots.len() - i,
    {
        let ghost rest = plots@.skip(i as int);
        assert(rest[0] == plots@[i as int]);
        assert(rest.skip(1) == plots@.skip(i as int + 1));
        let plot = plots[i];
        if plot.id == plot_id && plot.status == PlotStatus::Ready && !usize_listed(claimed, plot.id) {
            assert(plot_open(*session, rest[0]));
            assert(open_plot_with_id(*session, rest, plot_id) == Some(rest[0]));
            return Some(plot.position);
        }
        i = i + 1;
    }
    None
}

/// The grave digger `worker` heads for.
pub fn dig_destination(session: &GameSession, worker: &Worker) -> (destination: Option<TilePos>)
    requires
        grid_fits(session.world),
    ensures
        destination == dig_dest(*session, *worker),
{
    match worker.target_plot {
        Some(plot_id) => {
            if plot_id < session.world.plots.len() {
                return Some(session.world.plots[plot_id].position);
            }
        },
        None => {},
    }
    let claimed = claimed_plot_ids(&session.workforce.workers);
    let designated = open_plots(session, &claimed, true);
    let available = open_plots(session, &claimed, false);
    let selected_any = selected_open_plot(session, &claimed);
    let selected = match selected_any {
        Some(t) => if route_exists(session, worker.position, t) {
            Some(t)
        } else {
            None
        },
        None => None,
    };
    let first_designated = if designated.len() == 0 {
        None
    } else {
        Some(designated[0])
    };
    let first_available = if available.len() == 0 {
        None
    } else {
        Some(available[0])
    };
    match route_policy(session, worker.id, ZoneKind::Work) {
        RoutePolicy::MarkedOnly => {
            if let Some(t) = selected {
                if session.world.zone_contains(ZoneKind::Work, t) {
                    return Some(t);
                }
            }
            match crate::navigation::nearest_reachable(session, worker.position, &designated) {
                Some(t) => Some(t),
                None => first_designated,
            }
        },
        RoutePolicy::Nearest => match selected {
            Some(t) => Some(t),
            None => match crate::navigation::nearest_reachable(session, worker.position, &available) {
                Some(t) => Some(t),
                None => first_available,
            },
        },
        RoutePolicy::MarkedFirst => match selected {
            Some(t) => Some(t),
            None => match crate::navigation::nearest_reachable(session, worker.position, &designated) {
                Some(t) => Some(t),
                None => match crate::navigation::nearest_reachable(session, worker.position, &available) {
                    Some(t) => Some(t),
                    None => match selected_any {
                        Some(t) => Some(t),
                        None => first_available,
                    },
                },
            },
        },
    }
}

// ------------------------------------------------------------ every job

/// Work tiles of the structures a builder (`refine` false: unfinished ones)
/// or a refiner (`refine` true: finished kilns) attends.
pub open spec fn work_tiles_of(buildings: Seq<Building>, refine: bool) -> Seq<TilePos>
    decreases buildings.len(),
{
    if buildings.len() == 0 {
        Seq::empty()
    } else {
        let kept = work_tiles_of(buildings.drop_last(), refine);
        let b = buildings.last();
        let wanted = if refine {
            b.kind == BuildingKind::OssuaryKiln && b.complete
        } else {
            !b.complete
        };
        if wanted {
            kept.push(work_tile(b))
        } else {
            kept
        }
    }
}

/// Every structure's work tile can be named within the `i32` range.
pub open spec fn work_tiles_fit(world: WorldState) -> bool {
    forall|i: int| 0 <= i < world.buildings@.len() ==> work_tile_fits(#[trigger] world.buildings@[i])
}

/// Whether the world's tiles can be indexed by a machine word and every
/// structure's work tile named within the `i32` range: what the routing and
/// job-site functions ask of the world they work on.
pub fn layout_fits(world: &WorldState) -> (fits: bool)
    ensures
        fits == (grid_fits(*world) && work_tiles_fit(*world)),
{
    if world.width > i32::MAX as usize || world.height > i32::MAX as usize {
        return false;
    }
    let w = world.width as u64;
    let h = world.height as u64;
    assert(w * h <= (i32::MAX as int) * (i32::MAX as int)) by (nonlinear_arith)
        requires
            w <= i32::MAX,
            h <= i32::MAX,
    ;
    if w * h >= usize::MAX as u64 {
        return false;
    }
    let buildings = &world.buildings;
    let mut i: usize = 0;
    while i < buildings.len()
        invariant
            i <= buildings@.len(),
            buildings@ == world.buildings@,
            forall|j: int| 0 <= j < i ==> work_tile_fits(#[trigger] buildings@[j]),
        decreases buildings.len() - i,
    {
        let b = buildings[i];
        let end = b.position.x as i64 + b.width as i64;
        if !(b.position.x > 0 || (i32::MIN as i64 <= end && end <= i32::MAX as i64)) {
            return false;
        }
        i = i + 1;
    }
    true
}

fn structure_tiles(world: &WorldState, refine: bool) -> (tiles: Vec<TilePos>)
    requires
        work_tiles_fit(*world),
    ensures
        tiles@ == work_tiles_of(world.buildings@, refine),
{
    let buildings = &world.buildings;
    let mut tiles: Vec<TilePos> = Vec::new();
    let mut i: usize = 0;
    while i < buildings.len()
        invariant
            i <= buildings@.len(),
            buildings@ == world.buildings@,
            work_tiles_fit(*world),
            tiles@ == work_tiles_of(buildings@.take(i as int), refine),
        decreases buildings.len() - i,
    {
        assert(buildings@.take(i as int + 1).drop_last() == buildings@.take(i as int));
        let b = buildings[i];
        let wanted = if refine {
            b.kind == BuildingKind::OssuaryKiln && b.complete
        } else {
            !b.complete
        };
        if wanted {
            assert(work_tile_fits(buildings@[i as int]));
            tiles.push(b.work_position());
        }
        i = i + 1;
    }
    assert(buildings@.take(i as int) == buildings@);
    tiles
}

/// The tiles of dug graves.
pub open spec fn dug_tiles(plots: Seq<Plot>) -> Seq<TilePos>
    decreases plots.len(),
{
    if plots.len() == 0 {
        Seq::empty()
    } else {
        let kept = dug_tiles(plots.drop_last());
        if plots.last().status == PlotStatus::Dug {
            kept.push(plots.last().position)
        } else {
            kept
        }
    }
}

fn dug_plot_tiles(plots: &Vec<Plot>) -> (tiles: Vec<TilePos>)
    ensures
        tiles@ == dug_tiles(plots@),
{
    let mut tiles: Vec<TilePos> = Vec::new();
    let mut i: usize = 0;
    while i < plots.len()
        invariant
            i <= plots@.len(),
            tiles@ == dug_tiles(plots@.take(i as int)),
        decreases plots.len() - i,
    {
        assert(plots@.take(i as int + 1).drop_last() == plots@.take(i as int));
        if plots[i].status == PlotStatus::Dug {
            tiles.push(plots[i].position);
        }
        i = i + 1;
    }
    assert(plots@.take(i as int) == plots@);
    tiles
}

/// The tiles of the piles in `piles` that hold material.
pub open spec fn stocked_tiles(piles: Seq<LooseResourcePile>) -> Seq<TilePos>
    decreases piles.len(),
{
    if piles.len() == 0 {
        Seq::empty()
    } else {
        let kept = stocked_tiles(piles.drop_last());
        if piles.last().amount > 0 {
            kept.push(piles.last().position)
        } else {
            kept
        }
    }
}

fn stocked_pile_tiles(piles: &Vec<LooseResourcePile>) -> (tiles: Vec<TilePos>)
    ensures
        tiles@ == stocked_tiles(piles@),
{
    let mut tiles: Vec<TilePos> = Vec::new();
    let mut i: usize = 0;
    while i < piles.len()
        invariant
            i <= piles@.len(),
            tiles@ == stocked_tiles(piles@.take(i as int)),
        decreases piles.len() - i,
    {
        assert(piles@.take(i as int + 1).drop_last() == piles@.take(i as int));
        if piles[i].amount > 0 {
            tiles.push(piles[i].position);
        }
        i = i + 1;
    }
    assert(piles@.take(i as int) == piles@);
    tiles
}

/// Where a hauler picks up loose material: the nearest pile a walk reaches,
/// else the remembered source if a walk reaches it, else the nearest
/// alternative, else the remembered source anyway.
pub open spec fn pickup_choice(
    world: WorldState,
    origin: TilePos,
    piles: Seq<LooseResourcePile>,
    preferred: Option<TilePos>,
    alternatives: Seq<TilePos>,
) -> Option<TilePos> {
    match nearest_routable(world, origin, stocked_tiles(piles)) {
        Some(t) => Some(t),
        None => source_choice(world, origin, preferred, alternatives),
    }
}

fn pickup_source(
    session: &GameSession,
    origin: TilePos,
    piles: &Vec<LooseResourcePile>,
    preferred: Option<TilePos>,
    alternatives: &Vec<TilePos>,
) -> (source: Option<TilePos>)
    requires
        grid_fits(session.world),
    ensures
        source == pickup_choice(session.world, origin, piles@, preferred, alternatives@),
{
    let stocked = stocked_pile_tiles(piles);
    match nearest_reachable(session, origin, &stocked) {
        Some(t) => Some(t),
        None => preferred_source_or_reachable_alternative(session, origin, preferred, alternatives),
    }
}

/// Where to pick up loose material: the remembered source if a walk reaches
/// it, else the nearest alternative, else the remembered source anyway.
pub open spec fn source_choice(world: WorldState, origin: TilePos, preferred: Option<TilePos>, alternatives: Seq<
    TilePos,
>) -> Option<TilePos> {
    match preferred {
        Some(p) if routable(world, origin, p) => Some(p),
        _ => match nearest_or_any(world, origin, alternatives) {
            Some(t) => Some(t),
            None => preferred,
        },
    }
}

fn preferred_source_or_reachable_alternative(
    session: &GameSession,
    origin: TilePos,
    preferred: Option<TilePos>,
    alternatives: &Vec<TilePos>,
) -> (source: Option<TilePos>)
    requires
        grid_fits(session.world),
    ensures
        source == source_choice(session.world, origin, preferred, alternatives@),
{
    if let Some(p) = preferred {
        if route_exists(session, origin, p) {
            return Some(p);
        }
    }
    match nearest_reachable_or_nearest(session, origin, alternatives) {
        Some(t) => Some(t),
        None => preferred,
    }
}

/// The tile `worker` heads for under its current job.
pub open spec fn worker_dest(session: GameSession, worker: Worker) -> Option<TilePos> {
    let economy = session.economy;
    let world = session.world;
    match worker.assignment {
        JobKind::Dig => dig_dest(session, worker),
        JobKind::Haul => if worker.carrying > 0 {
            match worker.haul_plan {
                Some(plan) => Some(plan.destination),
                None => storage_dest(session, worker.position, worker.id),
            }
        } else if let Some(plan) = worker.haul_plan {
            let available = match plan.resource {
                ResourceKind::Bones => economy.loose_bones,
                ResourceKind::Wood => economy.loose_wood,
            };
            if available > 0 {
                Some(plan.source)
            } else {
                None
            }
        } else if economy.loose_bones > 0 {
            match pickup_choice(
                world,
                worker.position,
                economy.loose_bones_piles@,
                economy.loose_bones_source,
                dug_tiles(world.plots@),
            ) {
                Some(t) => Some(t),
                None => Some(world.stockpile_position),
            }
        } else if economy.loose_wood > 0 {
            pickup_choice(
                world,
                worker.position,
                economy.loose_wood_piles@,
                economy.loose_wood_source,
                world.forest_tiles@,
            )
        } else {
            None
        },
        JobKind::Guard => patrol_dest(session, worker.position, worker.id),
        JobKind::Wood => wood_dest(session, worker.position, worker.id),
        JobKind::Build => nearest_or_any(world, worker.position, work_tiles_of(world.buildings@, false)),
        JobKind::Refine => nearest_or_any(world, worker.position, work_tiles_of(world.buildings@, true)),
    }
}

/// The tile `worker` heads for under its current job.
pub fn destination_for_worker(session: &GameSession, worker: &Worker) -> (destination: Option<TilePos>)
    requires
        grid_fits(session.world),
        work_tiles_fit(session.world),
    ensures
        destination == worker_dest(*session, *worker),
{
    match worker.assignment {
        JobKind::Dig => dig_destination(session, worker),
        JobKind::Haul => {
            if worker.carrying > 0 {
                match worker.haul_plan {
                    Some(plan) => Some(plan.destination),
                    None => storage_destination(session, worker.position, worker.id),
                }
            } else if let Some(plan) = worker.haul_plan {
                let available = match plan.resource {
                    ResourceKind::Bones => session.economy.loose_bones,
                    ResourceKind::Wood => session.economy.loose_wood,
                };
                if available > 0 {
                    Some(plan.source)
                } else {
                    None
                }
            } else if session.economy.loose_bones > 0 {
                let dug = dug_plot_tiles(&session.world.plots);
                match pickup_source(
                    session,
                    worker.position,
                    &session.economy.loose_bones_piles,
                    session.economy.loose_bones_source,
                    &dug,
                ) {
                    Some(t) => Some(t),
                    None => Some(session.world.stockpile_position()),
                }
            } else if session.economy.loose_wood > 0 {
                pickup_source(
                    session,
                    worker.position,
                    &session.economy.loose_wood_piles,
                    session.economy.loose_wood_source,
                    &session.world.forest_tiles,
                )
            } else {
                None
            }
        },
        JobKind::Guard => patrol_destination(session, worker.position, worker.id),
        JobKind::Wood => wood_destination(session, worker.position, worker.id),
        JobKind::Build => {
            let tiles = structure_tiles(&session.world, false);
            nearest_reachable_or_nearest(session, worker.position, &tiles)
        },
        JobKind::Refine => {
            let tiles = structure_tiles(&session.world, true);
            nearest_reachable_or_nearest(session, worker.position, &tiles)
        },
    }
}

// ----------------------------------------------------------------- patrols

/// Marked patrol posts, guards, and the posts a guard actually reaches.
#[derive(Debug, Clone, Copy, PartialEq, Eq, Structural)]
pub struct PatrolCoverage {
    pub total_posts: usize,
    pub covered_posts: usize,
    pub guard_count: usize,
}

/// The posts guards among `workers` cover, each once, in roster order: a
/// guard covers the post it heads for when that is a marked post a walk
/// reaches.
pub open spec fn covered_posts(session: GameSession, workers: Seq<Worker>) -> Seq<TilePos>
    decreases workers.len(),
{
    if workers.len() == 0 {
        Seq::empty()
    } else {
        let kept = covered_posts(session, workers.drop_last());
        let w = workers.last();
        match worker_dest(session, w) {
            Some(d) => if w.assignment == JobKind::Guard && patrol_pool(session).contains(d) && routable(
                session.world,
                w.position,
                d,
            ) && !kept.contains(d) {
                kept.push(d)
            } else {
                kept
            },
            None => kept,
        }
    }
}

pub open spec fn count_job(workers: Seq<Worker>, job: JobKind) -> nat
    decreases workers.len(),
{
    if workers.len() == 0 {
        0
    } else {
        count_job(workers.drop_last(), job) + if workers.last().assignment == job { 1nat } else { 0nat }
    }
}

/// How many marked patrol posts there are, how many a guard reaches, and
/// how many guards there are.
pub fn patrol_coverage(session: &GameSession) -> (coverage: PatrolCoverage)
    requires
        grid_fits(session.world),
        work_tiles_fit(session.world),
    ensures
        coverage.total_posts == patrol_pool(*session).len(),
        coverage.covered_posts == covered_posts(*session, session.workforce.workers@).len(),
        coverage.guard_count == count_job(session.workforce.workers@, JobKind::Guard),
{
    let marked = collect_district_tiles(&session.world.zones, ZoneKind::Patrol);
    let posts = unique_tiles(&marked);
    let workers = &session.workforce.workers;
    let mut covered: Vec<TilePos> = Vec::new();
    let mut guard_count: usize = 0;
    let mut i: usize = 0;
    while i < workers.len()
        invariant
            i <= workers@.len(),
            workers@ == session.workforce.workers@,
            grid_fits(session.world),
            work_tiles_fit(session.world),
            posts@ == patrol_pool(*session),
            covered@ == covered_posts(*session, workers@.take(i as int)),
            guard_count == count_job(workers@.take(i as int), JobKind::Guard),
            guard_count <= i,
        decreases workers.len() - i,
    {
        assert(workers@.take(i as int + 1).drop_last() == workers@.take(i as int));
        let worker = &workers[i];
        if worker.assignment == JobKind::Guard {
            guard_count = guard_count + 1;
            match destination_for_worker(session, worker) {
                Some(d) => {
                    if tiles_contain(&posts, d) && route_exists(session, worker.position, d) && !tiles_contain(
                        &covered,
                        d,
                    ) {
                        covered.push(d);
                    }
                },
                None => {},
            }
        }
        i = i + 1;
    }
    assert(workers@.take(i as int) == workers@);
    PatrolCoverage { total_posts: posts.len(), covered_posts: covered.len(), guard_count }
}

/// The first index of `tile` in `tiles`.
pub open spec fn index_in(tiles: Seq<TilePos>, tile: TilePos) -> Option<int>
    decreases tiles.len(),
{
    if tiles.len() == 0 {
        None
    } else if tiles[0] == tile {
        Some(0)
    } else {
        match index_in(tiles.skip(1), tile) {
            Some(i) => Some(i + 1),
            None => None,
        }
    }
}

/// Which marked post, counted from one, guard `worker` keeps.
pub open spec fn post_number(session: GameSession, worker: Worker) -> Option<nat> {
    if worker.assignment != JobKind::Guard {
        None
    } else {
        match worker_dest(session, worker) {
            None => None,
            Some(d) => match index_in(patrol_pool(session), d) {
                Some(i) => Some((i + 1) as nat),
                None => None,
            },
        }
    }
}

pub fn patrol_post_number(session: &GameSession, worker: &Worker) -> (number: Option<usize>)
    requires
        grid_fits(session.world),
        work_tiles_fit(session.world),
    ensures
        match number {
            Some(n) => post_number(*session, *worker) == Some(n as nat),
            None => post_number(*session, *worker) is None,
        },
{
    if worker.assignment != JobKind::Guard {
        return None;
    }
    let destination = match destination_for_worker(session, worker) {
        None => {
            return None;
        },
        Some(d) => d,
    };
    let marked = collect_district_tiles(&session.world.zones, ZoneKind::Patrol);
    let posts = unique_tiles(&marked);
    let mut i: usize = 0;
    assert(posts@.skip(0) == posts@);
    while i < posts.len()
        invariant
            i <= posts@.len(),
            posts@ == patrol_pool(*session),
            worker.assignment == JobKind::Guard,
            worker_dest(*session, *worker) == Some(destination),
            index_in(posts@, destination) == match index_in(posts@.skip(i as int), destination) {
                Some(k) => Some(k + i),
                None => None::<int>,
            },
        decreases posts.len() - i,
    {
        let ghost rest = posts@.skip(i as int);
        assert(rest[0] == posts@[i as int]);
        assert(rest.skip(1) == posts@.skip(i as int + 1));
        if posts[i] == destination {
            assert(index_in(rest, destination) == Some(0int));
            return Some(i + 1);
        }
        i = i + 1;
    }
    None
}

} // verus!
