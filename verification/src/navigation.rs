//! Deterministic four-way routes around cemetery obstructions.
//!
//! A route walks from tile to neighbouring tile, stays inside the world and
//! avoids the road, the forest and structure footprints; only its last tile
//! may be an obstruction, so workers can walk up to a tree or a kiln.

use vstd::prelude::*;
use vstd::set_lib::{lemma_len_subset, FiniteRange};
use crate::session::GameSession;
use crate::tile::{adjacent, manhattan, tile_distance, tiles_contain, TilePos};
use crate::world::{any_footprint_contains, in_footprint, WorldState};

verus! {

/// The world is small enough to index every tile by a machine word.
pub open spec fn grid_fits(world: WorldState) -> bool {
    &&& world.width <= i32::MAX
    &&& world.height <= i32::MAX
    &&& world.width * world.height < usize::MAX
}

pub open spec fn inside(world: WorldState, tile: TilePos) -> bool {
    &&& 0 <= tile.x
    &&& 0 <= tile.y
    &&& tile.x < world.width
    &&& tile.y < world.height
}

/// The road, the forest and structure footprints obstruct walking.
pub open spec fn blocked(world: WorldState, tile: TilePos) -> bool {
    ||| tile.x >= world.road_x
    ||| world.forest_tiles@.contains(tile)
    ||| exists|i: int| 0 <= i < world.buildings@.len() && in_footprint(#[trigger] world.buildings@[i], tile)
}

pub open spec fn passable(world: WorldState, tile: TilePos) -> bool {
    inside(world, tile) && !blocked(world, tile)
}

/// A tile a route toward `target` may step onto.
pub open spec fn enterable(world: WorldState, target: TilePos, tile: TilePos) -> bool {
    tile == target || passable(world, tile)
}

/// `steps` walks from `from` to `target` one neighbouring tile at a time,
/// entering only walkable tiles (or the target itself).
pub open spec fn is_route(world: WorldState, from: TilePos, target: TilePos, steps: Seq<TilePos>) -> bool {
    &&& inside(world, target)
    &&& steps.len() >= 1
    &&& steps[0] == from
    &&& steps[steps.len() - 1] == target
    &&& forall|i: int| 0 <= i < steps.len() - 1 ==> #[trigger] adjacent(steps[i], steps[i + 1])
    &&& forall|i: int| 1 <= i < steps.len() ==> enterable(world, target, #[trigger] steps[i])
}

pub open spec fn reachable(world: WorldState, from: TilePos, target: TilePos) -> bool {
    exists|steps: Seq<TilePos>| is_route(world, from, target, steps)
}

/// Row-major index of an inside tile.
pub open spec fn cell(world: WorldState, tile: TilePos) -> int {
    tile.y * world.width + tile.x
}

pub open spec fn offset_x(k: int) -> int {
    if k == 0 { -1 } else if k == 1 { 1 } else { 0 }
}

pub open spec fn offset_y(k: int) -> int {
    if k == 2 { -1 } else if k == 3 { 1 } else { 0 }
}

pub open spec fn tile_at(x: int, y: int) -> TilePos {
    TilePos { x: x as i32, y: y as i32 }
}

/// The number of moves the search has recorded for reaching `t`.
pub open spec fn dist_of(world: WorldState, from: TilePos, dist: Seq<usize>, t: TilePos) -> int {
    if t == from {
        0
    } else {
        dist[cell(world, t)] as int
    }
}

/// Neighbour `k` of `tile` has been looked at: if it may be entered, it is
/// the start or it has been reached in at most one move more than `tile`.
pub open spec fn neighbour_done(
    world: WorldState,
    target: TilePos,
    from: TilePos,
    visited: Seq<bool>,
    dist: Seq<usize>,
    tile: TilePos,
    k: int,
) -> bool {
    let x = tile.x + offset_x(k);
    let y = tile.y + offset_y(k);
    (0 <= x < world.width && 0 <= y < world.height && enterable(world, target, tile_at(x, y)))
        ==> (tile_at(x, y) == from || (visited[cell(world, tile_at(x, y))] && dist[cell(world, tile_at(x, y))]
        <= dist_of(world, from, dist, tile) + 1))
}

pub open spec fn expanded(
    world: WorldState,
    target: TilePos,
    from: TilePos,
    visited: Seq<bool>,
    dist: Seq<usize>,
    tile: TilePos,
) -> bool {
    forall|k: int| 0 <= k < 4 ==> #[trigger] neighbour_done(world, target, from, visited, dist, tile, k)
}

/// The queue is ordered by recorded moves, and none lies more than one move
/// beyond `front`.
pub open spec fn layered(world: WorldState, from: TilePos, dist: Seq<usize>, queue: Seq<TilePos>, front: int) -> bool {
    &&& forall|i: int, j: int|
        0 <= i <= j < queue.len() ==> dist_of(world, from, dist, #[trigger] queue[i]) <= dist_of(
            world,
            from,
            dist,
            #[trigger] queue[j],
        )
    &&& forall|j: int| 0 <= j < queue.len() ==> dist_of(world, from, dist, #[trigger] queue[j]) <= front + 1
}

/// A lower bound on the moves any walk needs to reach `t`: its recorded
/// moves once reached, one more than the frontier otherwise.
pub open spec fn lower_bound(world: WorldState, from: TilePos, visited: Seq<bool>, dist: Seq<usize>, front: int, t: TilePos) -> int {
    if t == from {
        0
    } else if inside(world, t) && visited[cell(world, t)] {
        dist[cell(world, t)] as int
    } else {
        front + 1
    }
}

/// `steps` is a route from `from` to `target` no longer than any other.
pub open spec fn shortest_route(world: WorldState, from: TilePos, target: TilePos, steps: Seq<TilePos>) -> bool {
    &&& is_route(world, from, target, steps)
    &&& forall|other: Seq<TilePos>| #[trigger] is_route(world, from, target, other) ==> steps.len() <= other.len()
}

proof fn lemma_cell_bounds(x: int, y: int, w: int, h: int)
    by (nonlinear_arith)
    requires
        0 <= x < w,
        0 <= y < h,
    ensures
        0 <= y * w + x < w * h,
{
}

proof fn lemma_cell_injective(x1: int, y1: int, x2: int, y2: int, w: int)
    requires
        0 <= x1 < w,
        0 <= x2 < w,
        0 <= y1,
        0 <= y2,
        y1 * w + x1 == y2 * w + x2,
    ensures
        x1 == x2,
        y1 == y2,
{
    if y1 < y2 {
        assert((y2 - y1) * w >= w) by (nonlinear_arith)
            requires
                y2 - y1 >= 1,
                w > 0,
        ;
        assert(y2 * w - y1 * w == (y2 - y1) * w) by (nonlinear_arith);
    } else if y2 < y1 {
        assert((y1 - y2) * w >= w) by (nonlinear_arith)
            requires
                y1 - y2 >= 1,
                w > 0,
        ;
        assert(y1 * w - y2 * w == (y1 - y2) * w) by (nonlinear_arith);
    }
}

proof fn lemma_same_cell(world: WorldState, a: TilePos, b: TilePos)
    requires
        inside(world, a),
        inside(world, b),
        cell(world, a) == cell(world, b),
    ensures
        a == b,
{
    lemma_cell_injective(a.x as int, a.y as int, b.x as int, b.y as int, world.width as int);
}

proof fn lemma_adjacent_is_neighbour(a: TilePos, b: TilePos) -> (k: int)
    requires
        adjacent(a, b),
    ensures
        0 <= k < 4,
        b.x == a.x + offset_x(k),
        b.y == a.y + offset_y(k),
{
    if b.x == a.x - 1 {
        0
    } else if b.x == a.x + 1 {
        1
    } else if b.y == a.y - 1 {
        2
    } else {
        3
    }
}

proof fn lemma_distinct_cells_bounded(cells: Seq<usize>, n: usize)
    requires
        cells.no_duplicates(),
        forall|i: int| 0 <= i < cells.len() ==> cells[i] < n,
    ensures
        cells.len() <= n,
{
    cells.unique_seq_to_set();
    <usize as FiniteRange>::range_properties(0, n);
    let range = Set::new(|i: usize| 0 <= i < n);
    assert(range == <usize as FiniteRange>::range_set(0, n));
    assert(cells.to_set().subset_of(range));
    lemma_len_subset(cells.to_set(), range);
}

fn is_blocked(world: &WorldState, tile: TilePos) -> (obstructed: bool)
    ensures
        obstructed == blocked(*world, tile),
{
    tile.x >= world.road_x || tiles_contain(&world.forest_tiles, tile) || any_footprint_contains(
        &world.buildings,
        tile,
    )
}

fn cell_index(world: &WorldState, tile: TilePos) -> (index: usize)
    requires
        grid_fits(*world),
        inside(*world, tile),
    ensures
        index == cell(*world, tile),
        index < world.width * world.height,
{
    proof {
        lemma_cell_bounds(tile.x as int, tile.y as int, world.width as int, world.height as int);
    }
    (tile.y as usize) * world.width + (tile.x as usize)
}

/// What the search records about the queued tile `t` at queue position `i`.
pub open spec fn queued_ok(
    world: WorldState,
    from: TilePos,
    target: TilePos,
    visited: Seq<bool>,
    parent: Seq<TilePos>,
    dist: Seq<usize>,
    t: TilePos,
    i: int,
) -> bool {
    let c = cell(world, t);
    &&& inside(world, t)
    &&& t != from
    &&& t != target
    &&& passable(world, t)
    &&& visited[c]
    &&& adjacent(parent[c], t)
    &&& 1 <= dist[c] <= i
    &&& (parent[c] == from ==> dist[c] == 1)
    &&& (parent[c] != from ==> {
        &&& inside(world, parent[c])
        &&& visited[cell(world, parent[c])]
        &&& dist[cell(world, parent[c])] + 1 == dist[c]
    })
}

/// Everything the search knows about its queue of reached tiles.
pub open spec fn search_state(
    world: WorldState,
    from: TilePos,
    target: TilePos,
    visited: Seq<bool>,
    parent: Seq<TilePos>,
    dist: Seq<usize>,
    queue: Seq<TilePos>,
) -> bool {
    let n = world.width * world.height;
    &&& visited.len() == n
    &&& parent.len() == n
    &&& dist.len() == n
    &&& queue.len() >= 1
    &&& queue[0] == from
    &&& forall|i: int|
        1 <= i < queue.len() ==> queued_ok(world, from, target, visited, parent, dist, #[trigger] queue[i], i)
    &&& forall|i: int, j: int|
        1 <= i < queue.len() && 1 <= j < queue.len() && i != j ==> cell(world, #[trigger] queue[i])
            != cell(world, #[trigger] queue[j])
    &&& forall|c: int|
        0 <= c < n && #[trigger] visited[c] ==> exists|i: int|
            1 <= i < queue.len() && cell(world, #[trigger] queue[i]) == c
    &&& !visited[cell(world, target)]
}

/// Recording a newly reached, walkable neighbour keeps the search consistent.
proof fn lemma_discover(
    world: WorldState,
    from: TilePos,
    target: TilePos,
    visited: Seq<bool>,
    parent: Seq<TilePos>,
    dist: Seq<usize>,
    queue: Seq<TilePos>,
    current: TilePos,
    next: TilePos,
    d: usize,
)
    requires
        grid_fits(world),
        inside(world, target),
        search_state(world, from, target, visited, parent, dist, queue),
        inside(world, next),
        next != from,
        next != target,
        passable(world, next),
        !visited[cell(world, next)],
        adjacent(current, next),
        current == from ==> d == 1,
        current != from ==> inside(world, current) && visited[cell(world, current)] && d == dist[cell(
            world,
            current,
        )] + 1,
        1 <= d <= queue.len(),
    ensures
        search_state(
            world,
            from,
            target,
            visited.update(cell(world, next), true),
            parent.update(cell(world, next), current),
            dist.update(cell(world, next), d),
            queue.push(next),
        ),
{
    let c = cell(world, next);
    let v2 = visited.update(c, true);
    let p2 = parent.update(c, current);
    let d2 = dist.update(c, d);
    let q2 = queue.push(next);
    let n = world.width * world.height;
    lemma_cell_bounds(next.x as int, next.y as int, world.width as int, world.height as int);
    lemma_cell_bounds(target.x as int, target.y as int, world.width as int, world.height as int);
    if current != from {
        lemma_cell_bounds(current.x as int, current.y as int, world.width as int, world.height as int);
    }
    assert forall|i: int| 1 <= i < q2.len() implies queued_ok(world, from, target, v2, p2, d2, #[trigger] q2[i], i) by {
        if i < queue.len() {
            let t = queue[i];
            assert(queued_ok(world, from, target, visited, parent, dist, t, i));
            lemma_cell_bounds(t.x as int, t.y as int, world.width as int, world.height as int);
            assert(cell(world, t) != c);
            if parent[cell(world, t)] != from {
                let pt = parent[cell(world, t)];
                lemma_cell_bounds(pt.x as int, pt.y as int, world.width as int, world.height as int);
                assert(cell(world, pt) != c);
            }
        } else {
            assert(q2[i] == next);
            if current != from {
                assert(cell(world, current) != c);
            }
        }
    }
    assert forall|i: int, j: int|
        1 <= i < q2.len() && 1 <= j < q2.len() && i != j implies cell(world, #[trigger] q2[i]) != cell(world, #[trigger] q2[j]) by {
        if i < queue.len() && j < queue.len() {
        } else if i < queue.len() {
            assert(queued_ok(world, from, target, visited, parent, dist, queue[i], i));
        } else {
            assert(queued_ok(world, from, target, visited, parent, dist, queue[j], j));
        }
    }
    assert forall|cc: int| 0 <= cc < n && #[trigger] v2[cc] implies exists|i: int|
        1 <= i < q2.len() && cell(world, #[trigger] q2[i]) == cc by {
        if cc == c {
            assert(cell(world, q2[queue.len() as int]) == cc);
        } else {
            assert(visited[cc]);
            let i = choose|i: int| 1 <= i < queue.len() && cell(world, #[trigger] queue[i]) == cc;
            assert(q2[i] == queue[i]);
        }
    }
    assert(cell(world, target) != c) by {
        if cell(world, target) == c {
            lemma_same_cell(world, target, next);
        }
    }
}

proof fn lemma_visited_is_queued(
    world: WorldState,
    from: TilePos,
    target: TilePos,
    visited: Seq<bool>,
    parent: Seq<TilePos>,
    dist: Seq<usize>,
    queue: Seq<TilePos>,
    tile: TilePos,
) -> (i: int)
    requires
        grid_fits(world),
        search_state(world, from, target, visited, parent, dist, queue),
        inside(world, tile),
        visited[cell(world, tile)],
    ensures
        1 <= i < queue.len(),
        queue[i] == tile,
{
    lemma_cell_bounds(tile.x as int, tile.y as int, world.width as int, world.height as int);
    let c = cell(world, tile);
    assert(visited[c]);
    let i = choose|i: int| 1 <= i < queue.len() && cell(world, #[trigger] queue[i]) == c;
    lemma_same_cell(world, queue[i], tile);
    i
}

proof fn lemma_queue_bounded(
    world: WorldState,
    from: TilePos,
    target: TilePos,
    visited: Seq<bool>,
    parent: Seq<TilePos>,
    dist: Seq<usize>,
    queue: Seq<TilePos>,
)
    requires
        grid_fits(world),
        search_state(world, from, target, visited, parent, dist, queue),
    ensures
        queue.len() <= world.width * world.height + 1,
{
    let n = (world.width * world.height) as usize;
    let cells = Seq::new((queue.len() - 1) as nat, |i: int| cell(world, queue[i + 1]) as usize);
    assert forall|i: int| 0 <= i < cells.len() implies cells[i] < n by {
        let t = queue[i + 1];
        lemma_cell_bounds(t.x as int, t.y as int, world.width as int, world.height as int);
    }
    assert forall|i: int, j: int| 0 <= i < cells.len() && 0 <= j < cells.len() && i != j implies cells[i] != cells[j] by {
        let a = queue[i + 1];
        let b = queue[j + 1];
        lemma_cell_bounds(a.x as int, a.y as int, world.width as int, world.height as int);
        lemma_cell_bounds(b.x as int, b.y as int, world.width as int, world.height as int);
    }
    lemma_distinct_cells_bounded(cells, n);
}

/// Every tile along a route from the start has been reached, when every
/// queued tile has been expanded.
proof fn lemma_route_stays_reached(
    world: WorldState,
    from: TilePos,
    target: TilePos,
    visited: Seq<bool>,
    parent: Seq<TilePos>,
    dist: Seq<usize>,
    queue: Seq<TilePos>,
    steps: Seq<TilePos>,
    k: int,
)
    requires
        grid_fits(world),
        search_state(world, from, target, visited, parent, dist, queue),
        forall|i: int| 0 <= i < queue.len() ==> expanded(world, target, from, visited, dist, #[trigger] queue[i]),
        is_route(world, from, target, steps),
        0 <= k < steps.len(),
    ensures
        steps[k] == from || (inside(world, steps[k]) && visited[cell(world, steps[k])]),
    decreases k,
{
    if k > 0 {
        lemma_route_stays_reached(world, from, target, visited, parent, dist, queue, steps, k - 1);
        let here = steps[k - 1];
        let next = steps[k];
        assert(adjacent(steps[k - 1], steps[(k - 1) + 1]));
        assert(enterable(world, target, steps[k]));
        let i = if here == from {
            0int
        } else {
            lemma_visited_is_queued(world, from, target, visited, parent, dist, queue, here)
        };
        assert(queue[i] == here);
        assert(expanded(world, target, from, visited, dist, queue[i]));
        let j = lemma_adjacent_is_neighbour(here, next);
        assert(neighbour_done(world, target, from, visited, dist, here, j));
        assert(tile_at(here.x + offset_x(j), here.y + offset_y(j)) == next);
    }
}

/// Once every queued tile is expanded, the start and the reached tiles are
/// closed under walkable steps, so a route to the unreached target cannot exist.
proof fn lemma_exhausted_search_has_no_route(
    world: WorldState,
    from: TilePos,
    target: TilePos,
    visited: Seq<bool>,
    parent: Seq<TilePos>,
    dist: Seq<usize>,
    queue: Seq<TilePos>,
    steps: Seq<TilePos>,
)
    requires
        grid_fits(world),
        from != target,
        inside(world, target),
        search_state(world, from, target, visited, parent, dist, queue),
        forall|i: int| 0 <= i < queue.len() ==> expanded(world, target, from, visited, dist, #[trigger] queue[i]),
    ensures
        !is_route(world, from, target, steps),
{
    if is_route(world, from, target, steps) {
        lemma_route_stays_reached(world, from, target, visited, parent, dist, queue, steps, steps.len() - 1);
    }
}

/// Pushing a tile reached one move beyond the frontier keeps the queue layered.
proof fn lemma_push_layered(
    world: WorldState,
    from: TilePos,
    target: TilePos,
    visited: Seq<bool>,
    parent: Seq<TilePos>,
    dist: Seq<usize>,
    queue: Seq<TilePos>,
    front: int,
    next: TilePos,
    d: usize,
)
    requires
        grid_fits(world),
        search_state(world, from, target, visited, parent, dist, queue),
        layered(world, from, dist, queue, front),
        inside(world, next),
        next != from,
        !visited[cell(world, next)],
        d == front + 1,
    ensures
        layered(world, from, dist.update(cell(world, next), d), queue.push(next), front),
{
    let c = cell(world, next);
    let d2 = dist.update(c, d);
    let q2 = queue.push(next);
    lemma_cell_bounds(next.x as int, next.y as int, world.width as int, world.height as int);
    assert forall|j: int| 0 <= j < queue.len() implies dist_of(world, from, d2, #[trigger] q2[j]) == dist_of(
        world,
        from,
        dist,
        queue[j],
    ) by {
        assert(q2[j] == queue[j]);
        if j >= 1 {
            let t = queue[j];
            assert(queued_ok(world, from, target, visited, parent, dist, t, j));
            lemma_cell_bounds(t.x as int, t.y as int, world.width as int, world.height as int);
            assert(cell(world, t) != c);
        } else {
            assert(queue[0] == from);
        }
    }
    assert(dist_of(world, from, d2, q2[queue.len() as int]) == d);
    assert forall|i: int, j: int| 0 <= i <= j < q2.len() implies dist_of(world, from, d2, #[trigger] q2[i]) <= dist_of(
        world,
        from,
        d2,
        #[trigger] q2[j],
    ) by {
        if j < queue.len() {
            assert(dist_of(world, from, dist, queue[i]) <= dist_of(world, from, dist, queue[j]));
        } else if i < queue.len() {
            assert(dist_of(world, from, dist, queue[i]) <= front + 1);
        }
    }
    assert forall|j: int| 0 <= j < q2.len() implies dist_of(world, from, d2, #[trigger] q2[j]) <= front + 1 by {
        if j < queue.len() {
            assert(dist_of(world, from, dist, queue[j]) <= front + 1);
        }
    }
}

/// No tile's lower bound exceeds one move beyond the frontier.
proof fn lemma_bound_below_front(
    world: WorldState,
    from: TilePos,
    target: TilePos,
    visited: Seq<bool>,
    parent: Seq<TilePos>,
    dist: Seq<usize>,
    queue: Seq<TilePos>,
    front: int,
    t: TilePos,
)
    requires
        grid_fits(world),
        search_state(world, from, target, visited, parent, dist, queue),
        layered(world, from, dist, queue, front),
    ensures
        lower_bound(world, from, visited, dist, front, t) <= front + 1,
{
    if t != from && inside(world, t) && visited[cell(world, t)] {
        let i = lemma_visited_is_queued(world, from, target, visited, parent, dist, queue, t);
        assert(dist_of(world, from, dist, queue[i]) <= front + 1);
    }
}

/// One move along a walk raises the lower bound by at most one.
proof fn lemma_bound_step(
    world: WorldState,
    from: TilePos,
    target: TilePos,
    visited: Seq<bool>,
    parent: Seq<TilePos>,
    dist: Seq<usize>,
    queue: Seq<TilePos>,
    index: int,
    a: TilePos,
    b: TilePos,
)
    requires
        grid_fits(world),
        inside(world, target),
        from != target,
        search_state(world, from, target, visited, parent, dist, queue),
        0 <= index < queue.len(),
        forall|i: int| 0 <= i < index ==> expanded(world, target, from, visited, dist, #[trigger] queue[i]),
        layered(world, from, dist, queue, dist_of(world, from, dist, queue[index])),
        adjacent(a, b),
        enterable(world, target, b),
    ensures
        lower_bound(world, from, visited, dist, dist_of(world, from, dist, queue[index]), b) <= lower_bound(
            world,
            from,
            visited,
            dist,
            dist_of(world, from, dist, queue[index]),
            a,
        ) + 1,
{
    let front = dist_of(world, from, dist, queue[index]);
    lemma_bound_below_front(world, from, target, visited, parent, dist, queue, front, b);
    let la = lower_bound(world, from, visited, dist, front, a);
    if la < front {
        let ia: int = if a == from {
            0
        } else {
            lemma_visited_is_queued(world, from, target, visited, parent, dist, queue, a)
        };
        assert(queue[ia] == a);
        assert(dist_of(world, from, dist, a) == la);
        if ia >= index {
            assert(dist_of(world, from, dist, queue[index]) <= dist_of(world, from, dist, queue[ia]));
        }
        assert(expanded(world, target, from, visited, dist, queue[ia]));
        let k = lemma_adjacent_is_neighbour(a, b);
        assert(neighbour_done(world, target, from, visited, dist, a, k));
        assert(tile_at(a.x + offset_x(k), a.y + offset_y(k)) == b);
        assert(inside(world, b));
    }
}

/// Along any walk from the start, the tile `k` moves in has a lower bound of
/// at most `k`.
proof fn lemma_route_bound(
    world: WorldState,
    from: TilePos,
    target: TilePos,
    visited: Seq<bool>,
    parent: Seq<TilePos>,
    dist: Seq<usize>,
    queue: Seq<TilePos>,
    index: int,
    steps: Seq<TilePos>,
    k: int,
)
    requires
        grid_fits(world),
        inside(world, target),
        from != target,
        search_state(world, from, target, visited, parent, dist, queue),
        0 <= index < queue.len(),
        forall|i: int| 0 <= i < index ==> expanded(world, target, from, visited, dist, #[trigger] queue[i]),
        layered(world, from, dist, queue, dist_of(world, from, dist, queue[index])),
        is_route(world, from, target, steps),
        0 <= k < steps.len(),
    ensures
        lower_bound(world, from, visited, dist, dist_of(world, from, dist, queue[index]), steps[k]) <= k,
    decreases k,
{
    if k > 0 {
        lemma_route_bound(world, from, target, visited, parent, dist, queue, index, steps, k - 1);
        assert(adjacent(steps[k - 1], steps[(k - 1) + 1]));
        assert(enterable(world, target, steps[k]));
        lemma_bound_step(world, from, target, visited, parent, dist, queue, index, steps[k - 1], steps[k]);
    }
}

/// When the target turns up next to the tile being expanded, no walk to it
/// is shorter than the one through that tile.
proof fn lemma_found_is_shortest(
    world: WorldState,
    from: TilePos,
    target: TilePos,
    visited: Seq<bool>,
    parent: Seq<TilePos>,
    dist: Seq<usize>,
    queue: Seq<TilePos>,
    index: int,
)
    requires
        grid_fits(world),
        inside(world, target),
        from != target,
        search_state(world, from, target, visited, parent, dist, queue),
        0 <= index < queue.len(),
        forall|i: int| 0 <= i < index ==> expanded(world, target, from, visited, dist, #[trigger] queue[i]),
        layered(world, from, dist, queue, dist_of(world, from, dist, queue[index])),
    ensures
        forall|other: Seq<TilePos>|
            #[trigger] is_route(world, from, target, other) ==> dist_of(world, from, dist, queue[index]) + 2
                <= other.len(),
{
    let front = dist_of(world, from, dist, queue[index]);
    assert forall|other: Seq<TilePos>| #[trigger] is_route(world, from, target, other) implies front + 2
        <= other.len() by {
        lemma_route_bound(world, from, target, visited, parent, dist, queue, index, other, other.len() - 1);
        assert(lower_bound(world, from, visited, dist, front, target) == front + 1);
    }
}

/// The neighbour coordinates of `tile` in the fixed order left, right, up, down.
fn neighbour_coords(tile: TilePos, k: usize) -> (xy: (i64, i64))
    requires
        k < 4,
    ensures
        xy.0 == tile.x + offset_x(k as int),
        xy.1 == tile.y + offset_y(k as int),
{
    let x = tile.x as i64;
    let y = tile.y as i64;
    if k == 0 {
        (x - 1, y)
    } else if k == 1 {
        (x + 1, y)
    } else if k == 2 {
        (x, y - 1)
    } else {
        (x, y + 1)
    }
}

proof fn lemma_done_monotone(
    world: WorldState,
    target: TilePos,
    from: TilePos,
    before: Seq<bool>,
    after: Seq<bool>,
    dist_before: Seq<usize>,
    dist_after: Seq<usize>,
    tile: TilePos,
    k: int,
)
    requires
        grid_fits(world),
        before.len() == after.len(),
        dist_before.len() == before.len(),
        dist_after.len() == before.len(),
        forall|c: int|
            0 <= c < before.len() && #[trigger] before[c] ==> after[c] && dist_after[c] == dist_before[c],
        before.len() == world.width * world.height,
        tile == from || (inside(world, tile) && before[cell(world, tile)]),
        neighbour_done(world, target, from, before, dist_before, tile, k),
    ensures
        neighbour_done(world, target, from, after, dist_after, tile, k),
{
    let x = tile.x + offset_x(k);
    let y = tile.y + offset_y(k);
    if tile != from {
        lemma_cell_bounds(tile.x as int, tile.y as int, world.width as int, world.height as int);
        assert(before[cell(world, tile)]);
    }
    if 0 <= x < world.width && 0 <= y < world.height {
        lemma_cell_bounds(x, y, world.width as int, world.height as int);
        let c = cell(world, tile_at(x, y));
        assert(before[c] ==> after[c]);
    }
}

proof fn lemma_expanded_monotone(
    world: WorldState,
    target: TilePos,
    from: TilePos,
    before: Seq<bool>,
    after: Seq<bool>,
    dist_before: Seq<usize>,
    dist_after: Seq<usize>,
    tile: TilePos,
)
    requires
        grid_fits(world),
        before.len() == after.len(),
        dist_before.len() == before.len(),
        dist_after.len() == before.len(),
        forall|c: int|
            0 <= c < before.len() && #[trigger] before[c] ==> after[c] && dist_after[c] == dist_before[c],
        before.len() == world.width * world.height,
        tile == from || (inside(world, tile) && before[cell(world, tile)]),
        expanded(world, target, from, before, dist_before, tile),
    ensures
        expanded(world, target, from, after, dist_after, tile),
{
    assert forall|k: int| 0 <= k < 4 implies #[trigger] neighbour_done(world, target, from, after, dist_after, tile, k) by {
        assert(neighbour_done(world, target, from, before, dist_before, tile, k));
        lemma_done_monotone(world, target, from, before, after, dist_before, dist_after, tile, k);
    }
}

/// Walks parent links from `current` back to `from` and returns the route
/// from `from` through `current` to `target`.
fn rebuild_route(
    world: &WorldState,
    from: TilePos,
    target: TilePos,
    visited: &Vec<bool>,
    parent: &Vec<TilePos>,
    dist: &Vec<usize>,
    queue: &Vec<TilePos>,
    current: TilePos,
) -> (steps: Vec<TilePos>)
    requires
        grid_fits(*world),
        from != target,
        inside(*world, target),
        search_state(*world, from, target, visited@, parent@, dist@, queue@),
        current == from || (inside(*world, current) && visited@[cell(*world, current)]),
        adjacent(current, target),
    ensures
        is_route(*world, from, target, steps@),
        steps@.len() == dist_of(*world, from, dist@, current) + 2,
{
    let mut reversed: Vec<TilePos> = Vec::new();
    reversed.push(target);
    reversed.push(current);
    let mut cur = current;
    let ghost mut remaining: int = 0;
    while cur != from
        invariant
            grid_fits(*world),
            from != target,
            inside(*world, target),
            search_state(*world, from, target, visited@, parent@, dist@, queue@),
            cur == from || (inside(*world, cur) && visited@[cell(*world, cur)]),
            reversed@.len() >= 2,
            reversed@[0] == target,
            reversed@[reversed@.len() - 1] == cur,
            forall|i: int| 0 <= i < reversed@.len() - 1 ==> #[trigger] adjacent(reversed@[i + 1], reversed@[i]),
            forall|i: int| 0 <= i < reversed@.len() - 1 ==> enterable(*world, target, #[trigger] reversed@[i]),
            reversed@.len() + dist_of(*world, from, dist@, cur) == dist_of(*world, from, dist@, current) + 2,
        decreases (if cur == from { 0 } else { dist@[cell(*world, cur)] as int }),
    {
        let ghost i = lemma_visited_is_queued(*world, from, target, visited@, parent@, dist@, queue@, cur);
        let ghost t = queue@[i];
        assert(t == cur);
        let c = cell_index(world, cur);
        let p = parent[c];
        assert(passable(*world, cur));
        reversed.push(p);
        cur = p;
    }
    let mut steps: Vec<TilePos> = Vec::new();
    let mut k: usize = reversed.len();
    while k > 0
        invariant
            k <= reversed@.len(),
            reversed@.len() >= 2,
            steps@.len() == reversed@.len() - k,
            forall|j: int| 0 <= j < steps@.len() ==> steps@[j] == reversed@[reversed@.len() - 1 - j],
        decreases k,
    {
        k = k - 1;
        steps.push(reversed[k]);
    }
    let ghost len = reversed@.len();
    assert(steps@.len() == len);
    assert(len == dist_of(*world, from, dist@, current) + 2);
    assert forall|j: int| 0 <= j < steps@.len() - 1 implies #[trigger] adjacent(steps@[j], steps@[j + 1]) by {
        assert(steps@[j] == reversed@[len - 1 - j]);
        assert(steps@[j + 1] == reversed@[len - 2 - j]);
        assert(adjacent(reversed@[(len - 2 - j) + 1], reversed@[len - 2 - j]));
    }
    assert forall|j: int| 1 <= j < steps@.len() implies enterable(*world, target, #[trigger] steps@[j]) by {
        assert(steps@[j] == reversed@[len - 1 - j]);
    }
    steps
}

/// Breadth-first search from `from` to a different, inside `target`.
fn search_route(world: &WorldState, from: TilePos, target: TilePos) -> (route: Option<Vec<TilePos>>)
    requires
        grid_fits(*world),
        inside(*world, target),
        from != target,
    ensures
        route matches Some(steps) ==> shortest_route(*world, from, target, steps@),
        route is None ==> !reachable(*world, from, target),
{
    let w = world.width;
    let h = world.height;
    let n = w * h;
    let mut visited: Vec<bool> = Vec::new();
    let mut parent: Vec<TilePos> = Vec::new();
    let mut dist: Vec<usize> = Vec::new();
    let mut c: usize = 0;
    while c < n
        invariant
            n == w * h,
            c <= n,
            visited@.len() == c,
            parent@.len() == c,
            dist@.len() == c,
            forall|j: int| 0 <= j < c ==> !visited@[j],
        decreases n - c,
    {
        visited.push(false);
        parent.push(from);
        dist.push(0);
        c = c + 1;
    }
    let mut queue: Vec<TilePos> = Vec::new();
    queue.push(from);
    proof {
        lemma_cell_bounds(target.x as int, target.y as int, w as int, h as int);
    }
    let mut head: usize = 0;
    while head < queue.len()
        invariant
            grid_fits(*world),
            inside(*world, target),
            from != target,
            n == world.width * world.height,
            w == world.width,
            h == world.height,
            head <= queue@.len(),
            search_state(*world, from, target, visited@, parent@, dist@, queue@),
            forall|i: int| 0 <= i < head ==> expanded(*world, target, from, visited@, dist@, #[trigger] queue@[i]),
            layered(
                *world,
                from,
                dist@,
                queue@,
                dist_of(*world, from, dist@, queue@[if head == 0 { 0int } else { head - 1 }]),
            ),
        decreases n + 1 - head,
    {
        proof {
            lemma_queue_bounded(*world, from, target, visited@, parent@, dist@, queue@);
        }
        let current = queue[head];
        let ghost index = head as int;
        let ghost front = dist_of(*world, from, dist@, current);
        proof {
            let h0 = if head == 0 { 0int } else { head - 1 };
            assert(dist_of(*world, from, dist@, queue@[h0]) <= dist_of(*world, from, dist@, queue@[index]));
            assert forall|j: int| 0 <= j < queue@.len() implies dist_of(*world, from, dist@, #[trigger] queue@[j])
                <= front + 1 by {
                assert(dist_of(*world, from, dist@, queue@[j]) <= dist_of(*world, from, dist@, queue@[h0]) + 1);
            }
            if index >= 1 {
                assert(queued_ok(*world, from, target, visited@, parent@, dist@, queue@[index], index));
            }
        }
        head = head + 1;
        let mut k: usize = 0;
        while k < 4
            invariant
                grid_fits(*world),
                inside(*world, target),
                from != target,
                n == world.width * world.height,
                w == world.width,
                h == world.height,
                1 <= head <= queue@.len(),
                index == head - 1,
                queue@[index] == current,
                current == from || (inside(*world, current) && visited@[cell(*world, current)]),
                front == dist_of(*world, from, dist@, current),
                queue@.len() <= n + 1,
                k <= 4,
                search_state(*world, from, target, visited@, parent@, dist@, queue@),
                forall|i: int| 0 <= i < index ==> expanded(*world, target, from, visited@, dist@, #[trigger] queue@[i]),
                forall|j: int| 0 <= j < k ==> #[trigger] neighbour_done(*world, target, from, visited@, dist@, current, j),
                layered(*world, from, dist@, queue@, front),
            decreases 4 - k,
        {
            let (nx, ny) = neighbour_coords(current, k);
            let ghost kk = k as int;
            k = k + 1;
            if nx < 0 || ny < 0 || nx >= w as i64 || ny >= h as i64 {
                assert(neighbour_done(*world, target, from, visited@, dist@, current, kk));
                continue;
            }
            let next = TilePos::new(nx as i32, ny as i32);
            assert(next == tile_at(current.x + offset_x(kk), current.y + offset_y(kk)));
            if next == from {
                assert(neighbour_done(*world, target, from, visited@, dist@, current, kk));
                continue;
            }
            let ci = cell_index(world, next);
            if visited[ci] {
                proof {
                    let i = lemma_visited_is_queued(*world, from, target, visited@, parent@, dist@, queue@, next);
                    assert(dist_of(*world, from, dist@, queue@[i]) <= front + 1);
                }
                assert(neighbour_done(*world, target, from, visited@, dist@, current, kk));
                continue;
            }
            if next != target && is_blocked(world, next) {
                assert(neighbour_done(*world, target, from, visited@, dist@, current, kk));
                continue;
            }
            if next == target {
                proof {
                    if current != from {
                        assert(queued_ok(*world, from, target, visited@, parent@, dist@, queue@[index], index));
                    }
                    lemma_found_is_shortest(*world, from, target, visited@, parent@, dist@, queue@, index);
                }
                return Some(rebuild_route(world, from, target, &visited, &parent, &dist, &queue, current));
            }
            let d: usize = if current == from {
                1
            } else {
                proof {
                    assert(queued_ok(*world, from, target, visited@, parent@, dist@, queue@[index], index));
                }
                let cc = cell_index(world, current);
                dist[cc] + 1
            };
            let ghost before = visited@;
            let ghost dist_before = dist@;
            let ghost parent_before = parent@;
            let ghost queue_before = queue@;
            proof {
                if current != from {
                    assert(queued_ok(*world, from, target, visited@, parent@, dist@, queue@[index], index));
                }
                lemma_discover(*world, from, target, visited@, parent@, dist@, queue@, current, next, d);
                lemma_push_layered(*world, from, target, visited@, parent@, dist@, queue@, front, next, d);
            }
            visited.set(ci, true);
            parent.set(ci, current);
            dist.set(ci, d);
            queue.push(next);
            proof {
                lemma_queue_bounded(*world, from, target, visited@, parent@, dist@, queue@);
                assert forall|cc: int| 0 <= cc < before.len() && #[trigger] before[cc] implies visited@[cc]
                    && dist@[cc] == dist_before[cc] by {
                    assert(cc != ci as int);
                }
                if current != from {
                    lemma_cell_bounds(current.x as int, current.y as int, w as int, h as int);
                    assert(cell(*world, current) != ci as int);
                }
                assert(front == dist_of(*world, from, dist@, current));
                assert forall|i: int| 0 <= i < index implies expanded(*world, target, from, visited@, dist@, #[trigger] queue@[i]) by {
                    assert(expanded(*world, target, from, before, dist_before, queue@[i]));
                    if i >= 1 {
                        assert(queue@[i] == queue_before[i]);
                        assert(queued_ok(*world, from, target, before, parent_before, dist_before, queue_before[i], i));
                    }
                    lemma_expanded_monotone(*world, target, from, before, visited@, dist_before, dist@, queue@[i]);
                }
                assert forall|j: int| 0 <= j < k implies #[trigger] neighbour_done(*world, target, from, visited@, dist@, current, j) by {
                    if j < kk {
                        lemma_done_monotone(*world, target, from, before, visited@, dist_before, dist@, current, j);
                    }
                }
            }
        }
        proof {
            assert forall|j: int| 0 <= j < 4 implies #[trigger] neighbour_done(*world, target, from, visited@, dist@, current, j) by {}
            assert(expanded(*world, target, from, visited@, dist@, queue@[index]));
        }
    }
    proof {
        assert forall|steps: Seq<TilePos>| !is_route(*world, from, target, steps) by {
            lemma_exhausted_search_has_no_route(*world, from, target, visited@, parent@, dist@, queue@, steps);
        }
    }
    None
}

/// Why a route could not be planned.
#[derive(Debug, Clone, Copy, PartialEq, Eq, Structural)]
pub enum RouteFailure {
    NoPath,
}

pub open spec fn route_failure_label(failure: RouteFailure) -> Seq<char> {
    match failure {
        RouteFailure::NoPath => "obstructions seal the way"@,
    }
}

impl RouteFailure {
    pub fn label(self) -> (label: &'static str)
        ensures
            label@ == route_failure_label(self),
    {
        match self {
            RouteFailure::NoPath => "obstructions seal the way",
        }
    }
}

/// A planned walk: every tile from the start to the destination.
#[derive(Debug, Clone)]
pub struct RoutePlan {
    steps: Vec<TilePos>,
}

impl RoutePlan {
    pub closed spec fn view_steps(&self) -> Seq<TilePos> {
        self.steps@
    }

    /// Every tile of the walk, the start first and the destination last.
    pub fn steps(&self) -> (steps: &Vec<TilePos>)
        ensures
            steps@ == self.view_steps(),
    {
        &self.steps
    }

    /// The number of moves of the walk.
    pub fn step_count(&self) -> (count: usize)
        requires
            self.view_steps().len() >= 1,
        ensures
            count == self.view_steps().len() - 1,
    {
        self.steps.len() - 1
    }

    /// The first tile to move to, if the walk moves at all.
    pub fn next_step(&self) -> (next: Option<TilePos>)
        ensures
            next == if self.view_steps().len() >= 2 {
                Some(self.view_steps()[1])
            } else {
                None::<TilePos>
            },
    {
        if self.steps.len() >= 2 {
            Some(self.steps[1])
        } else {
            None
        }
    }
}

/// Plans a walk from `from` to `target` with the fewest moves (breadth
/// first, neighbours tried left, right, up, down); standing on the target is
/// a walk of no moves.
pub fn plan_route(session: &GameSession, from: TilePos, target: TilePos) -> (plan: Result<RoutePlan, RouteFailure>)
    requires
        grid_fits(session.world),
    ensures
        from == target ==> (plan matches Ok(p) && p.view_steps() == seq![from]),
        from != target ==> match plan {
            Ok(p) => shortest_route(session.world, from, target, p.view_steps()),
            Err(failure) => failure == RouteFailure::NoPath && !reachable(session.world, from, target),
        },
{
    if from == target {
        let mut steps: Vec<TilePos> = Vec::new();
        steps.push(from);
        assert(steps@ =~= seq![from]);
        return Ok(RoutePlan { steps });
    }
    let world = &session.world;
    if !(target.x >= 0 && target.y >= 0 && (target.x as i64) < world.width as i64 && (target.y as i64)
        < world.height as i64) {
        return Err(RouteFailure::NoPath);
    }
    match search_route(world, from, target) {
        Some(steps) => Ok(RoutePlan { steps }),
        None => Err(RouteFailure::NoPath),
    }
}

/// Neighbour `k` of `from`, in the order left, right, up, down.
pub open spec fn neighbour_of(from: TilePos, k: int) -> TilePos {
    tile_at(from.x + offset_x(k), from.y + offset_y(k))
}

/// Neighbour `k` of `from` lies inside the world.
pub open spec fn neighbour_inside(world: WorldState, from: TilePos, k: int) -> bool {
    &&& 0 <= from.x + offset_x(k) < world.width
    &&& 0 <= from.y + offset_y(k) < world.height
}

/// Some walk with the fewest moves from `from` to `target` steps first onto `t`.
pub open spec fn starts_shortest(world: WorldState, from: TilePos, target: TilePos, t: TilePos) -> bool {
    exists|steps: Seq<TilePos>| #[trigger] shortest_route(world, from, target, steps) && steps.len() >= 2 && steps[1] == t
}

/// `n` is the first neighbour of `from`, in the order left, right, up, down,
/// that begins a walk to `target` with the fewest moves.
pub open spec fn first_shortest_step(world: WorldState, from: TilePos, target: TilePos, n: TilePos) -> bool {
    exists|k: int|
        0 <= k < 4 && neighbour_inside(world, from, k) && n == neighbour_of(from, k) && starts_shortest(
            world,
            from,
            target,
            n,
        ) && forall|j: int|
            0 <= j < k && neighbour_inside(world, from, j) ==> !starts_shortest(
                world,
                from,
                target,
                #[trigger] neighbour_of(from, j),
            )
}

/// The rest of a walk after its first move is a walk from its second tile.
proof fn lemma_route_tail(world: WorldState, from: TilePos, target: TilePos, steps: Seq<TilePos>)
    requires
        is_route(world, from, target, steps),
        steps.len() >= 2,
    ensures
        is_route(world, steps[1], target, steps.skip(1)),
{
    let t = steps.skip(1);
    assert forall|i: int| 0 <= i < t.len() - 1 implies #[trigger] adjacent(t[i], t[i + 1]) by {
        assert(adjacent(steps[i + 1], steps[(i + 1) + 1]));
    }
    assert forall|i: int| 1 <= i < t.len() implies enterable(world, target, #[trigger] t[i]) by {
        assert(enterable(world, target, steps[i + 1]));
    }
}

/// One move onto an enterable neighbour followed by a walk from there is a walk.
proof fn lemma_route_prepend(world: WorldState, from: TilePos, n: TilePos, target: TilePos, steps: Seq<TilePos>)
    requires
        is_route(world, n, target, steps),
        adjacent(from, n),
        enterable(world, target, n),
    ensures
        is_route(world, from, target, seq![from] + steps),
{
    let q = seq![from] + steps;
    assert(q[1] == n);
    assert forall|i: int| 0 <= i < q.len() - 1 implies #[trigger] adjacent(q[i], q[i + 1]) by {
        if i >= 1 {
            assert(q[i] == steps[i - 1]);
            assert(q[i + 1] == steps[(i - 1) + 1]);
            assert(adjacent(steps[i - 1], steps[(i - 1) + 1]));
        }
    }
    assert forall|i: int| 1 <= i < q.len() implies enterable(world, target, #[trigger] q[i]) by {
        if i >= 2 {
            assert(q[i] == steps[i - 1]);
        }
    }
}

/// The second tile of a walk is an inside neighbour of its start.
proof fn lemma_second_is_neighbour(world: WorldState, from: TilePos, target: TilePos, steps: Seq<TilePos>) -> (k: int)
    requires
        is_route(world, from, target, steps),
        steps.len() >= 2,
    ensures
        0 <= k < 4,
        neighbour_inside(world, from, k),
        steps[1] == neighbour_of(from, k),
        enterable(world, target, steps[1]),
{
    assert(adjacent(steps[0], steps[0int + 1]));
    assert(enterable(world, target, steps[1]));
    lemma_adjacent_is_neighbour(from, steps[1])
}

/// The first tile to step onto on a walk from `from` to `target` with the
/// fewest moves, or `from` itself when already there. Where several walks
/// are equally short, it is the first of the neighbours left, right, up,
/// down that begins one of them.
pub fn next_step(session: &GameSession, from: TilePos, target: TilePos) -> (next: Option<TilePos>)
    requires
        grid_fits(session.world),
    ensures
        from == target ==> next == Some(from),
        from != target ==> (next is Some <==> reachable(session.world, from, target)),
        from != target ==> (next matches Some(n) ==> first_shortest_step(session.world, from, target, n)),
{
    if from == target {
        return Some(from);
    }
    let world = &session.world;
    let w = world.width;
    let h = world.height;
    let ghost wd = session.world;
    let mut best: Option<(TilePos, usize)> = None;
    let ghost mut best_k: int = 0;
    let ghost mut best_route: Seq<TilePos> = Seq::empty();
    let mut k: usize = 0;
    while k < 4
        invariant
            grid_fits(wd),
            wd == session.world,
            *world == wd,
            w == wd.width,
            h == wd.height,
            from != target,
            k <= 4,
            match best {
                None => forall|j: int, r: Seq<TilePos>|
                    0 <= j < k && neighbour_inside(wd, from, j) && enterable(wd, target, neighbour_of(from, j))
                        ==> !#[trigger] is_route(wd, neighbour_of(from, j), target, r),
                Some((n, len)) => {
                    &&& 0 <= best_k < k
                    &&& neighbour_inside(wd, from, best_k)
                    &&& n == neighbour_of(from, best_k)
                    &&& enterable(wd, target, n)
                    &&& is_route(wd, n, target, best_route)
                    &&& best_route.len() == len
                    &&& forall|j: int, r: Seq<TilePos>|
                        0 <= j < k && neighbour_inside(wd, from, j) && enterable(wd, target, neighbour_of(from, j))
                            && #[trigger] is_route(wd, neighbour_of(from, j), target, r) ==> len <= r.len()
                                && (j < best_k ==> len < r.len())
                },
            },
        decreases 4 - k,
    {
        let (nx, ny) = neighbour_coords(from, k);
        let ghost kk = k as int;
        k = k + 1;
        if nx < 0 || ny < 0 || nx >= w as i64 || ny >= h as i64 {
            continue;
        }
        let n = TilePos::new(nx as i32, ny as i32);
        assert(n == neighbour_of(from, kk));
        if n != target && is_blocked(world, n) {
            assert(!enterable(wd, target, neighbour_of(from, kk)));
            continue;
        }
        let plan = plan_route(session, n, target);
        let p = match plan {
            Ok(p) => p,
            Err(_) => {
                proof {
                    assert(n != target);
                    assert(!reachable(wd, n, target));
                    assert forall|r: Seq<TilePos>| !is_route(wd, neighbour_of(from, kk), target, r) by {
                        if is_route(wd, n, target, r) {
                            assert(reachable(wd, n, target));
                        }
                    }
                }
                continue;
            },
        };
        let len: usize = p.steps().len();
        let ghost r = p.view_steps();
        proof {
            if n == target {
                assert(r == seq![n]);
                assert forall|other: Seq<TilePos>| #[trigger] is_route(wd, n, target, other) implies r.len() <= other.len() by {}
            }
            assert(is_route(wd, n, target, r));
            assert(forall|other: Seq<TilePos>| #[trigger] is_route(wd, n, target, other) ==> r.len() <= other.len());
        }
        let better = match best {
            None => true,
            Some((_, best_len)) => len < best_len,
        };
        if better {
            best = Some((n, len));
            proof {
                best_k = kk;
                best_route = r;
            }
        }
    }
    match best {
        None => {
            proof {
                if reachable(wd, from, target) {
                    let s = choose|s: Seq<TilePos>| is_route(wd, from, target, s);
                    assert(s.len() >= 2) by {
                        if s.len() < 2 {
                            assert(s[0] == s[s.len() - 1]);
                        }
                    }
                    let j = lemma_second_is_neighbour(wd, from, target, s);
                    lemma_route_tail(wd, from, target, s);
                    assert(is_route(wd, neighbour_of(from, j), target, s.skip(1)));
                }
            }
            None
        },
        Some((n, len)) => {
            proof {
                let q = seq![from] + best_route;
                assert(adjacent(from, n)) by {
                    assert(manhattan(from, n) == 1);
                }
                lemma_route_prepend(wd, from, n, target, best_route);
                assert forall|s: Seq<TilePos>| #[trigger] is_route(wd, from, target, s) implies q.len() <= s.len() by {
                    assert(s.len() >= 2) by {
                        if s.len() < 2 {
                            assert(s[0] == s[s.len() - 1]);
                        }
                    }
                    let j = lemma_second_is_neighbour(wd, from, target, s);
                    lemma_route_tail(wd, from, target, s);
                    assert(is_route(wd, neighbour_of(from, j), target, s.skip(1)));
                }
                assert(shortest_route(wd, from, target, q));
                assert(q[1] == n);
                assert(starts_shortest(wd, from, target, n));
                assert forall|j: int| 0 <= j < best_k && neighbour_inside(wd, from, j) implies !starts_shortest(
                    wd,
                    from,
                    target,
                    #[trigger] neighbour_of(from, j),
                ) by {
                    if starts_shortest(wd, from, target, neighbour_of(from, j)) {
                        let s = choose|s: Seq<TilePos>|
                            #[trigger] shortest_route(wd, from, target, s) && s.len() >= 2 && s[1] == neighbour_of(from, j);
                        lemma_route_tail(wd, from, target, s);
                        assert(enterable(wd, target, s[1]));
                        assert(is_route(wd, neighbour_of(from, j), target, s.skip(1)));
                        assert(is_route(wd, from, target, q));
                    }
                }
                assert(first_shortest_step(wd, from, target, n));
            }
            Some(n)
        },
    }
}

/// Whether the necromancer may be sent to `tile`: inside and unobstructed.
pub fn is_valid_destination(session: &GameSession, tile: TilePos) -> (valid: bool)
    requires
        grid_fits(session.world),
    ensures
        valid == passable(session.world, tile),
{
    let world = &session.world;
    tile.x >= 0 && tile.y >= 0 && (tile.x as i64) < world.width as i64 && (tile.y as i64) < world.height as i64
        && !is_blocked(world, tile)
}

/// A walk from `from` to `to` can be planned: it is empty, or a route exists.
pub open spec fn routable(world: WorldState, from: TilePos, to: TilePos) -> bool {
    from == to || reachable(world, from, to)
}

/// Whether a walk from `from` to `to` can be planned.
pub fn route_exists(session: &GameSession, from: TilePos, to: TilePos) -> (ok: bool)
    requires
        grid_fits(session.world),
    ensures
        ok == routable(session.world, from, to),
{
    plan_route(session, from, to).is_ok()
}

/// `a` is nearer to `origin` than `b`: by Manhattan distance, then by row,
/// then by column.
pub open spec fn nearer(origin: TilePos, a: TilePos, b: TilePos) -> bool {
    ||| manhattan(origin, a) < manhattan(origin, b)
    ||| manhattan(origin, a) == manhattan(origin, b) && a.y < b.y
    ||| manhattan(origin, a) == manhattan(origin, b) && a.y == b.y && a.x < b.x
}

/// The tile of `tiles` nearest to `origin`, the first one on a tie.
pub open spec fn nearest_of(tiles: Seq<TilePos>, origin: TilePos) -> Option<TilePos>
    decreases tiles.len(),
{
    if tiles.len() == 0 {
        None
    } else {
        match nearest_of(tiles.drop_last(), origin) {
            None => Some(tiles.last()),
            Some(best) => if nearer(origin, tiles.last(), best) {
                Some(tiles.last())
            } else {
                Some(best)
            },
        }
    }
}

/// The tile of `tiles` a walk from `origin` can reach that is nearest to
/// `origin`, the first one on a tie.
pub open spec fn nearest_routable(world: WorldState, origin: TilePos, tiles: Seq<TilePos>) -> Option<TilePos>
    decreases tiles.len(),
{
    if tiles.len() == 0 {
        None
    } else {
        let best = nearest_routable(world, origin, tiles.drop_last());
        if !routable(world, origin, tiles.last()) {
            best
        } else {
            match best {
                None => Some(tiles.last()),
                Some(b) => if nearer(origin, tiles.last(), b) {
                    Some(tiles.last())
                } else {
                    Some(b)
                },
            }
        }
    }
}

/// The nearest reachable tile of `tiles`, or else the nearest one.
pub open spec fn nearest_or_any(world: WorldState, origin: TilePos, tiles: Seq<TilePos>) -> Option<TilePos> {
    match nearest_routable(world, origin, tiles) {
        Some(t) => Some(t),
        None => nearest_of(tiles, origin),
    }
}

fn nearer_exec(origin: TilePos, a: TilePos, b: TilePos) -> (closer: bool)
    ensures
        closer == nearer(origin, a, b),
{
    let da = tile_distance(origin, a);
    let db = tile_distance(origin, b);
    da < db || da == db && a.y < b.y || da == db && a.y == b.y && a.x < b.x
}

/// The candidate a walk from `origin` can reach that lies nearest to
/// `origin` (by Manhattan distance, then row, then column).
pub fn nearest_reachable(session: &GameSession, origin: TilePos, candidates: &Vec<TilePos>) -> (nearest: Option<TilePos>)
    requires
        grid_fits(session.world),
    ensures
        nearest == nearest_routable(session.world, origin, candidates@),
{
    let mut best: Option<TilePos> = None;
    let mut i: usize = 0;
    while i < candidates.len()
        invariant
            i <= candidates@.len(),
            grid_fits(session.world),
            best == nearest_routable(session.world, origin, candidates@.take(i as int)),
        decreases candidates.len() - i,
    {
        assert(candidates@.take(i as int + 1).drop_last() == candidates@.take(i as int));
        let tile = candidates[i];
        if route_exists(session, origin, tile) {
            best = match best {
                None => Some(tile),
                Some(b) => if nearer_exec(origin, tile, b) {
                    Some(tile)
                } else {
                    Some(b)
                },
            };
        }
        i = i + 1;
    }
    assert(candidates@.take(i as int) == candidates@);
    best
}

/// The candidate nearest to `origin`, reachable or not.
pub fn nearest_tile(origin: TilePos, candidates: &Vec<TilePos>) -> (nearest: Option<TilePos>)
    ensures
        nearest == nearest_of(candidates@, origin),
{
    let mut best: Option<TilePos> = None;
    let mut i: usize = 0;
    while i < candidates.len()
        invariant
            i <= candidates@.len(),
            best == nearest_of(candidates@.take(i as int), origin),
        decreases candidates.len() - i,
    {
        assert(candidates@.take(i as int + 1).drop_last() == candidates@.take(i as int));
        let tile = candidates[i];
        best = match best {
            None => Some(tile),
            Some(b) => if nearer_exec(origin, tile, b) {
                Some(tile)
            } else {
                Some(b)
            },
        };
        i = i + 1;
    }
    assert(candidates@.take(i as int) == candidates@);
    best
}

/// The nearest reachable candidate, or else the nearest candidate.
pub fn nearest_reachable_or_nearest(session: &GameSession, origin: TilePos, candidates: &Vec<TilePos>) -> (nearest:
    Option<TilePos>)
    requires
        grid_fits(session.world),
    ensures
        nearest == nearest_or_any(session.world, origin, candidates@),
{
    match nearest_reachable(session, origin, candidates) {
        Some(t) => Some(t),
        None => nearest_tile(origin, candidates),
    }
}

/// The nearest reachable candidate is a reachable candidate, and no
/// reachable candidate lies nearer to the origin.
pub proof fn lemma_nearest_reachable_is_nearest(world: WorldState, origin: TilePos, tiles: Seq<TilePos>)
    ensures
        nearest_routable(world, origin, tiles) matches Some(t) ==> tiles.contains(t) && routable(world, origin, t)
            && forall|i: int| 0 <= i < tiles.len() && routable(world, origin, tiles[i]) ==> !nearer(origin, #[trigger] tiles[i], t),
        nearest_routable(world, origin, tiles) is None ==> forall|i: int|
            0 <= i < tiles.len() ==> !routable(world, origin, #[trigger] tiles[i]),
    decreases tiles.len(),
{
    if tiles.len() > 0 {
        let rest = tiles.drop_last();
        lemma_nearest_reachable_is_nearest(world, origin, rest);
        assert forall|i: int| 0 <= i < rest.len() implies rest[i] == tiles[i] by {}
        if let Some(t) = nearest_routable(world, origin, tiles) {
            if t != tiles.last() {
                assert(rest.contains(t));
                let k = choose|k: int| 0 <= k < rest.len() && rest[k] == t;
                assert(tiles[k] == t);
            } else {
                assert(tiles[tiles.len() - 1] == t);
            }
        }
    }
}

/// A nearest candidate exists exactly when there is a candidate, and it is one.
pub proof fn lemma_nearest_of_is_candidate(tiles: Seq<TilePos>, origin: TilePos)
    ensures
        nearest_of(tiles, origin) is Some <==> tiles.len() > 0,
        nearest_of(tiles, origin) matches Some(t) ==> tiles.contains(t),
    decreases tiles.len(),
{
    if tiles.len() > 0 {
        let rest = tiles.drop_last();
        lemma_nearest_of_is_candidate(rest, origin);
        if let Some(t) = nearest_of(tiles, origin) {
            if t != tiles.last() {
                let k = choose|k: int| 0 <= k < rest.len() && rest[k] == t;
                assert(tiles[k] == t);
            } else {
                assert(tiles[tiles.len() - 1] == t);
            }
        }
    }
}

/// Two worlds with the same size, road, forest and structures.
pub open spec fn same_terrain(a: WorldState, b: WorldState) -> bool {
    &&& a.width == b.width
    &&& a.height == b.height
    &&& a.road_x == b.road_x
    &&& a.forest_tiles@ == b.forest_tiles@
    &&& a.buildings@ == b.buildings@
}

/// Routes depend on the terrain alone: graves, marks and workers do not
/// change where one can walk.
pub proof fn lemma_routes_follow_terrain(a: WorldState, b: WorldState, from: TilePos, to: TilePos)
    requires
        same_terrain(a, b),
    ensures
        forall|steps: Seq<TilePos>| is_route(a, from, to, steps) <==> is_route(b, from, to, steps),
        reachable(a, from, to) <==> reachable(b, from, to),
        routable(a, from, to) <==> routable(b, from, to),
        forall|n: TilePos| first_shortest_step(a, from, to, n) <==> first_shortest_step(b, from, to, n),
{
    assert forall|steps: Seq<TilePos>| is_route(a, from, to, steps) <==> is_route(b, from, to, steps) by {
        assert forall|t: TilePos| blocked(a, t) <==> blocked(b, t) by {}
    }
    assert forall|steps: Seq<TilePos>| shortest_route(a, from, to, steps) <==> shortest_route(b, from, to, steps) by {}
    assert forall|t: TilePos| starts_shortest(a, from, to, t) <==> starts_shortest(b, from, to, t) by {
        if starts_shortest(a, from, to, t) {
            let s = choose|s: Seq<TilePos>| #[trigger] shortest_route(a, from, to, s) && s.len() >= 2 && s[1] == t;
            assert(shortest_route(b, from, to, s));
        }
        if starts_shortest(b, from, to, t) {
            let s = choose|s: Seq<TilePos>| #[trigger] shortest_route(b, from, to, s) && s.len() >= 2 && s[1] == t;
            assert(shortest_route(a, from, to, s));
        }
    }
    assert forall|k: int| neighbour_inside(a, from, k) <==> neighbour_inside(b, from, k) by {}
    if reachable(a, from, to) {
        let steps = choose|steps: Seq<TilePos>| is_route(a, from, to, steps);
        assert(is_route(b, from, to, steps));
    }
    if reachable(b, from, to) {
        let steps = choose|steps: Seq<TilePos>| is_route(b, from, to, steps);
        assert(is_route(a, from, to, steps));
    }
}

} // verus!
