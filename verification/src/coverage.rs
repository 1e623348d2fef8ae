//! Route coverage of marked districts: how many marked tiles the assigned
//! workers can actually walk to, each tile served by a worker of its own.
//!
//! Workers are paired with marked tiles by augmenting paths: each worker in
//! roster order looks for a tile it serves and reaches, and may move the
//! current holder of a tile on to another tile to make room. A closing pass
//! from every worker without a tile, sharing what it looks at, either finds
//! one more augmenting path or leaves a certificate (a cover of every
//! serve-and-reach pair) showing that no pairing holds more tiles.

use vstd::prelude::*;
use crate::districts::{operators, role_of, work_role, DistrictCoverage, WorkRole};
use crate::kinds::{JobKind, ZoneKind};
use crate::navigation::{grid_fits, routable, route_exists};
use crate::session::GameSession;
use crate::text_util::{decimal, push_digits, push_str};
use crate::tile::TilePos;
use crate::world::{collect_district_tiles, district_tiles};
use vstd::relations::injective_on;
use vstd::set_lib::{lemma_int_range, lemma_len_subset, lemma_map_size, lemma_set_disjoint_lens, set_int_range};

verus! {

/// A worker holding `job` does the work a marked `kind` tile on `tile` asks for.
pub open spec fn serves(session: GameSession, kind: ZoneKind, job: JobKind, tile: TilePos) -> bool {
    match kind {
        ZoneKind::Work => match work_role(session.world, tile) {
            WorkRole::Dig => job == JobKind::Dig,
            WorkRole::Wood => job == JobKind::Wood,
            WorkRole::Flexible => job == JobKind::Dig || job == JobKind::Wood,
        },
        ZoneKind::Storage => job == JobKind::Haul,
        ZoneKind::Patrol => job == JobKind::Guard,
    }
}

/// Worker `w` of the roster serves `tile` and can walk there.
pub open spec fn can_serve(session: GameSession, kind: ZoneKind, w: usize, tile: TilePos) -> bool {
    &&& w < session.workforce.workers@.len()
    &&& serves(session, kind, session.workforce.workers@[w as int].assignment, tile)
    &&& routable(session.world, session.workforce.workers@[w as int].position, tile)
}

/// Some tile of `m` is held by worker `w`.
pub open spec fn holds(m: Seq<Option<usize>>, w: usize) -> bool {
    exists|t: int| 0 <= t < m.len() && m[t] == Some(w)
}

/// Every held tile is held by a worker that can serve it.
pub open spec fn entries_ok(session: GameSession, kind: ZoneKind, targets: Seq<TilePos>, m: Seq<Option<usize>>) -> bool {
    &&& m.len() == targets.len()
    &&& forall|t: int| 0 <= t < m.len() && (#[trigger] m[t]) is Some ==> can_serve(session, kind, m[t]->0, targets[t])
}

/// No worker holds two tiles.
pub open spec fn distinct_owners(m: Seq<Option<usize>>) -> bool {
    forall|a: int, b: int|
        0 <= a < m.len() && 0 <= b < m.len() && a != b && (#[trigger] m[a]) is Some ==> m[a] != #[trigger] m[b]
}

/// `m` pairs marked tiles (by position in `targets`) with distinct workers
/// that can serve them.
pub open spec fn valid_matching(session: GameSession, kind: ZoneKind, targets: Seq<TilePos>, m: Seq<Option<usize>>) -> bool {
    entries_ok(session, kind, targets, m) && distinct_owners(m)
}

/// The number of held tiles.
pub open spec fn matched_count(m: Seq<Option<usize>>) -> nat
    decreases m.len(),
{
    if m.len() == 0 {
        0
    } else {
        matched_count(m.drop_last()) + if m.last() is Some { 1nat } else { 0nat }
    }
}

/// The number of tiles not yet looked at.
pub open spec fn count_false(v: Seq<bool>) -> nat
    decreases v.len(),
{
    if v.len() == 0 {
        0
    } else {
        count_false(v.drop_last()) + if v.last() { 0nat } else { 1nat }
    }
}

/// `b` marks every tile `a` marks.
pub open spec fn grows(a: Seq<bool>, b: Seq<bool>) -> bool {
    a.len() == b.len() && forall|t: int| 0 <= t < a.len() && #[trigger] a[t] ==> b[t]
}

/// Every tile looked at in this search is held.
pub open spec fn visited_matched(v: Seq<bool>, m: Seq<Option<usize>>) -> bool {
    forall|t: int| 0 <= t < v.len() && #[trigger] v[t] ==> m[t] is Some
}

/// `b` follows from `a` by one augmenting path that ends with worker `w`
/// holding a tile: only `w` may appear twice (once where it already was),
/// `w` holds a new tile, every other holder keeps a tile, held tiles stay
/// held, and no new worker besides `w` appears.
pub open spec fn augmented(a: Seq<Option<usize>>, b: Seq<Option<usize>>, w: usize) -> bool {
    &&& b.len() == a.len()
    &&& forall|x: int, y: int|
        0 <= x < b.len() && 0 <= y < b.len() && x != y && (#[trigger] b[x]) is Some && b[x] == #[trigger] b[y]
            ==> b[x] == Some(w) && (a[x] == Some(w) || a[y] == Some(w))
    &&& exists|p: int| 0 <= p < b.len() && b[p] == Some(w) && a[p] != Some(w)
    &&& forall|v: usize| v != w && #[trigger] holds(a, v) ==> holds(b, v)
}

/// Held tiles stay held and no worker appears from nowhere but `w`.
pub open spec fn settled(a: Seq<Option<usize>>, b: Seq<Option<usize>>, w: usize) -> bool {
    &&& b.len() == a.len()
    &&& forall|t: int| 0 <= t < a.len() && (#[trigger] a[t]) is Some ==> b[t] is Some
    &&& forall|t: int| 0 <= t < b.len() && (#[trigger] b[t]) is Some ==> b[t] == Some(w) || holds(a, b[t]->0)
}

proof fn lemma_count_false_shrinks(a: Seq<bool>, b: Seq<bool>, i: int)
    requires
        grows(a, b),
        0 <= i < a.len(),
        !a[i],
        b[i],
    ensures
        count_false(b) < count_false(a),
    decreases a.len(),
{
    lemma_count_false_monotone(a.drop_last(), b.drop_last());
    if i < a.len() - 1 {
        lemma_count_false_shrinks(a.drop_last(), b.drop_last(), i);
    }
}

proof fn lemma_count_false_monotone(a: Seq<bool>, b: Seq<bool>)
    requires
        grows(a, b),
    ensures
        count_false(b) <= count_false(a),
    decreases a.len(),
{
    if a.len() > 0 {
        assert(grows(a.drop_last(), b.drop_last()));
        lemma_count_false_monotone(a.drop_last(), b.drop_last());
        assert(a[a.len() - 1] ==> b[b.len() - 1]);
    }
}

fn worker_serves_tile(session: &GameSession, kind: ZoneKind, job: JobKind, tile: TilePos) -> (ok: bool)
    ensures
        ok == serves(*session, kind, job, tile),
{
    match kind {
        ZoneKind::Work => match role_of(&session.world, tile) {
            WorkRole::Dig => job == JobKind::Dig,
            WorkRole::Wood => job == JobKind::Wood,
            WorkRole::Flexible => job == JobKind::Dig || job == JobKind::Wood,
        },
        ZoneKind::Storage => job == JobKind::Haul,
        ZoneKind::Patrol => job == JobKind::Guard,
    }
}

/// Worker `w` can serve target `t`, computed.
fn serves_target(session: &GameSession, kind: ZoneKind, w: usize, tile: TilePos) -> (ok: bool)
    requires
        grid_fits(session.world),
        w < session.workforce.workers@.len(),
    ensures
        ok == can_serve(*session, kind, w, tile),
{
    let worker = &session.workforce.workers[w];
    worker_serves_tile(session, kind, worker.assignment, tile) && route_exists(session, worker.position, tile)
}

/// Looks for a tile for worker `w` along an augmenting path, moving current
/// holders on where that makes room; reports whether `w` now holds a tile.
fn augment(
    session: &GameSession,
    kind: ZoneKind,
    w: usize,
    targets: &Vec<TilePos>,
    matched: &mut Vec<Option<usize>>,
    visited: &mut Vec<bool>,
) -> (found: bool)
    requires
        grid_fits(session.world),
        w < session.workforce.workers@.len(),
        old(visited)@.len() == targets@.len(),
        entries_ok(*session, kind, targets@, old(matched)@),
        distinct_owners(old(matched)@),
        visited_matched(old(visited)@, old(matched)@),
        forall|t: int| 0 <= t < targets@.len() && #[trigger] old(matched)@[t] == Some(w) ==> old(visited)@[t],
    ensures
        grows(old(visited)@, final(visited)@),
        visited_matched(final(visited)@, final(matched)@),
        entries_ok(*session, kind, targets@, final(matched)@),
        settled(old(matched)@, final(matched)@, w),
        forall|t: int| 0 <= t < targets@.len() && old(visited)@[t] ==> #[trigger] final(matched)@[t] == old(matched)@[t],
        !found ==> final(matched)@ == old(matched)@,
        !found ==> forall|t: int|
            0 <= t < targets@.len() && can_serve(*session, kind, w, targets@[t]) ==> #[trigger] final(visited)@[t],
        !found ==> forall|t: int|
            0 <= t < targets@.len() && final(visited)@[t] && !old(visited)@[t] ==> #[trigger] closed_at(
                *session,
                kind,
                targets@,
                final(matched)@,
                final(visited)@,
                t,
            ),
        found ==> augmented(old(matched)@, final(matched)@, w),
    decreases count_false(old(visited)@),
{
    let ghost entry_visited = visited@;
    let ghost entry_matched = matched@;
    let mut i: usize = 0;
    while i < targets.len()
        invariant
            grid_fits(session.world),
            w < session.workforce.workers@.len(),
            i <= targets@.len(),
            entry_visited.len() == targets@.len(),
            entry_visited == old(visited)@,
            entry_matched == old(matched)@,
            matched@ == entry_matched,
            entries_ok(*session, kind, targets@, entry_matched),
            distinct_owners(entry_matched),
            forall|t: int| 0 <= t < targets@.len() && #[trigger] entry_matched[t] == Some(w) ==> entry_visited[t],
            grows(entry_visited, visited@),
            visited_matched(visited@, matched@),
            forall|t: int| 0 <= t < i && can_serve(*session, kind, w, targets@[t]) ==> #[trigger] visited@[t],
            forall|t: int|
                0 <= t < targets@.len() && visited@[t] && !entry_visited[t] ==> #[trigger] closed_at(
                    *session,
                    kind,
                    targets@,
                    entry_matched,
                    visited@,
                    t,
                ),
        decreases targets.len() - i,
    {
        let tile = targets[i];
        let ghost at_start = visited@;
        if !visited[i] && serves_target(session, kind, w, tile) {
            let ghost before_visit = visited@;
            visited.set(i, true);
            assert(grows(entry_visited, visited@));
            match matched[i] {
                None => {
                    matched.set(i, Some(w));
                    proof {
                        let b = matched@;
                        assert(b[i as int] == Some(w));
                        assert(entry_matched[i as int] != Some(w));
                        assert forall|x: int, y: int|
                            0 <= x < b.len() && 0 <= y < b.len() && x != y && (#[trigger] b[x]) is Some && b[x]
                                == #[trigger] b[y] implies b[x] == Some(w) && (entry_matched[x] == Some(w)
                            || entry_matched[y] == Some(w)) by {
                            if x != i && y != i {
                                assert(entry_matched[x] == b[x]);
                                assert(entry_matched[y] == b[y]);
                            }
                        }
                        assert forall|v: usize| v != w && #[trigger] holds(entry_matched, v) implies holds(b, v) by {
                            let t = choose|t: int| 0 <= t < entry_matched.len() && entry_matched[t] == Some(v);
                            assert(t != i);
                            assert(b[t] == Some(v));
                        }
                        assert forall|t: int| 0 <= t < b.len() && (#[trigger] b[t]) is Some implies b[t] == Some(w)
                            || holds(entry_matched, b[t]->0) by {
                            if t != i {
                                assert(entry_matched[t] == b[t]);
                            }
                        }
                        assert forall|t: int| 0 <= t < entry_matched.len() && (#[trigger] entry_matched[t]) is Some implies b[t] is Some by {
                            if t != i {
                                assert(entry_matched[t] == b[t]);
                            }
                        }
                    }
                    return true;
                },
                Some(owner) => {
                    proof {
                        lemma_count_false_shrinks(entry_visited, visited@, i as int);
                        assert(entry_matched[i as int] == Some(owner));
                        assert(owner != w);
                        assert forall|t: int| 0 <= t < targets@.len() && #[trigger] matched@[t] == Some(owner) implies visited@[t] by {
                            if t != i {
                                assert(entry_matched[t] != entry_matched[i as int]);
                            }
                        }
                    }
                    let ghost m0 = matched@;
                    let ghost v0 = visited@;
                    if augment(session, kind, owner, targets, matched, visited) {
                        let ghost m1 = matched@;
                        assert(m1[i as int] == Some(owner));
                        assert forall|t: int| 0 <= t < m0.len() && m0[t] == Some(w) implies #[trigger] m1[t] == m0[t] by {
                            assert(entry_visited[t]);
                            assert(v0[t]);
                        }
                        assert forall|t: int| 0 <= t < targets@.len() && entry_visited[t] implies #[trigger] m1[t] == m0[t] by {
                            assert(v0[t]);
                        }
                        matched.set(i, Some(w));
                        proof {
                            lemma_after_reroute(*session, kind, targets@, entry_matched, m1, matched@, i as int, owner, w);
                            assert(grows(entry_visited, visited@));
                        }
                        return true;
                    }
                    assert(grows(entry_visited, visited@)) by {
                        assert forall|t: int| 0 <= t < entry_visited.len() && #[trigger] entry_visited[t] implies visited@[t] by {
                            assert(v0[t]);
                        }
                    }
                    assert forall|t: int| 0 <= t < at_start.len() && #[trigger] at_start[t] implies visited@[t] by {
                        assert(v0[t]);
                    }
                    assert forall|t: int|
                        0 <= t < targets@.len() && visited@[t] && !entry_visited[t] implies #[trigger] closed_at(
                        *session,
                        kind,
                        targets@,
                        entry_matched,
                        visited@,
                        t,
                    ) by {
                        if t == i {
                            assert(entry_matched[t] == Some(owner));
                        } else if v0[t] {
                            assert(at_start[t]);
                            assert(grows(at_start, visited@));
                            lemma_closed_grows(*session, kind, targets@, entry_matched, at_start, visited@, t);
                        }
                    }
                },
            }
        }
        assert forall|t: int| 0 <= t < i + 1 && can_serve(*session, kind, w, targets@[t]) implies #[trigger] visited@[t] by {
            assert(at_start[t] ==> visited@[t]);
        }
        i = i + 1;
    }
    proof {
        lemma_settled_unchanged(entry_matched, w);
    }
    false
}

proof fn lemma_settled_unchanged(a: Seq<Option<usize>>, w: usize)
    ensures
        settled(a, a, w),
{
    assert forall|t: int| 0 <= t < a.len() && (#[trigger] a[t]) is Some implies a[t] == Some(w) || holds(a, a[t]->0) by {
        assert(a[t] == Some(a[t]->0));
    }
}

/// After holder `owner` of tile `i` was moved on (`m0` to `m1`), giving `i`
/// to `w` (`m2`) completes an augmenting path for `w`.
proof fn lemma_after_reroute(
    session: GameSession,
    kind: ZoneKind,
    targets: Seq<TilePos>,
    m0: Seq<Option<usize>>,
    m1: Seq<Option<usize>>,
    m2: Seq<Option<usize>>,
    i: int,
    owner: usize,
    w: usize,
)
    requires
        0 <= i < m0.len(),
        m0[i] == Some(owner),
        owner != w,
        distinct_owners(m0),
        forall|t: int| 0 <= t < m0.len() && #[trigger] m0[t] == Some(w) ==> t != i,
        augmented(m0, m1, owner),
        settled(m0, m1, owner),
        m1[i] == Some(owner),
        m2 == m1.update(i, Some(w)),
        forall|t: int| 0 <= t < m0.len() && m0[t] == Some(w) ==> #[trigger] m1[t] == m0[t],
    ensures
        augmented(m0, m2, w),
        settled(m0, m2, w),
{
    // Tiles held by `w` in `m1` were already held by `w` in `m0`.
    assert forall|t: int| 0 <= t < m1.len() && #[trigger] m1[t] == Some(w) implies m0[t] == Some(w) by {
        assert(holds(m0, w));
        let z = choose|z: int| 0 <= z < m0.len() && m0[z] == Some(w);
        assert(m1[z] == Some(w));
        if t != z {
            assert(m1[t] == m1[z]);
        }
    }
    assert forall|x: int, y: int|
        0 <= x < m2.len() && 0 <= y < m2.len() && x != y && (#[trigger] m2[x]) is Some && m2[x] == #[trigger] m2[y]
            implies m2[x] == Some(w) && (m0[x] == Some(w) || m0[y] == Some(w)) by {
        if x != i && y != i {
            assert(m1[x] == m1[y]);
            assert(m1[x] == Some(owner));
            assert(m0[x] == Some(owner) || m0[y] == Some(owner));
            if m0[x] == Some(owner) {
                assert(m0[x] == m0[i]);
            } else {
                assert(m0[y] == m0[i]);
            }
        } else if x == i {
            assert(m1[y] == Some(w));
        } else {
            assert(m1[x] == Some(w));
        }
    }
    let p = choose|p: int| 0 <= p < m1.len() && m1[p] == Some(owner) && m0[p] != Some(owner);
    assert(p != i);
    assert(m2[i] == Some(w) && m0[i] != Some(w));
    assert forall|v: usize| v != w && #[trigger] holds(m0, v) implies holds(m2, v) by {
        if v == owner {
            assert(m2[p] == Some(owner));
        } else {
            assert(holds(m1, v));
            let q = choose|q: int| 0 <= q < m1.len() && m1[q] == Some(v);
            assert(q != i);
            assert(m2[q] == Some(v));
        }
    }
    assert forall|t: int| 0 <= t < m0.len() && (#[trigger] m0[t]) is Some implies m2[t] is Some by {
        assert(m1[t] is Some);
    }
    assert forall|t: int| 0 <= t < m2.len() && (#[trigger] m2[t]) is Some implies m2[t] == Some(w) || holds(
        m0,
        m2[t]->0,
    ) by {
        if t != i {
            assert(m1[t] is Some);
            if m1[t] == Some(owner) {
                assert(m0[i] == Some(owner));
            }
        }
    }
}

/// `n` is the size of the largest valid pairing of `targets` with workers.
pub open spec fn largest_pairing(session: GameSession, kind: ZoneKind, targets: Seq<TilePos>, n: nat) -> bool {
    &&& exists|m: Seq<Option<usize>>| valid_matching(session, kind, targets, m) && matched_count(m) == n
    &&& forall|m: Seq<Option<usize>>| #[trigger] valid_matching(session, kind, targets, m) ==> matched_count(m) <= n
}

/// What a coverage report of `kind` says: the marked tiles, the workers
/// assigned to the district (none when nothing is marked), and the largest
/// number of marked tiles that distinct workers can serve and reach, one
/// tile each.
pub open spec fn coverage_ok(session: GameSession, kind: ZoneKind, c: DistrictCoverage) -> bool {
    let targets = district_tiles(session.world.zones@, kind);
    &&& c.marked == targets.len()
    &&& c.assigned == if targets.len() == 0 { 0 } else { operators(session, kind) }
    &&& largest_pairing(session, kind, targets, c.reachable as nat)
}

/// The coverage report of `kind`; `coverage_ok` pins it down (see
/// `lemma_coverage_unique`).
pub open spec fn coverage_of(session: GameSession, kind: ZoneKind) -> DistrictCoverage {
    choose|c: DistrictCoverage| coverage_ok(session, kind, c)
}

/// The coverage report of a district kind is unique.
pub proof fn lemma_coverage_unique(session: GameSession, kind: ZoneKind, a: DistrictCoverage, b: DistrictCoverage)
    requires
        coverage_ok(session, kind, a),
        coverage_ok(session, kind, b),
    ensures
        a == b,
{
    let targets = district_tiles(session.world.zones@, kind);
    let ma = choose|m: Seq<Option<usize>>| valid_matching(session, kind, targets, m) && matched_count(m) == a.reachable as nat;
    let mb = choose|m: Seq<Option<usize>>| valid_matching(session, kind, targets, m) && matched_count(m) == b.reachable as nat;
    assert(matched_count(ma) <= b.reachable);
    assert(matched_count(mb) <= a.reachable);
}

/// Once some report satisfies `coverage_ok`, `coverage_of` is that report.
pub proof fn lemma_coverage_of(session: GameSession, kind: ZoneKind, c: DistrictCoverage)
    requires
        coverage_ok(session, kind, c),
    ensures
        coverage_of(session, kind) == c,
{
    let chosen = coverage_of(session, kind);
    assert(coverage_ok(session, kind, chosen));
    lemma_coverage_unique(session, kind, chosen, c);
}

/// The needed tiles of a coverage: the marked tiles the assigned workers
/// could serve at all.
pub open spec fn needed_of(c: DistrictCoverage) -> nat {
    if c.marked < c.assigned { c.marked as nat } else { c.assigned as nat }
}

proof fn lemma_matched_count_bounded(m: Seq<Option<usize>>)
    ensures
        matched_count(m) <= m.len(),
    decreases m.len(),
{
    if m.len() > 0 {
        lemma_matched_count_bounded(m.drop_last());
    }
}

/// The positions of held tiles.
pub open spec fn held_set(m: Seq<Option<usize>>) -> Set<int> {
    Set::new(|t: int| 0 <= t < m.len() && m[t] is Some)
}

proof fn lemma_held_set_count(m: Seq<Option<usize>>)
    ensures
        held_set(m).finite(),
        held_set(m).len() == matched_count(m),
    decreases m.len(),
{
    if m.len() == 0 {
        assert(held_set(m) =~= Set::<int>::empty());
    } else {
        let rest = m.drop_last();
        lemma_held_set_count(rest);
        let n = m.len() - 1;
        if m.last() is Some {
            assert(held_set(m) =~= held_set(rest).insert(n));
            assert(!held_set(rest).contains(n));
        } else {
            assert(held_set(m) =~= held_set(rest));
        }
    }
}

/// A set of positions below `n` is finite.
proof fn lemma_range_subset_finite(a: Set<int>, n: int)
    requires
        0 <= n,
        forall|t: int| #[trigger] a.contains(t) ==> 0 <= t < n,
    ensures
        a.finite(),
{
    lemma_int_range(0, n);
    assert(a.subset_of(set_int_range(0, n)));
    lemma_len_subset(a, set_int_range(0, n));
}

/// An injection from `a` into `b` shows `a` is no larger than `b`.
proof fn lemma_injection_bound(a: Set<int>, b: Set<int>, f: spec_fn(int) -> int)
    requires
        a.finite(),
        b.finite(),
        injective_on(f, a),
        forall|x: int| #[trigger] a.contains(x) ==> b.contains(f(x)),
    ensures
        a.len() <= b.len(),
{
    let image = a.map(f);
    lemma_map_size(a, image, f);
    assert forall|y: int| #[trigger] image.contains(y) implies b.contains(y) by {
        let x = choose|x: int| a.contains(x) && f(x) == y;
    }
    assert(image.subset_of(b));
    lemma_len_subset(image, b);
}

/// An augmenting path for a worker that held nothing adds a held tile.
proof fn lemma_augment_grows(a: Seq<Option<usize>>, b: Seq<Option<usize>>, w: usize)
    requires
        distinct_owners(a),
        distinct_owners(b),
        !holds(a, w),
        augmented(a, b, w),
    ensures
        matched_count(b) > matched_count(a),
{
    lemma_held_set_count(a);
    lemma_held_set_count(b);
    let p = choose|p: int| 0 <= p < b.len() && b[p] == Some(w) && a[p] != Some(w);
    let f = |t: int| choose|q: int| 0 <= q < b.len() && b[q] == a[t];
    let target = held_set(b).remove(p);
    assert forall|t: int| #[trigger] held_set(a).contains(t) implies target.contains(f(t)) && b[f(t)] == a[t] by {
        let v = a[t]->0;
        assert(a[t] == Some(v));
        assert(holds(a, v));
        assert(v != w);
        assert(holds(b, v));
        let q = choose|q: int| 0 <= q < b.len() && b[q] == Some(v);
        assert(0 <= f(t) < b.len() && b[f(t)] == a[t]);
    }
    assert forall|x1: int, x2: int|
        held_set(a).contains(x1) && held_set(a).contains(x2) && #[trigger] f(x1) == #[trigger] f(x2) implies x1
        == x2 by {
        assert(b[f(x1)] == a[x1]);
        assert(b[f(x2)] == a[x2]);
    }
    lemma_injection_bound(held_set(a), target, f);
}

/// Every held tile that was looked at has a holder whose every servable
/// tile was looked at too.
pub open spec fn closed_at(
    session: GameSession,
    kind: ZoneKind,
    targets: Seq<TilePos>,
    m: Seq<Option<usize>>,
    visited: Seq<bool>,
    t: int,
) -> bool {
    visited[t] && m[t] is Some ==> forall|t2: int|
        0 <= t2 < targets.len() && #[trigger] can_serve(session, kind, m[t]->0, targets[t2]) ==> visited[t2]
}

/// A witness that no valid pairing holds more tiles than `m`: the looked-at
/// tiles are held and closed, and every worker without a tile only serves
/// looked-at tiles.
pub open spec fn certificate(
    session: GameSession,
    kind: ZoneKind,
    targets: Seq<TilePos>,
    m: Seq<Option<usize>>,
    visited: Seq<bool>,
) -> bool {
    &&& visited.len() == targets.len()
    &&& visited_matched(visited, m)
    &&& forall|t: int| 0 <= t < targets.len() ==> #[trigger] closed_at(session, kind, targets, m, visited, t)
    &&& forall|v: usize, t: int|
        0 <= t < targets.len() && !holds(m, v) && #[trigger] can_serve(session, kind, v, targets[t]) ==> visited[t]
}

/// With a certificate, no valid pairing holds more tiles than `m`.
proof fn lemma_certificate_bounds(
    session: GameSession,
    kind: ZoneKind,
    targets: Seq<TilePos>,
    m: Seq<Option<usize>>,
    visited: Seq<bool>,
    other: Seq<Option<usize>>,
)
    requires
        valid_matching(session, kind, targets, m),
        certificate(session, kind, targets, m, visited),
        valid_matching(session, kind, targets, other),
    ensures
        matched_count(other) <= matched_count(m),
{
    let n = targets.len() as int;
    let seen = Set::new(|t: int| 0 <= t < n && visited[t]);
    let unseen = Set::new(|t: int| 0 <= t < n && m[t] is Some && !visited[t]);
    let other_seen = Set::new(|t: int| 0 <= t < n && other[t] is Some && visited[t]);
    let other_unseen = Set::new(|t: int| 0 <= t < n && other[t] is Some && !visited[t]);
    lemma_range_subset_finite(seen, n);
    lemma_range_subset_finite(unseen, n);
    lemma_range_subset_finite(other_seen, n);
    lemma_range_subset_finite(other_unseen, n);
    lemma_held_set_count(m);
    lemma_held_set_count(other);
    assert(held_set(m) =~= seen + unseen);
    assert(seen.disjoint(unseen));
    lemma_set_disjoint_lens(seen, unseen);
    assert(held_set(other) =~= other_seen + other_unseen);
    assert(other_seen.disjoint(other_unseen));
    lemma_set_disjoint_lens(other_seen, other_unseen);
    assert(other_seen.subset_of(seen));
    lemma_len_subset(other_seen, seen);
    let f = |t: int| choose|q: int| 0 <= q < n && m[q] == other[t];
    assert forall|t: int| #[trigger] other_unseen.contains(t) implies unseen.contains(f(t)) by {
        let v = other[t]->0;
        assert(other[t] == Some(v));
        assert(can_serve(session, kind, v, targets[t]));
        if !holds(m, v) {
            assert(visited[t]);
        }
        let q = choose|q: int| 0 <= q < m.len() && m[q] == Some(v);
        assert(0 <= f(t) < n && m[f(t)] == other[t]);
        if visited[f(t)] {
            assert(closed_at(session, kind, targets, m, visited, f(t)));
            assert(visited[t]);
        }
    }
    assert forall|x1: int, x2: int|
        other_unseen.contains(x1) && other_unseen.contains(x2) && #[trigger] f(x1) == #[trigger] f(x2) implies x1
        == x2 by {
        assert(unseen.contains(f(x1)));
        assert(unseen.contains(f(x2)));
        assert(other[x1] == m[f(x1)]);
        assert(other[x2] == m[f(x2)]);
    }
    lemma_injection_bound(other_unseen, unseen, f);
}

fn count_matched(matched: &Vec<Option<usize>>) -> (count: usize)
    ensures
        count == matched_count(matched@),
{
    let mut count: usize = 0;
    let mut i: usize = 0;
    while i < matched.len()
        invariant
            i <= matched@.len(),
            count == matched_count(matched@.take(i as int)),
        decreases matched.len() - i,
    {
        proof {
            assert(matched@.take(i as int + 1).drop_last() == matched@.take(i as int));
            lemma_matched_count_bounded(matched@.take(i as int));
        }
        if matched[i].is_some() {
            count = count + 1;
        }
        i = i + 1;
    }
    assert(matched@.take(i as int) == matched@);
    count
}

fn unvisited(n: usize) -> (v: Vec<bool>)
    ensures
        v@.len() == n,
        forall|t: int| 0 <= t < n ==> !#[trigger] v@[t],
{
    let mut v: Vec<bool> = Vec::new();
    while v.len() < n
        invariant
            v@.len() <= n,
            forall|t: int| 0 <= t < v@.len() ==> !#[trigger] v@[t],
        decreases n - v@.len(),
    {
        v.push(false);
    }
    v
}

fn unmatched(n: usize) -> (m: Vec<Option<usize>>)
    ensures
        m@.len() == n,
        forall|t: int| 0 <= t < n ==> (#[trigger] m@[t]) is None,
{
    let mut m: Vec<Option<usize>> = Vec::new();
    while m.len() < n
        invariant
            m@.len() <= n,
            forall|t: int| 0 <= t < m@.len() ==> (#[trigger] m@[t]) is None,
        decreases n - m@.len(),
    {
        m.push(None);
    }
    m
}

fn holds_tile(matched: &Vec<Option<usize>>, w: usize) -> (held: bool)
    ensures
        held == holds(matched@, w),
{
    let mut i: usize = 0;
    while i < matched.len()
        invariant
            i <= matched@.len(),
            forall|t: int| 0 <= t < i ==> matched@[t] != Some(w),
        decreases matched.len() - i,
    {
        if matched[i] == Some(w) {
            return true;
        }
        i = i + 1;
    }
    false
}

/// One pass that looks for an augmenting path from every worker without a
/// tile, sharing what was looked at. Either the pairing grows, or nothing
/// changes and the pass leaves a certificate that the pairing is largest.
fn certify_pass(session: &GameSession, kind: ZoneKind, targets: &Vec<TilePos>, matched: &mut Vec<Option<usize>>) -> (grew:
    bool)
    requires
        grid_fits(session.world),
        valid_matching(*session, kind, targets@, old(matched)@),
    ensures
        valid_matching(*session, kind, targets@, final(matched)@),
        grew ==> matched_count(final(matched)@) > matched_count(old(matched)@),
        !grew ==> final(matched)@ == old(matched)@ && exists|v: Seq<bool>|
            certificate(*session, kind, targets@, final(matched)@, v),
{
    let ghost start = matched@;
    let mut visited = unvisited(targets.len());
    let mut w: usize = 0;
    while w < session.workforce.workers.len()
        invariant
            grid_fits(session.world),
            w <= session.workforce.workers@.len(),
            matched@ == start,
            old(matched)@ == start,
            valid_matching(*session, kind, targets@, start),
            visited@.len() == targets@.len(),
            visited_matched(visited@, start),
            forall|t: int| 0 <= t < targets@.len() ==> #[trigger] closed_at(*session, kind, targets@, start, visited@, t),
            forall|v: usize, t: int|
                0 <= t < targets@.len() && v < w && !holds(start, v) && #[trigger] can_serve(
                    *session,
                    kind,
                    v,
                    targets@[t],
                ) ==> visited@[t],
        decreases session.workforce.workers.len() - w,
    {
        if !holds_tile(matched, w) {
            let ghost v0 = visited@;
            let found = augment(session, kind, w, targets, matched, &mut visited);
            if found {
                proof {
                    lemma_round(*session, kind, targets@, start, matched@, w);
                    lemma_augment_grows(start, matched@, w);
                }
                return true;
            }
            proof {
                assert forall|t: int| 0 <= t < targets@.len() implies #[trigger] closed_at(
                    *session,
                    kind,
                    targets@,
                    start,
                    visited@,
                    t,
                ) by {
                    if v0[t] {
                        lemma_closed_grows(*session, kind, targets@, start, v0, visited@, t);
                    }
                }
                assert forall|v: usize, t: int|
                    0 <= t < targets@.len() && v < w + 1 && !holds(start, v) && #[trigger] can_serve(
                        *session,
                        kind,
                        v,
                        targets@[t],
                    ) implies visited@[t] by {
                    if v < w {
                        assert(v0[t]);
                    }
                }
            }
        }
        w = w + 1;
    }
    proof {
        assert forall|v: usize, t: int|
            0 <= t < targets@.len() && !holds(start, v) && #[trigger] can_serve(*session, kind, v, targets@[t]) implies visited@[t] by {
        }
        assert(certificate(*session, kind, targets@, start, visited@));
    }
    false
}

proof fn lemma_closed_grows(
    session: GameSession,
    kind: ZoneKind,
    targets: Seq<TilePos>,
    m: Seq<Option<usize>>,
    v1: Seq<bool>,
    v2: Seq<bool>,
    t: int,
)
    requires
        grows(v1, v2),
        v1.len() == targets.len(),
        0 <= t < targets.len(),
        v1[t],
        closed_at(session, kind, targets, m, v1, t),
    ensures
        closed_at(session, kind, targets, m, v2, t),
{
    if m[t] is Some {
        assert forall|t2: int|
            0 <= t2 < targets.len() && #[trigger] can_serve(session, kind, m[t]->0, targets[t2]) implies v2[t2] by {
            assert(v1[t2]);
        }
    }
}

/// Marked, assigned and route-reachable service of district `kind`.
pub fn service_coverage(session: &GameSession, kind: ZoneKind) -> (coverage: DistrictCoverage)
    requires
        grid_fits(session.world),
    ensures
        coverage_ok(*session, kind, coverage),
        coverage == coverage_of(*session, kind),
{
    let coverage = pair_district(session, kind);
    proof {
        lemma_coverage_of(*session, kind, coverage);
    }
    coverage
}

fn pair_district(session: &GameSession, kind: ZoneKind) -> (coverage: DistrictCoverage)
    requires
        grid_fits(session.world),
    ensures
        coverage_ok(*session, kind, coverage),
{
    let targets = collect_district_tiles(&session.world.zones, kind);
    if targets.len() == 0 {
        proof {
            let m = Seq::<Option<usize>>::empty();
            assert(valid_matching(*session, kind, targets@, m));
            assert(matched_count(m) == 0);
            assert forall|other: Seq<Option<usize>>| #[trigger] valid_matching(*session, kind, targets@, other) implies matched_count(
                other,
            ) <= 0 by {
                assert(other.len() == 0);
            }
        }
        return DistrictCoverage { marked: 0, assigned: 0, reachable: 0 };
    }
    let mut matched = unmatched(targets.len());
    let mut w: usize = 0;
    while w < session.workforce.workers.len()
        invariant
            grid_fits(session.world),
            w <= session.workforce.workers@.len(),
            valid_matching(*session, kind, targets@, matched@),
            forall|t: int| 0 <= t < matched@.len() && (#[trigger] matched@[t]) is Some ==> matched@[t]->0 < w,
        decreases session.workforce.workers.len() - w,
    {
        let mut visited = unvisited(targets.len());
        let ghost before = matched@;
        let found = augment(session, kind, w, &targets, &mut matched, &mut visited);
        proof {
            assert(!holds(before, w));
            if found {
                lemma_round(*session, kind, targets@, before, matched@, w);
            }
            assert forall|t: int| 0 <= t < matched@.len() && (#[trigger] matched@[t]) is Some implies matched@[t]->0
                < w + 1 by {
                if matched@[t] != Some(w) {
                    let v = matched@[t]->0;
                    assert(holds(before, v));
                    let z = choose|z: int| 0 <= z < before.len() && before[z] == Some(v);
                    assert(before[z] is Some);
                }
            }
        }
        w = w + 1;
    }
    proof {
        lemma_matched_count_bounded(matched@);
    }
    let mut done = false;
    while !done
        invariant
            grid_fits(session.world),
            valid_matching(*session, kind, targets@, matched@),
            matched_count(matched@) <= targets@.len(),
            done ==> exists|v: Seq<bool>| certificate(*session, kind, targets@, matched@, v),
        decreases targets@.len() - matched_count(matched@) + if done { 0int } else { 1int },
    {
        let grew = certify_pass(session, kind, &targets, &mut matched);
        proof {
            lemma_matched_count_bounded(matched@);
        }
        if !grew {
            done = true;
        }
    }
    let reachable = count_matched(&matched);
    let assigned = crate::districts::operator_count(session, kind);
    proof {
        let m = matched@;
        let v = choose|v: Seq<bool>| certificate(*session, kind, targets@, m, v);
        assert forall|other: Seq<Option<usize>>| #[trigger] valid_matching(*session, kind, targets@, other) implies matched_count(
            other,
        ) <= reachable by {
            lemma_certificate_bounds(*session, kind, targets@, m, v, other);
        }
    }
    DistrictCoverage { marked: targets.len(), assigned, reachable }
}

/// An augmenting path for a worker that held nothing keeps the pairing
/// valid.
proof fn lemma_round(
    session: GameSession,
    kind: ZoneKind,
    targets: Seq<TilePos>,
    before: Seq<Option<usize>>,
    after: Seq<Option<usize>>,
    w: usize,
)
    requires
        valid_matching(session, kind, targets, before),
        !holds(before, w),
        entries_ok(session, kind, targets, after),
        augmented(before, after, w),
    ensures
        valid_matching(session, kind, targets, after),
{
    assert forall|a: int, b: int|
        0 <= a < after.len() && 0 <= b < after.len() && a != b && (#[trigger] after[a]) is Some implies after[a]
        != #[trigger] after[b] by {
        if after[a] == after[b] {
            assert(before[a] == Some(w) || before[b] == Some(w));
        }
    }
}

fn push_coverage(s: &mut String, c: DistrictCoverage)
    ensures
        final(s)@ == old(s)@ + decimal(c.reachable as int) + "/"@ + decimal(needed_of(c) as int),
{
    push_digits(s, c.reachable as u64);
    push_str(s, "/");
    push_digits(s, c.needed() as u64);
}

pub open spec fn coverage_text(work: DistrictCoverage, storage: DistrictCoverage, patrol: DistrictCoverage) -> Seq<char> {
    "Route coverage (reachable/needed): Work "@ + decimal(work.reachable as int) + "/"@ + decimal(
        needed_of(work) as int,
    ) + " \u{b7} Storage "@ + decimal(storage.reachable as int) + "/"@ + decimal(needed_of(storage) as int)
        + " \u{b7} Patrol "@ + decimal(patrol.reachable as int) + "/"@ + decimal(needed_of(patrol) as int)
}

pub open spec fn compact_coverage_text(work: DistrictCoverage, storage: DistrictCoverage, patrol: DistrictCoverage) -> Seq<char> {
    "Routes: W "@ + decimal(work.reachable as int) + "/"@ + decimal(needed_of(work) as int) + " \u{b7} S "@
        + decimal(storage.reachable as int) + "/"@ + decimal(needed_of(storage) as int) + " \u{b7} P "@ + decimal(
        patrol.reachable as int,
    ) + "/"@ + decimal(needed_of(patrol) as int)
}

/// A district reaches fewer tiles than it needs.
pub open spec fn short_of(c: DistrictCoverage) -> bool {
    c.reachable < needed_of(c)
}

/// Reachable against needed service of every district.
pub fn coverage_summary(session: &GameSession) -> (summary: String)
    requires
        grid_fits(session.world),
    ensures
        summary@ == coverage_text(
            coverage_of(*session, ZoneKind::Work),
            coverage_of(*session, ZoneKind::Storage),
            coverage_of(*session, ZoneKind::Patrol),
        ),
{
    let work = service_coverage(session, ZoneKind::Work);
    let storage = service_coverage(session, ZoneKind::Storage);
    let patrol = service_coverage(session, ZoneKind::Patrol);
    let mut summary = String::from_str("Route coverage (reachable/needed): Work ");
    push_coverage(&mut summary, work);
    push_str(&mut summary, " \u{b7} Storage ");
    push_coverage(&mut summary, storage);
    push_str(&mut summary, " \u{b7} Patrol ");
    push_coverage(&mut summary, patrol);
    assert(summary@ =~= coverage_text(work, storage, patrol));
    summary
}

/// The short form of `coverage_summary`.
pub fn compact_coverage_summary(session: &GameSession) -> (summary: String)
    requires
        grid_fits(session.world),
    ensures
        summary@ == compact_coverage_text(
            coverage_of(*session, ZoneKind::Work),
            coverage_of(*session, ZoneKind::Storage),
            coverage_of(*session, ZoneKind::Patrol),
        ),
{
    let work = service_coverage(session, ZoneKind::Work);
    let storage = service_coverage(session, ZoneKind::Storage);
    let patrol = service_coverage(session, ZoneKind::Patrol);
    let mut summary = String::from_str("Routes: W ");
    push_coverage(&mut summary, work);
    push_str(&mut summary, " \u{b7} S ");
    push_coverage(&mut summary, storage);
    push_str(&mut summary, " \u{b7} P ");
    push_coverage(&mut summary, patrol);
    assert(summary@ =~= compact_coverage_text(work, storage, patrol));
    summary
}

/// Some district has fewer reachable tiles than it needs.
pub fn route_coverage_needs_attention(session: &GameSession) -> (attention: bool)
    requires
        grid_fits(session.world),
    ensures
        attention == (short_of(coverage_of(*session, ZoneKind::Work)) || short_of(
            coverage_of(*session, ZoneKind::Storage),
        ) || short_of(coverage_of(*session, ZoneKind::Patrol))),
{
    let work = service_coverage(session, ZoneKind::Work);
    let storage = service_coverage(session, ZoneKind::Storage);
    let patrol = service_coverage(session, ZoneKind::Patrol);
    let work_needed = work.needed();
    let storage_needed = storage.needed();
    let patrol_needed = patrol.needed();
    let attention = work.reachable < work_needed || storage.reachable < storage_needed || patrol.reachable
        < patrol_needed;
    attention
}

/// Worker `w` holds a job that serves some of `targets`.
pub open spec fn serves_some(session: GameSession, kind: ZoneKind, targets: Seq<TilePos>, w: usize) -> bool {
    exists|t: int|
        0 <= t < targets.len() && serves(session, kind, session.workforce.workers@[w as int].assignment, #[trigger] targets[t])
}

/// Worker `w` can serve and reach some of `targets`.
pub open spec fn reaches_some(session: GameSession, kind: ZoneKind, targets: Seq<TilePos>, w: usize) -> bool {
    exists|t: int| 0 <= t < targets.len() && can_serve(session, kind, w, #[trigger] targets[t])
}

/// The first worker from `from` on that serves some target and, when
/// `stranded`, reaches none of them.
pub open spec fn first_eligible(session: GameSession, kind: ZoneKind, targets: Seq<TilePos>, stranded: bool, from: nat) -> Option<
    usize,
>
    decreases session.workforce.workers@.len() - from,
{
    if from >= session.workforce.workers@.len() {
        None
    } else if serves_some(session, kind, targets, from as usize) && (!stranded || !reaches_some(
        session,
        kind,
        targets,
        from as usize,
    )) {
        Some(from as usize)
    } else {
        first_eligible(session, kind, targets, stranded, from + 1)
    }
}

/// The worker to point at for a route gap of `kind`: the first serving
/// worker that reaches none of the marked tiles, else the first serving
/// worker.
pub open spec fn gap_pick(session: GameSession, kind: ZoneKind) -> Option<usize> {
    let targets = district_tiles(session.world.zones@, kind);
    match first_eligible(session, kind, targets, true, 0) {
        Some(i) => Some(i),
        None => first_eligible(session, kind, targets, false, 0),
    }
}

/// The worker a route gap of `kind` points at: none while the reachable
/// tiles meet the need.
pub open spec fn gap_worker(session: GameSession, kind: ZoneKind) -> Option<usize> {
    if short_of(coverage_of(session, kind)) {
        gap_pick(session, kind)
    } else {
        None
    }
}

fn serves_any(session: &GameSession, kind: ZoneKind, targets: &Vec<TilePos>, w: usize) -> (any: bool)
    requires
        w < session.workforce.workers@.len(),
    ensures
        any == serves_some(*session, kind, targets@, w),
{
    let job = session.workforce.workers[w].assignment;
    let mut i: usize = 0;
    while i < targets.len()
        invariant
            i <= targets@.len(),
            job == session.workforce.workers@[w as int].assignment,
            forall|t: int| 0 <= t < i ==> !serves(*session, kind, job, #[trigger] targets@[t]),
        decreases targets.len() - i,
    {
        if worker_serves_tile(session, kind, job, targets[i]) {
            return true;
        }
        i = i + 1;
    }
    false
}

fn reaches_any(session: &GameSession, kind: ZoneKind, targets: &Vec<TilePos>, w: usize) -> (any: bool)
    requires
        grid_fits(session.world),
        w < session.workforce.workers@.len(),
    ensures
        any == reaches_some(*session, kind, targets@, w),
{
    let mut i: usize = 0;
    while i < targets.len()
        invariant
            grid_fits(session.world),
            w < session.workforce.workers@.len(),
            i <= targets@.len(),
            forall|t: int| 0 <= t < i ==> !can_serve(*session, kind, w, #[trigger] targets@[t]),
        decreases targets.len() - i,
    {
        if serves_target(session, kind, w, targets[i]) {
            return true;
        }
        i = i + 1;
    }
    false
}

fn find_eligible(session: &GameSession, kind: ZoneKind, targets: &Vec<TilePos>, stranded: bool, from: usize) -> (found:
    Option<usize>)
    requires
        grid_fits(session.world),
    ensures
        found == first_eligible(*session, kind, targets@, stranded, from as nat),
    decreases session.workforce.workers@.len() - from,
{
    if from >= session.workforce.workers.len() {
        return None;
    }
    if serves_any(session, kind, targets, from) && (!stranded || !reaches_any(session, kind, targets, from)) {
        return Some(from);
    }
    find_eligible(session, kind, targets, stranded, from + 1)
}

/// The worker to point the player at when district `kind` cannot reach
/// the tiles it needs: the first serving worker with no walk to any marked
/// tile, else the first serving worker; `None` without a gap.
pub fn first_route_gap_worker(session: &GameSession, kind: ZoneKind) -> (worker: Option<usize>)
    requires
        grid_fits(session.world),
    ensures
        worker == gap_worker(*session, kind),
{
    let coverage = service_coverage(session, kind);
    if coverage.reachable >= coverage.needed() {
        return None;
    }
    let targets = collect_district_tiles(&session.world.zones, kind);
    let pick = match find_eligible(session, kind, &targets, true, 0) {
        Some(i) => Some(i),
        None => find_eligible(session, kind, &targets, false, 0),
    };
    pick
}

/// The district whose route gap points at worker `worker_index`, looked up
/// in work, storage, patrol order.
pub fn route_gap_district(session: &GameSession, worker_index: usize) -> (district: Option<ZoneKind>)
    requires
        grid_fits(session.world),
    ensures
        worker_index >= session.workforce.workers@.len() ==> district is None,
        worker_index < session.workforce.workers@.len() ==> district == if gap_worker(*session, ZoneKind::Work) == Some(
            worker_index,
        ) {
            Some(ZoneKind::Work)
        } else if gap_worker(*session, ZoneKind::Storage) == Some(worker_index) {
            Some(ZoneKind::Storage)
        } else if gap_worker(*session, ZoneKind::Patrol) == Some(worker_index) {
            Some(ZoneKind::Patrol)
        } else {
            None::<ZoneKind>
        },
{
    if worker_index >= session.workforce.workers.len() {
        return None;
    }
    let work = first_route_gap_worker(session, ZoneKind::Work);
    let storage = first_route_gap_worker(session, ZoneKind::Storage);
    let patrol = first_route_gap_worker(session, ZoneKind::Patrol);
    let district = if work == Some(worker_index) {
        Some(ZoneKind::Work)
    } else if storage == Some(worker_index) {
        Some(ZoneKind::Storage)
    } else if patrol == Some(worker_index) {
        Some(ZoneKind::Patrol)
    } else {
        None
    };
    district
}

/// A coverage never reports more reachable tiles than are marked.
pub proof fn lemma_coverage_within_marks(session: GameSession, kind: ZoneKind, c: DistrictCoverage)
    requires
        coverage_ok(session, kind, c),
    ensures
        c.reachable <= c.marked,
{
    let targets = district_tiles(session.world.zones@, kind);
    let m = choose|m: Seq<Option<usize>>| valid_matching(session, kind, targets, m) && matched_count(m) == c.reachable as nat;
    lemma_matched_count_bounded(m);
}

} // verus!
