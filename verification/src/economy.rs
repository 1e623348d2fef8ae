//! Stored materials, storage room and the loose-material piles that wait
//! on the ground for a hauler.

use vstd::prelude::*;
use crate::kinds::{CorpseQuality, ResourceKind};
use crate::tile::TilePos;

verus! {

/// The storage capacity of saves that predate the capacity field.
pub const DEFAULT_STORAGE_CAPACITY: i32 = 96;

pub fn default_storage_capacity() -> (capacity: i32)
    ensures
        capacity == DEFAULT_STORAGE_CAPACITY,
{
    DEFAULT_STORAGE_CAPACITY
}

/// A heap of one loose material on one tile.
#[derive(Debug, Clone, Copy, PartialEq, Eq, Structural)]
pub struct LooseResourcePile {
    pub position: TilePos,
    pub amount: i32,
}

/// A corpse remnant found in a grave, as far as raising needs it: its id,
/// its quality band and how it died. Its bodily measures are kept beside it
/// by the application.
#[derive(Debug, Clone)]
pub struct Corpse {
    pub id: u32,
    pub quality: CorpseQuality,
    pub cause_of_death: String,
}

/// Materials, charges, loose piles and corpse remnants of the settlement.
#[derive(Debug, Clone)]
pub struct EconomyState {
    pub bones: i32,
    pub mana: i32,
    pub wood: i32,
    pub storage_capacity: i32,
    pub shovels: i32,
    pub loose_bones: i32,
    pub loose_wood: i32,
    pub ward_charges: i32,
    pub loose_bones_source: Option<TilePos>,
    pub loose_wood_source: Option<TilePos>,
    pub loose_bones_piles: Vec<LooseResourcePile>,
    pub loose_wood_piles: Vec<LooseResourcePile>,
    pub corpses: Vec<Corpse>,
}

/// Where saves from before the authored layout kept their loose material.
pub open spec fn compatibility_stockpile() -> TilePos {
    TilePos { x: 6, y: 5 }
}

fn compatibility_stockpile_position() -> (tile: TilePos)
    ensures
        tile == compatibility_stockpile(),
{
    TilePos::new(6, 5)
}

/// The smaller of `a` and `b`.
pub open spec fn min_int(a: int, b: int) -> int {
    if a < b { a } else { b }
}

/// Clamps a mathematical integer into the `i32` range.
pub open spec fn clamp_i32(v: int) -> i32 {
    if v > i32::MAX {
        i32::MAX
    } else if v < i32::MIN {
        i32::MIN
    } else {
        v as i32
    }
}

/// Sum of the amounts of `piles` lying on `position`.
pub open spec fn sum_at(piles: Seq<LooseResourcePile>, position: TilePos) -> int
    decreases piles.len(),
{
    if piles.len() == 0 {
        0
    } else {
        sum_at(piles.drop_last(), position) + if piles.last().position == position {
            piles.last().amount as int
        } else {
            0
        }
    }
}

/// Sum of all amounts of `piles`.
pub open spec fn pile_total(piles: Seq<LooseResourcePile>) -> int
    decreases piles.len(),
{
    if piles.len() == 0 {
        0
    } else {
        pile_total(piles.drop_last()) + piles.last().amount
    }
}

/// Sum of the positive amounts of `piles`.
pub open spec fn positive_total(piles: Seq<LooseResourcePile>) -> int
    decreases piles.len(),
{
    if piles.len() == 0 {
        0
    } else {
        positive_total(piles.drop_last()) + if piles.last().amount > 0 {
            piles.last().amount as int
        } else {
            0
        }
    }
}

/// Sum of the positive amounts of `piles` lying on `position`.
pub open spec fn positive_sum_at(piles: Seq<LooseResourcePile>, position: TilePos) -> int
    decreases piles.len(),
{
    if piles.len() == 0 {
        0
    } else {
        positive_sum_at(piles.drop_last(), position) + if piles.last().position == position
            && piles.last().amount > 0 {
            piles.last().amount as int
        } else {
            0
        }
    }
}

/// Every pile holds something and no two piles share a tile.
pub open spec fn piles_wf(piles: Seq<LooseResourcePile>) -> bool {
    &&& forall|i: int| 0 <= i < piles.len() ==> (#[trigger] piles[i]).amount > 0
    &&& forall|i: int, j: int|
        0 <= i < piles.len() && 0 <= j < piles.len() && i != j ==> (#[trigger] piles[i]).position
            != (#[trigger] piles[j]).position
}

pub open spec fn has_pile_at(piles: Seq<LooseResourcePile>, position: TilePos) -> bool {
    exists|i: int| 0 <= i < piles.len() && (#[trigger] piles[i]).position == position
}

pub open spec fn pile_index_at(piles: Seq<LooseResourcePile>, position: TilePos) -> int {
    choose|i: int| 0 <= i < piles.len() && (#[trigger] piles[i]).position == position
}

/// `amount` more material on `position`: the pile there grows, or a new
/// pile is appended.
pub open spec fn added(piles: Seq<LooseResourcePile>, position: TilePos, amount: i32) -> Seq<LooseResourcePile> {
    if has_pile_at(piles, position) {
        let i = pile_index_at(piles, position);
        piles.update(i, LooseResourcePile { position, amount: (piles[i].amount + amount) as i32 })
    } else {
        piles.push(LooseResourcePile { position, amount })
    }
}

/// Piles merged by tile in order of first appearance, empty piles dropped.
pub open spec fn compacted(piles: Seq<LooseResourcePile>) -> Seq<LooseResourcePile>
    decreases piles.len(),
{
    if piles.len() == 0 {
        Seq::empty()
    } else {
        let acc = compacted(piles.drop_last());
        let pile = piles.last();
        if pile.amount <= 0 {
            acc
        } else {
            added(acc, pile.position, pile.amount)
        }
    }
}

/// How much a take of `amount` from `position` removes.
pub open spec fn take_amount(piles: Seq<LooseResourcePile>, position: TilePos, amount: i32) -> i32 {
    if has_pile_at(piles, position) {
        let i = pile_index_at(piles, position);
        if piles[i].amount < amount { piles[i].amount } else { amount }
    } else {
        0
    }
}

/// The piles after taking `amount` from `position`; an emptied pile is removed.
pub open spec fn taken_from(piles: Seq<LooseResourcePile>, position: TilePos, amount: i32) -> Seq<LooseResourcePile> {
    if has_pile_at(piles, position) {
        let i = pile_index_at(piles, position);
        let taken = take_amount(piles, position, amount);
        if piles[i].amount - taken == 0 {
            piles.remove(i)
        } else {
            piles.update(i, LooseResourcePile { position, amount: (piles[i].amount - taken) as i32 })
        }
    } else {
        piles
    }
}

/// The pile a save without pile data implies: all loose material on its
/// recorded source tile.
pub open spec fn seeded(piles: Seq<LooseResourcePile>, loose: i32, source: Option<TilePos>) -> Seq<LooseResourcePile> {
    if piles.len() == 0 && loose > 0 {
        seq![
            LooseResourcePile {
                position: match source {
                    Some(t) => t,
                    None => compatibility_stockpile(),
                },
                amount: loose,
            },
        ]
    } else {
        piles
    }
}

proof fn lemma_push_sums(s: Seq<LooseResourcePile>, x: LooseResourcePile, p: TilePos)
    ensures
        sum_at(s.push(x), p) == sum_at(s, p) + if x.position == p { x.amount as int } else { 0 },
        pile_total(s.push(x)) == pile_total(s) + x.amount,
        positive_total(s.push(x)) == positive_total(s) + if x.amount > 0 { x.amount as int } else { 0 },
        positive_sum_at(s.push(x), p) == positive_sum_at(s, p) + if x.position == p && x.amount > 0 {
            x.amount as int
        } else {
            0
        },
{
    assert(s.push(x).drop_last() == s);
}

proof fn lemma_update_sums(s: Seq<LooseResourcePile>, i: int, x: LooseResourcePile, p: TilePos)
    requires
        0 <= i < s.len(),
    ensures
        sum_at(s.update(i, x), p) == sum_at(s, p) - (if s[i].position == p { s[i].amount as int } else { 0 })
            + (if x.position == p { x.amount as int } else { 0 }),
        pile_total(s.update(i, x)) == pile_total(s) - s[i].amount + x.amount,
    decreases s.len(),
{
    if i == s.len() - 1 {
        assert(s.update(i, x).drop_last() == s.drop_last());
    } else {
        lemma_update_sums(s.drop_last(), i, x, p);
        assert(s.update(i, x).drop_last() == s.drop_last().update(i, x));
    }
}

proof fn lemma_remove_sums(s: Seq<LooseResourcePile>, i: int, p: TilePos)
    requires
        0 <= i < s.len(),
    ensures
        sum_at(s.remove(i), p) == sum_at(s, p) - (if s[i].position == p { s[i].amount as int } else { 0 }),
        pile_total(s.remove(i)) == pile_total(s) - s[i].amount,
    decreases s.len(),
{
    if i == s.len() - 1 {
        assert(s.remove(i) == s.drop_last());
    } else {
        lemma_remove_sums(s.drop_last(), i, p);
        assert(s.remove(i).drop_last() == s.drop_last().remove(i));
    }
}

/// In consistent piles, the material on a tile is the amount of its pile.
pub proof fn lemma_wf_sum_at(s: Seq<LooseResourcePile>, p: TilePos)
    requires
        piles_wf(s),
    ensures
        sum_at(s, p) == if has_pile_at(s, p) { s[pile_index_at(s, p)].amount as int } else { 0 },
        has_pile_at(s, p) ==> 0 <= pile_index_at(s, p) < s.len() && s[pile_index_at(s, p)].position == p,
    decreases s.len(),
{
    if s.len() > 0 {
        let init = s.drop_last();
        assert(piles_wf(init)) by {
            assert forall|i: int, j: int| 0 <= i < init.len() && 0 <= j < init.len() && i != j implies (#[trigger] init[i]).position != (#[trigger] init[j]).position by {
                assert(s[i] == init[i] && s[j] == init[j]);
            }
            assert forall|i: int| 0 <= i < init.len() implies (#[trigger] init[i]).amount > 0 by {
                assert(s[i] == init[i]);
            }
        }
        lemma_wf_sum_at(init, p);
        let last = s.len() - 1;
        if s[last].position == p {
            assert(!has_pile_at(init, p)) by {
                if has_pile_at(init, p) {
                    let k = pile_index_at(init, p);
                    assert(s[k].position == p);
                }
            }
            assert(has_pile_at(s, p)) by {
                assert(s[last].position == p);
            }
            let k = pile_index_at(s, p);
            assert(k == last);
        } else {
            if has_pile_at(init, p) {
                let k = pile_index_at(init, p);
                assert(s[k] == init[k]);
                assert(has_pile_at(s, p));
                let k2 = pile_index_at(s, p);
                assert(k2 == k);
            } else {
                assert(!has_pile_at(s, p)) by {
                    if has_pile_at(s, p) {
                        let k = pile_index_at(s, p);
                        assert(k != last);
                        assert(init[k] == s[k]);
                    }
                }
            }
        }
    } else {
        assert(!has_pile_at(s, p));
    }
}

/// Consistent piles hold at most their total on any one pile.
proof fn lemma_wf_pile_le_total(s: Seq<LooseResourcePile>, i: int)
    requires
        piles_wf(s),
        0 <= i < s.len(),
    ensures
        s[i].amount <= pile_total(s),
        pile_total(s) == positive_total(s),
        pile_total(s) >= 0,
    decreases s.len(),
{
    lemma_wf_total(s);
    let init = s.drop_last();
    assert(piles_wf(init)) by {
        assert forall|a: int| 0 <= a < init.len() implies (#[trigger] init[a]).amount > 0 by {
            assert(s[a] == init[a]);
        }
        assert forall|a: int, b: int| 0 <= a < init.len() && 0 <= b < init.len() && a != b implies (#[trigger] init[a]).position != (#[trigger] init[b]).position by {
            assert(s[a] == init[a] && s[b] == init[b]);
        }
    }
    lemma_wf_total(init);
    if i < s.len() - 1 {
        lemma_wf_pile_le_total(init, i);
    }
}

proof fn lemma_wf_total(s: Seq<LooseResourcePile>)
    requires
        forall|i: int| 0 <= i < s.len() ==> (#[trigger] s[i]).amount > 0,
    ensures
        pile_total(s) == positive_total(s),
        pile_total(s) >= 0,
    decreases s.len(),
{
    if s.len() > 0 {
        let init = s.drop_last();
        assert forall|i: int| 0 <= i < init.len() implies (#[trigger] init[i]).amount > 0 by {
            assert(s[i] == init[i]);
        }
        lemma_wf_total(init);
        assert(s[s.len() - 1].amount > 0);
    }
}

/// Adding material keeps the piles consistent and moves the sums by `amount`.
pub proof fn lemma_added(s: Seq<LooseResourcePile>, p: TilePos, amount: i32)
    requires
        piles_wf(s),
        amount > 0,
        pile_total(s) + amount <= i32::MAX,
    ensures
        piles_wf(added(s, p, amount)),
        forall|q: TilePos| #[trigger] sum_at(added(s, p, amount), q) == sum_at(s, q) + if q == p { amount as int } else { 0 },
        pile_total(added(s, p, amount)) == pile_total(s) + amount,
        added(s, p, amount).len() > 0,
{
    let r = added(s, p, amount);
    if has_pile_at(s, p) {
        let i = pile_index_at(s, p);
        lemma_wf_pile_le_total(s, i);
        let x = LooseResourcePile { position: p, amount: (s[i].amount + amount) as i32 };
        assert forall|q: TilePos| #[trigger] sum_at(r, q) == sum_at(s, q) + if q == p { amount as int } else { 0 } by {
            lemma_update_sums(s, i, x, q);
        }
        lemma_update_sums(s, i, x, p);
        assert forall|a: int, b: int| 0 <= a < r.len() && 0 <= b < r.len() && a != b implies (#[trigger] r[a]).position != (#[trigger] r[b]).position by {
            if a != i && b != i {
                assert(r[a] == s[a] && r[b] == s[b]);
            } else if a == i {
                assert(r[b] == s[b]);
            } else {
                assert(r[a] == s[a]);
            }
        }
        assert forall|a: int| 0 <= a < r.len() implies (#[trigger] r[a]).amount > 0 by {
            if a != i {
                assert(r[a] == s[a]);
            }
        }
    } else {
        let x = LooseResourcePile { position: p, amount };
        assert forall|q: TilePos| #[trigger] sum_at(r, q) == sum_at(s, q) + if q == p { amount as int } else { 0 } by {
            lemma_push_sums(s, x, q);
        }
        lemma_push_sums(s, x, p);
        assert forall|a: int, b: int| 0 <= a < r.len() && 0 <= b < r.len() && a != b implies (#[trigger] r[a]).position != (#[trigger] r[b]).position by {
            if a < s.len() && b < s.len() {
                assert(r[a] == s[a] && r[b] == s[b]);
            } else if a < s.len() {
                assert(r[a] == s[a]);
            } else {
                assert(r[b] == s[b]);
            }
        }
        assert forall|a: int| 0 <= a < r.len() implies (#[trigger] r[a]).amount > 0 by {
            if a < s.len() {
                assert(r[a] == s[a]);
            }
        }
    }
}

/// Compacting yields consistent piles that keep every tile's positive total.
pub proof fn lemma_compacted(s: Seq<LooseResourcePile>)
    requires
        positive_total(s) <= i32::MAX,
    ensures
        piles_wf(compacted(s)),
        forall|q: TilePos| #[trigger] sum_at(compacted(s), q) == positive_sum_at(s, q),
        pile_total(compacted(s)) == positive_total(s),
        positive_total(s) >= 0,
    decreases s.len(),
{
    if s.len() == 0 {
        assert(compacted(s) == Seq::<LooseResourcePile>::empty());
    } else {
        let init = s.drop_last();
        let pile = s.last();
        lemma_positive_total_nonneg(init);
        lemma_compacted(init);
        let acc = compacted(init);
        if pile.amount > 0 {
            lemma_added(acc, pile.position, pile.amount);
        }
    }
}

/// The index of the first pile of `s` holding material on `q`, or -1.
pub open spec fn first_stocked(s: Seq<LooseResourcePile>, q: TilePos) -> int
    decreases s.len(),
{
    if s.len() == 0 {
        -1
    } else {
        let f = first_stocked(s.drop_last(), q);
        if f >= 0 {
            f
        } else if s.last().position == q && s.last().amount > 0 {
            s.len() - 1
        } else {
            -1
        }
    }
}

proof fn lemma_first_stocked(s: Seq<LooseResourcePile>, q: TilePos)
    ensures
        -1 <= first_stocked(s, q) < s.len(),
        positive_sum_at(s, q) >= 0,
        first_stocked(s, q) >= 0 <==> positive_sum_at(s, q) > 0,
    decreases s.len(),
{
    if s.len() > 0 {
        lemma_first_stocked(s.drop_last(), q);
    }
}

proof fn lemma_no_pile_sums_zero(s: Seq<LooseResourcePile>, q: TilePos)
    requires
        !has_pile_at(s, q),
    ensures
        sum_at(s, q) == 0,
    decreases s.len(),
{
    if s.len() > 0 {
        let init = s.drop_last();
        assert(!has_pile_at(init, q)) by {
            if has_pile_at(init, q) {
                let k = choose|k: int| 0 <= k < init.len() && (#[trigger] init[k]).position == q;
                assert(s[k] == init[k]);
            }
        }
        lemma_no_pile_sums_zero(init, q);
        assert(s[s.len() - 1] == s.last());
    }
}

/// Compacting keeps the tiles in the order their material first appears.
pub proof fn lemma_compacted_order(s: Seq<LooseResourcePile>)
    requires
        positive_total(s) <= i32::MAX,
    ensures
        forall|i: int| 0 <= i < compacted(s).len() ==> first_stocked(s, (#[trigger] compacted(s)[i]).position) >= 0,
        forall|i: int, j: int|
            0 <= i < j < compacted(s).len() ==> first_stocked(s, (#[trigger] compacted(s)[i]).position) < first_stocked(
                s,
                (#[trigger] compacted(s)[j]).position,
            ),
    decreases s.len(),
{
    if s.len() > 0 {
        let init = s.drop_last();
        let pile = s.last();
        lemma_positive_total_nonneg(init);
        lemma_compacted_order(init);
        lemma_compacted(init);
        let c0 = compacted(init);
        let c = compacted(s);
        assert forall|q: TilePos| first_stocked(init, q) >= 0 implies first_stocked(s, q) == first_stocked(init, q) by {}
        if pile.amount <= 0 {
            assert(c == c0);
        } else if has_pile_at(c0, pile.position) {
            let k = pile_index_at(c0, pile.position);
            assert(c == c0.update(k, LooseResourcePile { position: pile.position, amount: (c0[k].amount + pile.amount) as i32 }));
            assert forall|i: int| 0 <= i < c.len() implies (#[trigger] c[i]).position == c0[i].position by {}
            assert forall|i: int| 0 <= i < c.len() implies first_stocked(s, (#[trigger] c[i]).position) >= 0 by {
                assert(first_stocked(init, c0[i].position) >= 0);
            }
            assert forall|i: int, j: int| 0 <= i < j < c.len() implies first_stocked(s, (#[trigger] c[i]).position)
                < first_stocked(s, (#[trigger] c[j]).position) by {
                assert(first_stocked(init, c0[i].position) < first_stocked(init, c0[j].position));
                assert(first_stocked(init, c0[i].position) >= 0);
                assert(first_stocked(init, c0[j].position) >= 0);
            }
        } else {
            let p = pile.position;
            lemma_no_pile_sums_zero(c0, p);
            lemma_first_stocked(init, p);
            assert(first_stocked(init, p) == -1);
            assert(first_stocked(s, p) == s.len() - 1);
            assert(c == c0.push(LooseResourcePile { position: p, amount: pile.amount }));
            assert forall|i: int| 0 <= i < c.len() implies first_stocked(s, (#[trigger] c[i]).position) >= 0 by {
                if i < c0.len() {
                    assert(c[i] == c0[i]);
                    assert(first_stocked(init, c0[i].position) >= 0);
                }
            }
            assert forall|i: int, j: int| 0 <= i < j < c.len() implies first_stocked(s, (#[trigger] c[i]).position)
                < first_stocked(s, (#[trigger] c[j]).position) by {
                assert(c[i] == c0[i]);
                assert(first_stocked(init, c0[i].position) >= 0);
                lemma_first_stocked(init, c0[i].position);
                if j < c0.len() {
                    assert(c[j] == c0[j]);
                    assert(first_stocked(init, c0[i].position) < first_stocked(init, c0[j].position));
                    assert(first_stocked(init, c0[j].position) >= 0);
                }
            }
        }
    }
}

/// What `EconomyState::normalize_loose_piles` makes of one material: piles
/// with positive amounts on pairwise distinct tiles; a loose total equal to
/// their sum and a source tile equal to the last pile's; every tile holding
/// the positive amount it held before, in the order the tiles first held
/// material; and, in all, the old loose total when an old save listed no
/// piles, else the sum of the old positive piles.
pub proof fn lemma_normalized_loose_law(before: EconomyState, after: EconomyState, r: ResourceKind)
    requires
        before.normalizable(),
        after.loose_wf(),
        after.piles_of(r) == before.normalized_piles(r),
    ensures
        piles_wf(after.piles_of(r)),
        after.loose_of(r) == pile_total(after.piles_of(r)),
        after.source_of(r) == if after.piles_of(r).len() == 0 {
            None::<TilePos>
        } else {
            Some(after.piles_of(r).last().position)
        },
        forall|q: TilePos| #[trigger] sum_at(after.piles_of(r), q) == positive_sum_at(before.seeded_piles(r), q),
        forall|i: int, j: int|
            0 <= i < j < after.piles_of(r).len() ==> first_stocked(
                before.seeded_piles(r),
                (#[trigger] after.piles_of(r)[i]).position,
            ) < first_stocked(before.seeded_piles(r), (#[trigger] after.piles_of(r)[j]).position),
        pile_total(after.piles_of(r)) == if before.piles_of(r).len() == 0 && before.loose_of(r) > 0 {
            before.loose_of(r) as int
        } else {
            positive_total(before.piles_of(r))
        },
{
    let seeds = before.seeded_piles(r);
    assert(positive_total(seeds) <= i32::MAX);
    lemma_compacted(seeds);
    lemma_compacted_order(seeds);
    if before.piles_of(r).len() == 0 && before.loose_of(r) > 0 {
        assert(seeds == seeded(before.piles_of(r), before.loose_of(r), before.source_of(r)));
        assert(seeds.len() == 1);
        assert(seeds.drop_last() =~= Seq::<LooseResourcePile>::empty());
        assert(positive_total(seeds.drop_last()) == 0);
        assert(seeds.last().amount == before.loose_of(r));
    } else {
        assert(seeds == before.piles_of(r));
    }
}

proof fn lemma_positive_total_nonneg(s: Seq<LooseResourcePile>)
    ensures
        positive_total(s) >= 0,
    decreases s.len(),
{
    if s.len() > 0 {
        lemma_positive_total_nonneg(s.drop_last());
    }
}

/// Consistent piles are already compact.
pub proof fn lemma_compacted_wf(s: Seq<LooseResourcePile>)
    requires
        piles_wf(s),
    ensures
        compacted(s) == s,
    decreases s.len(),
{
    if s.len() > 0 {
        let init = s.drop_last();
        let last = s.last();
        assert(piles_wf(init)) by {
            assert forall|a: int| 0 <= a < init.len() implies (#[trigger] init[a]).amount > 0 by {
                assert(s[a] == init[a]);
            }
            assert forall|a: int, b: int| 0 <= a < init.len() && 0 <= b < init.len() && a != b implies (#[trigger] init[a]).position != (#[trigger] init[b]).position by {
                assert(s[a] == init[a] && s[b] == init[b]);
            }
        }
        lemma_compacted_wf(init);
        assert(s[s.len() - 1].amount > 0);
        assert(!has_pile_at(init, last.position)) by {
            if has_pile_at(init, last.position) {
                let k = pile_index_at(init, last.position);
                assert(s[k] == init[k]);
            }
        }
        assert(init.push(last) == s);
    }
}

/// Taking keeps the piles consistent and removes exactly the taken amount.
pub proof fn lemma_taken(s: Seq<LooseResourcePile>, p: TilePos, amount: i32)
    requires
        piles_wf(s),
        amount > 0,
    ensures
        piles_wf(taken_from(s, p, amount)),
        0 <= take_amount(s, p, amount) <= amount,
        take_amount(s, p, amount) == (if sum_at(s, p) < amount { sum_at(s, p) } else { amount as int }),
        forall|q: TilePos| #[trigger] sum_at(taken_from(s, p, amount), q) == sum_at(s, q) - if q == p {
            take_amount(s, p, amount) as int
        } else {
            0
        },
        pile_total(taken_from(s, p, amount)) == pile_total(s) - take_amount(s, p, amount),
{
    lemma_wf_sum_at(s, p);
    let r = taken_from(s, p, amount);
    if has_pile_at(s, p) {
        let i = pile_index_at(s, p);
        let t = take_amount(s, p, amount);
        if s[i].amount - t == 0 {
            assert forall|q: TilePos| #[trigger] sum_at(r, q) == sum_at(s, q) - if q == p { t as int } else { 0 } by {
                lemma_remove_sums(s, i, q);
            }
            lemma_remove_sums(s, i, p);
            assert forall|a: int, b: int| 0 <= a < r.len() && 0 <= b < r.len() && a != b implies (#[trigger] r[a]).position != (#[trigger] r[b]).position by {
                let a2 = if a < i { a } else { a + 1 };
                let b2 = if b < i { b } else { b + 1 };
                assert(r[a] == s[a2] && r[b] == s[b2]);
            }
            assert forall|a: int| 0 <= a < r.len() implies (#[trigger] r[a]).amount > 0 by {
                let a2 = if a < i { a } else { a + 1 };
                assert(r[a] == s[a2]);
            }
        } else {
            let x = LooseResourcePile { position: p, amount: (s[i].amount - t) as i32 };
            assert forall|q: TilePos| #[trigger] sum_at(r, q) == sum_at(s, q) - if q == p { t as int } else { 0 } by {
                lemma_update_sums(s, i, x, q);
            }
            lemma_update_sums(s, i, x, p);
            assert forall|a: int, b: int| 0 <= a < r.len() && 0 <= b < r.len() && a != b implies (#[trigger] r[a]).position != (#[trigger] r[b]).position by {
                if a != i && b != i {
                    assert(r[a] == s[a] && r[b] == s[b]);
                } else if a == i {
                    assert(r[b] == s[b]);
                } else {
                    assert(r[a] == s[a]);
                }
            }
            assert forall|a: int| 0 <= a < r.len() implies (#[trigger] r[a]).amount > 0 by {
                if a != i {
                    assert(r[a] == s[a]);
                }
            }
        }
    }
}

/// Adding material to a tile and then taking the same amount back returns
/// every amount taken and leaves the piles exactly as they were.
pub proof fn lemma_add_then_take_restores(s: Seq<LooseResourcePile>, p: TilePos, amount: i32)
    requires
        piles_wf(s),
        amount > 0,
        pile_total(s) + amount <= i32::MAX,
    ensures
        take_amount(added(s, p, amount), p, amount) == amount,
        taken_from(added(s, p, amount), p, amount) == s,
{
    lemma_added(s, p, amount);
    let r = added(s, p, amount);
    lemma_wf_sum_at(s, p);
    lemma_wf_sum_at(r, p);
    assert(has_pile_at(r, p));
    let j = pile_index_at(r, p);
    if has_pile_at(s, p) {
        let i = pile_index_at(s, p);
        assert(r[i].position == p);
        assert(j == i);
        assert(taken_from(r, p, amount) =~= s);
    } else {
        assert(r[s.len() as int].position == p);
        assert(j == s.len());
        assert(r.remove(j) =~= s);
    }
}

impl EconomyState {
    pub open spec fn piles_of(self, resource: ResourceKind) -> Seq<LooseResourcePile> {
        match resource {
            ResourceKind::Bones => self.loose_bones_piles@,
            ResourceKind::Wood => self.loose_wood_piles@,
        }
    }

    pub open spec fn loose_of(self, resource: ResourceKind) -> i32 {
        match resource {
            ResourceKind::Bones => self.loose_bones,
            ResourceKind::Wood => self.loose_wood,
        }
    }

    pub open spec fn source_of(self, resource: ResourceKind) -> Option<TilePos> {
        match resource {
            ResourceKind::Bones => self.loose_bones_source,
            ResourceKind::Wood => self.loose_wood_source,
        }
    }

    /// The piles of `resource` once old-save loose totals are turned into a pile.
    pub open spec fn seeded_piles(self, resource: ResourceKind) -> Seq<LooseResourcePile> {
        seeded(self.piles_of(resource), self.loose_of(resource), self.source_of(resource))
    }

    /// The piles of `resource` after normalisation.
    pub open spec fn normalized_piles(self, resource: ResourceKind) -> Seq<LooseResourcePile> {
        compacted(self.seeded_piles(resource))
    }

    /// The loose total and source tile agree with the piles: the total is
    /// their sum and the source is the tile of the last pile.
    pub open spec fn metadata_fresh(self, resource: ResourceKind) -> bool {
        let piles = self.piles_of(resource);
        &&& self.loose_of(resource) == pile_total(piles)
        &&& self.source_of(resource) == if piles.len() == 0 {
            None::<TilePos>
        } else {
            Some(piles.last().position)
        }
    }

    /// The loose-material bookkeeping of both resources is consistent.
    pub open spec fn loose_wf(self) -> bool {
        &&& piles_wf(self.loose_bones_piles@)
        &&& piles_wf(self.loose_wood_piles@)
        &&& self.metadata_fresh(ResourceKind::Bones)
        &&& self.metadata_fresh(ResourceKind::Wood)
    }

    /// Normalisation fits in the machine: the merged piles of each resource
    /// sum within `i32`.
    pub open spec fn normalizable(self) -> bool {
        &&& positive_total(self.seeded_piles(ResourceKind::Bones)) <= i32::MAX
        &&& positive_total(self.seeded_piles(ResourceKind::Wood)) <= i32::MAX
    }

    /// Everything but the loose-material bookkeeping is the same.
    /// The same loose material of both kinds: totals, source tiles and piles.
    pub open spec fn same_loose(self, other: EconomyState) -> bool {
        &&& self.loose_bones == other.loose_bones
        &&& self.loose_wood == other.loose_wood
        &&& self.loose_bones_source == other.loose_bones_source
        &&& self.loose_wood_source == other.loose_wood_source
        &&& self.loose_bones_piles@ == other.loose_bones_piles@
        &&& self.loose_wood_piles@ == other.loose_wood_piles@
    }

    pub open spec fn same_stock(self, other: EconomyState) -> bool {
        &&& self.bones == other.bones
        &&& self.mana == other.mana
        &&& self.wood == other.wood
        &&& self.storage_capacity == other.storage_capacity
        &&& self.shovels == other.shovels
        &&& self.ward_charges == other.ward_charges
        &&& self.corpses@ == other.corpses@
    }

    /// Materials in storage, saturating at the `i32` bounds.
    pub open spec fn stored_spec(self) -> i32 {
        clamp_i32(self.bones + self.wood)
    }

    /// Free storage room under `capacity`, never negative.
    pub open spec fn space_spec(self, capacity: i32) -> i32 {
        let room = clamp_i32(capacity - self.stored_spec());
        if room < 0 { 0 } else { room }
    }

    /// How much of `amount` fits into storage under `capacity`.
    pub open spec fn storable(self, amount: i32, capacity: i32) -> i32 {
        let wanted = if amount < 0 { 0 } else { amount };
        let room = self.space_spec(capacity);
        if wanted < room { wanted } else { room }
    }

    /// Storage never overflows: with stock within `capacity`, the stock
    /// plus whatever `store_resource` takes in stays within `capacity`.
    pub proof fn lemma_store_within_capacity(self, amount: i32, capacity: i32)
        requires
            i32::MIN <= self.bones + self.wood,
            self.bones + self.wood <= capacity,
        ensures
            0 <= self.storable(amount, capacity),
            self.bones + self.wood + self.storable(amount, capacity) <= capacity,
    {
    }

    /// Where the stock and the free room are `i32` values, what storage
    /// takes in is the requested amount (never below zero) capped by the
    /// room left under `capacity` (never below zero).
    pub proof fn lemma_storable_exact(self, amount: i32, capacity: i32)
        requires
            i32::MIN <= self.bones + self.wood <= i32::MAX,
            i32::MIN <= capacity - (self.bones + self.wood) <= i32::MAX,
        ensures
            self.storable(amount, capacity) == min_int(
                if amount < 0 { 0 } else { amount as int },
                if capacity - (self.bones + self.wood) < 0 { 0 } else { capacity - (self.bones + self.wood) },
            ),
    {
    }

    /// `self` with `amount` more of `resource` in storage.
    pub open spec fn with_stored(self, resource: ResourceKind, amount: int) -> EconomyState {
        match resource {
            ResourceKind::Bones => EconomyState { bones: (self.bones + amount) as i32, ..self },
            ResourceKind::Wood => EconomyState { wood: (self.wood + amount) as i32, ..self },
        }
    }

    pub fn stored_materials(&self) -> (stored: i32)
        ensures
            stored == self.stored_spec(),
    {
        let sum = self.bones as i64 + self.wood as i64;
        if sum > i32::MAX as i64 {
            i32::MAX
        } else if sum < i32::MIN as i64 {
            i32::MIN
        } else {
            sum as i32
        }
    }

    pub fn storage_space(&self, capacity: i32) -> (space: i32)
        ensures
            space == self.space_spec(capacity),
            space >= 0,
    {
        let diff = capacity as i64 - self.stored_materials() as i64;
        let room = if diff > i32::MAX as i64 {
            i32::MAX
        } else if diff < i32::MIN as i64 {
            i32::MIN
        } else {
            diff as i32
        };
        if room < 0 {
            0
        } else {
            room
        }
    }

    /// Puts as much of `amount` into storage as `capacity` allows and
    /// reports how much was stored.
    pub fn store_resource(&mut self, resource: ResourceKind, amount: i32, capacity: i32) -> (stored: i32)
        requires
            resource == ResourceKind::Bones ==> old(self).bones + old(self).storable(amount, capacity)
                <= i32::MAX,
            resource == ResourceKind::Wood ==> old(self).wood + old(self).storable(amount, capacity)
                <= i32::MAX,
        ensures
            stored == old(self).storable(amount, capacity),
            0 <= stored,
            *final(self) == old(self).with_stored(resource, stored as int),
            resource == ResourceKind::Bones ==> final(self).bones == old(self).bones + stored
                && final(self).wood == old(self).wood,
            resource == ResourceKind::Wood ==> final(self).wood == old(self).wood + stored
                && final(self).bones == old(self).bones,
            final(self).mana == old(self).mana,
            final(self).loose_bones_piles@ == old(self).loose_bones_piles@,
            final(self).loose_wood_piles@ == old(self).loose_wood_piles@,
            final(self).loose_bones == old(self).loose_bones,
            final(self).loose_wood == old(self).loose_wood,
            final(self).loose_bones_source == old(self).loose_bones_source,
            final(self).loose_wood_source == old(self).loose_wood_source,
            final(self).storage_capacity == old(self).storage_capacity,
            final(self).shovels == old(self).shovels,
            final(self).ward_charges == old(self).ward_charges,
    {
        let wanted = if amount < 0 { 0 } else { amount };
        let room = self.storage_space(capacity);
        let stored = if wanted < room { wanted } else { room };
        match resource {
            ResourceKind::Bones => self.bones = self.bones + stored,
            ResourceKind::Wood => self.wood = self.wood + stored,
        }
        stored
    }
}

/// Index of the pile on `position`, if any.
fn find_pile(piles: &Vec<LooseResourcePile>, position: TilePos) -> (index: Option<usize>)
    requires
        piles_wf(piles@),
    ensures
        index is Some <==> has_pile_at(piles@, position),
        index matches Some(i) ==> i == pile_index_at(piles@, position) && i < piles@.len(),
{
    let mut i: usize = 0;
    while i < piles.len()
        invariant
            i <= piles@.len(),
            piles_wf(piles@),
            forall|j: int| 0 <= j < i ==> (#[trigger] piles@[j]).position != position,
        decreases piles.len() - i,
    {
        if piles[i].position == position {
            proof {
                assert(has_pile_at(piles@, position));
                let k = pile_index_at(piles@, position);
                if k != i as int {
                    assert(piles@[k].position != piles@[i as int].position);
                }
            }
            return Some(i);
        }
        i = i + 1;
    }
    None
}

/// Adds `amount` to the pile on `position`, or appends a new pile.
fn add_to_piles(piles: &mut Vec<LooseResourcePile>, position: TilePos, amount: i32)
    requires
        piles_wf(old(piles)@),
        amount > 0,
        pile_total(old(piles)@) + amount <= i32::MAX,
    ensures
        final(piles)@ == added(old(piles)@, position, amount),
{
    proof {
        lemma_added(piles@, position, amount);
    }
    match find_pile(piles, position) {
        Some(i) => {
            proof {
                lemma_wf_pile_le_total(piles@, i as int);
            }
            let merged = LooseResourcePile { position, amount: piles[i].amount + amount };
            piles.set(i, merged);
        },
        None => {
            piles.push(LooseResourcePile { position, amount });
        },
    }
}

/// The piles merged by tile in order of first appearance, empty piles dropped.
fn compact_piles(piles: &Vec<LooseResourcePile>) -> (compact: Vec<LooseResourcePile>)
    requires
        positive_total(piles@) <= i32::MAX,
    ensures
        compact@ == compacted(piles@),
{
    let mut out: Vec<LooseResourcePile> = Vec::new();
    let mut i: usize = 0;
    while i < piles.len()
        invariant
            i <= piles@.len(),
            positive_total(piles@) <= i32::MAX,
            out@ == compacted(piles@.take(i as int)),
        decreases piles.len() - i,
    {
        let ghost pre = piles@.take(i as int);
        assert(piles@.take(i as int + 1).drop_last() == pre);
        proof {
            lemma_positive_total_prefix(piles@, i as int + 1);
            lemma_compacted(pre);
        }
        let pile = piles[i];
        if pile.amount > 0 {
            add_to_piles(&mut out, pile.position, pile.amount);
        }
        i = i + 1;
    }
    assert(piles@.take(piles@.len() as int) == piles@);
    out
}

proof fn lemma_positive_total_prefix(s: Seq<LooseResourcePile>, k: int)
    requires
        0 <= k <= s.len(),
    ensures
        positive_total(s.take(k)) <= positive_total(s),
    decreases s.len() - k,
{
    if k < s.len() {
        lemma_positive_total_prefix(s, k + 1);
        assert(s.take(k + 1).drop_last() == s.take(k));
    } else {
        assert(s.take(k) == s);
    }
}

/// The sum of the amounts of consistent piles and the tile of the last one.
fn pile_metadata(piles: &Vec<LooseResourcePile>) -> (meta: (i32, Option<TilePos>))
    requires
        piles_wf(piles@),
        pile_total(piles@) <= i32::MAX,
    ensures
        meta.0 == pile_total(piles@),
        meta.1 == if piles@.len() == 0 {
            None::<TilePos>
        } else {
            Some(piles@.last().position)
        },
{
    let mut total: i32 = 0;
    let mut i: usize = 0;
    while i < piles.len()
        invariant
            i <= piles@.len(),
            piles_wf(piles@),
            pile_total(piles@) <= i32::MAX,
            total == pile_total(piles@.take(i as int)),
        decreases piles.len() - i,
    {
        proof {
            assert(piles@.take(i as int + 1).drop_last() == piles@.take(i as int));
            lemma_wf_total(piles@.take(i as int + 1));
            lemma_pile_total_prefix(piles@, i as int + 1);
        }
        total = total + piles[i].amount;
        i = i + 1;
    }
    assert(piles@.take(piles@.len() as int) == piles@);
    let source = if piles.len() == 0 {
        None
    } else {
        Some(piles[piles.len() - 1].position)
    };
    (total, source)
}

proof fn lemma_pile_total_prefix(s: Seq<LooseResourcePile>, k: int)
    requires
        0 <= k <= s.len(),
        forall|i: int| 0 <= i < s.len() ==> (#[trigger] s[i]).amount > 0,
    ensures
        pile_total(s.take(k)) <= pile_total(s),
    decreases s.len() - k,
{
    if k < s.len() {
        lemma_pile_total_prefix(s, k + 1);
        assert(s.take(k + 1).drop_last() == s.take(k));
        assert(s[k].amount > 0);
    } else {
        assert(s.take(k) == s);
    }
}

impl EconomyState {
    /// Turns old-save loose totals into piles, merges piles by tile, and
    /// refreshes the loose totals and source tiles from the piles.
    pub fn normalize_loose_piles(&mut self)
        requires
            old(self).normalizable(),
        ensures
            final(self).loose_wf(),
            final(self).loose_bones_piles@ == old(self).normalized_piles(ResourceKind::Bones),
            final(self).loose_wood_piles@ == old(self).normalized_piles(ResourceKind::Wood),
            final(self).same_stock(*old(self)),
    {
        if self.loose_bones_piles.len() == 0 && self.loose_bones > 0 {
            let position = match self.loose_bones_source {
                Some(t) => t,
                None => compatibility_stockpile_position(),
            };
            self.loose_bones_piles.push(LooseResourcePile { position, amount: self.loose_bones });
        }
        if self.loose_wood_piles.len() == 0 && self.loose_wood > 0 {
            let position = match self.loose_wood_source {
                Some(t) => t,
                None => compatibility_stockpile_position(),
            };
            self.loose_wood_piles.push(LooseResourcePile { position, amount: self.loose_wood });
        }
        assert(self.loose_bones_piles@ =~= old(self).seeded_piles(ResourceKind::Bones));
        assert(self.loose_wood_piles@ =~= old(self).seeded_piles(ResourceKind::Wood));
        proof {
            lemma_compacted(self.loose_bones_piles@);
            lemma_compacted(self.loose_wood_piles@);
        }
        self.loose_bones_piles = compact_piles(&self.loose_bones_piles);
        self.loose_wood_piles = compact_piles(&self.loose_wood_piles);
        self.refresh_metadata(ResourceKind::Bones);
        self.refresh_metadata(ResourceKind::Wood);
    }

    fn refresh_metadata(&mut self, resource: ResourceKind)
        requires
            piles_wf(old(self).piles_of(resource)),
            pile_total(old(self).piles_of(resource)) <= i32::MAX,
        ensures
            final(self).metadata_fresh(resource),
            final(self).loose_bones_piles@ == old(self).loose_bones_piles@,
            final(self).loose_wood_piles@ == old(self).loose_wood_piles@,
            final(self).same_stock(*old(self)),
            resource == ResourceKind::Bones ==> final(self).loose_wood == old(self).loose_wood
                && final(self).loose_wood_source == old(self).loose_wood_source,
            resource == ResourceKind::Wood ==> final(self).loose_bones == old(self).loose_bones
                && final(self).loose_bones_source == old(self).loose_bones_source,
    {
        match resource {
            ResourceKind::Bones => {
                let (total, source) = pile_metadata(&self.loose_bones_piles);
                self.loose_bones = total;
                self.loose_bones_source = source;
            },
            ResourceKind::Wood => {
                let (total, source) = pile_metadata(&self.loose_wood_piles);
                self.loose_wood = total;
                self.loose_wood_source = source;
            },
        }
    }

    /// The loose piles of `resource`; an old save without piles shows its
    /// loose total as one pile on its source tile, or on `fallback`.
    pub fn loose_piles(&self, resource: ResourceKind, fallback: TilePos) -> (piles: Vec<LooseResourcePile>)
        ensures
            piles@ == (if self.piles_of(resource).len() == 0 && self.loose_of(resource) > 0 {
                seq![
                    LooseResourcePile {
                        position: match self.source_of(resource) {
                            Some(t) => t,
                            None => fallback,
                        },
                        amount: self.loose_of(resource),
                    },
                ]
            } else {
                self.piles_of(resource)
            }),
    {
        let piles = match resource {
            ResourceKind::Bones => &self.loose_bones_piles,
            ResourceKind::Wood => &self.loose_wood_piles,
        };
        if piles.len() > 0 {
            return piles.clone();
        }
        let (amount, source) = match resource {
            ResourceKind::Bones => (self.loose_bones, self.loose_bones_source),
            ResourceKind::Wood => (self.loose_wood, self.loose_wood_source),
        };
        let mut out: Vec<LooseResourcePile> = Vec::new();
        if amount > 0 {
            let position = match source {
                Some(t) => t,
                None => fallback,
            };
            out.push(LooseResourcePile { position, amount });
        }
        assert(piles@.len() == 0);
        out
    }

    /// The loose material of `resource` lying on `position`.
    pub fn loose_amount_at(&self, resource: ResourceKind, position: TilePos) -> (amount: i32)
        requires
            forall|k: int|
                0 <= k <= self.seeded_piles(resource).len() ==> i32::MIN <= #[trigger] sum_at(
                    self.seeded_piles(resource).take(k),
                    position,
                ) <= i32::MAX,
        ensures
            amount == sum_at(self.seeded_piles(resource), position),
    {
        let piles = self.loose_piles(resource, compatibility_stockpile_position());
        assert(piles@ == self.seeded_piles(resource));
        let mut total: i32 = 0;
        let mut i: usize = 0;
        while i < piles.len()
            invariant
                i <= piles@.len(),
                piles@ == self.seeded_piles(resource),
                forall|k: int|
                    0 <= k <= piles@.len() ==> i32::MIN <= #[trigger] sum_at(piles@.take(k), position)
                        <= i32::MAX,
                total == sum_at(piles@.take(i as int), position),
            decreases piles.len() - i,
        {
            assert(piles@.take(i as int + 1).drop_last() == piles@.take(i as int));
            assert(i32::MIN <= sum_at(piles@.take(i as int + 1), position) <= i32::MAX);
            if piles[i].position == position {
                total = total + piles[i].amount;
            }
            i = i + 1;
        }
        assert(piles@.take(piles@.len() as int) == piles@);
        total
    }

    /// Drops `amount` of `resource` on `position`, merging with the pile
    /// already there, after normalising the piles.
    pub fn add_loose(&mut self, resource: ResourceKind, position: TilePos, amount: i32)
        requires
            amount > 0 ==> old(self).normalizable(),
            amount > 0 ==> positive_total(old(self).seeded_piles(resource)) + amount <= i32::MAX,
        ensures
            amount <= 0 ==> *final(self) == *old(self),
            amount > 0 ==> {
                &&& final(self).loose_wf()
                &&& final(self).same_stock(*old(self))
                &&& final(self).piles_of(resource) == added(old(self).normalized_piles(resource), position, amount)
                &&& forall|other: ResourceKind|
                    other != resource ==> final(self).piles_of(other) == old(self).normalized_piles(other)
            },
    {
        if amount <= 0 {
            return;
        }
        proof {
            lemma_compacted(old(self).seeded_piles(resource));
        }
        self.normalize_loose_piles();
        match resource {
            ResourceKind::Bones => add_to_piles(&mut self.loose_bones_piles, position, amount),
            ResourceKind::Wood => add_to_piles(&mut self.loose_wood_piles, position, amount),
        }
        proof {
            lemma_added(old(self).normalized_piles(resource), position, amount);
        }
        self.refresh_metadata(resource);
    }

    /// Takes up to `amount` of `resource` from the pile on `position` after
    /// normalising the piles, and reports how much was taken.
    pub fn take_loose(&mut self, resource: ResourceKind, position: TilePos, amount: i32) -> (taken: i32)
        requires
            amount > 0 ==> old(self).normalizable(),
        ensures
            amount <= 0 ==> taken == 0 && *final(self) == *old(self),
            amount > 0 ==> {
                &&& final(self).loose_wf()
                &&& final(self).same_stock(*old(self))
                &&& taken == take_amount(old(self).normalized_piles(resource), position, amount)
                &&& final(self).piles_of(resource) == taken_from(old(self).normalized_piles(resource), position, amount)
                &&& forall|other: ResourceKind|
                    other != resource ==> final(self).piles_of(other) == old(self).normalized_piles(other)
            },
    {
        if amount <= 0 {
            return 0;
        }
        self.normalize_loose_piles();
        proof {
            lemma_taken(self.piles_of(resource), position, amount);
            lemma_wf_sum_at(self.piles_of(resource), position);
        }
        let taken = match resource {
            ResourceKind::Bones => take_from_piles(&mut self.loose_bones_piles, position, amount),
            ResourceKind::Wood => take_from_piles(&mut self.loose_wood_piles, position, amount),
        };
        proof {
            let before = old(self).normalized_piles(resource);
            lemma_wf_total(before);
            lemma_wf_total(self.piles_of(resource));
        }
        self.refresh_metadata(resource);
        taken
    }
}

/// Takes up to `amount` from the pile on `position`, removing it when emptied.
fn take_from_piles(piles: &mut Vec<LooseResourcePile>, position: TilePos, amount: i32) -> (taken: i32)
    requires
        piles_wf(old(piles)@),
        amount > 0,
    ensures
        taken == take_amount(old(piles)@, position, amount),
        final(piles)@ == taken_from(old(piles)@, position, amount),
{
    match find_pile(piles, position) {
        None => 0,
        Some(i) => {
            let current = piles[i].amount;
            let taken = if current < amount { current } else { amount };
            if current - taken == 0 {
                piles.remove(i);
            } else {
                piles.set(i, LooseResourcePile { position, amount: current - taken });
            }
            taken
        },
    }
}

} // verus!
