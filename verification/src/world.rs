//! The cemetery map: plots, structures, forest, road and the district marks
//! the player paints on it.

use vstd::prelude::*;
use crate::kinds::{BuildingKind, PlotStatus, ZoneKind};
use crate::policies::DistrictRoutePolicies;
use crate::tile::{manhattan, tile_distance, tile_position, tiles_contain, TilePos};

verus! {

/// A grave plot on the hidden side of the road.
#[derive(Debug, Clone, Copy, PartialEq, Eq, Structural)]
pub struct Plot {
    pub id: usize,
    pub position: TilePos,
    pub status: PlotStatus,
}

/// A structure footprint: its top-left tile and its size in tiles.
#[derive(Debug, Clone, Copy, PartialEq, Eq, Structural)]
pub struct Building {
    pub kind: BuildingKind,
    pub complete: bool,
    pub position: TilePos,
    pub width: i32,
    pub height: i32,
}

/// The footprint width assumed for a structure saved without one.
pub fn default_building_width() -> (width: i32)
    ensures
        width == 2,
{
    2
}

/// The footprint height assumed for a structure saved without one.
pub fn default_building_height() -> (height: i32)
    ensures
        height == 2,
{
    2
}

/// The tile a structure covers.
pub open spec fn in_footprint(building: Building, tile: TilePos) -> bool {
    &&& building.position.x <= tile.x
    &&& tile.x < building.position.x + building.width
    &&& building.position.y <= tile.y
    &&& tile.y < building.position.y + building.height
}

/// Footprint membership, computed without overflow.
pub fn footprint_contains(building: &Building, tile: TilePos) -> (inside: bool)
    ensures
        inside == in_footprint(*building, tile),
{
    let x = tile.x as i64;
    let y = tile.y as i64;
    let bx = building.position.x as i64;
    let by = building.position.y as i64;
    x >= bx && x < bx + building.width as i64 && y >= by && y < by + building.height as i64
}

/// Whether any structure of `buildings` covers `tile`.
pub fn any_footprint_contains(buildings: &Vec<Building>, tile: TilePos) -> (covered: bool)
    ensures
        covered == exists|i: int| 0 <= i < buildings@.len() && in_footprint(#[trigger] buildings@[i], tile),
{
    let mut i: usize = 0;
    while i < buildings.len()
        invariant
            i <= buildings@.len(),
            forall|j: int| 0 <= j < i ==> !in_footprint(#[trigger] buildings@[j], tile),
        decreases buildings.len() - i,
    {
        if footprint_contains(&buildings[i], tile) {
            return true;
        }
        i = i + 1;
    }
    false
}

/// Where a worker stands to work on a structure: the tile left of it, or the
/// tile right of it when the structure touches the left edge.
pub open spec fn work_tile(building: Building) -> TilePos {
    if building.position.x > 0 {
        TilePos { x: (building.position.x - 1) as i32, y: building.position.y }
    } else {
        TilePos { x: (building.position.x + building.width) as i32, y: building.position.y }
    }
}

impl Building {
    pub fn work_position(&self) -> (tile: TilePos)
        requires
            self.position.x > 0 || i32::MIN <= self.position.x + self.width <= i32::MAX,
        ensures
            tile == work_tile(*self),
    {
        if self.position.x > 0 {
            TilePos::new(self.position.x - 1, self.position.y)
        } else {
            TilePos::new(self.position.x + self.width, self.position.y)
        }
    }
}

/// What the player has selected on the map.
#[derive(Debug, Clone, Copy, PartialEq, Eq, Structural)]
pub enum Selection {
    Grave(usize),
    Worker(usize),
    Building(usize),
    Ground(TilePos),
    Necromancer,
}

/// A district mark: a kind and the tiles painted with it.
#[derive(Debug, Clone)]
pub struct Zone {
    pub kind: ZoneKind,
    pub tiles: Vec<TilePos>,
}

impl Zone {
    /// Unmarks the first copy of `tile` and reports `true`, or marks it at the
    /// end and reports `false` when it was not marked.
    pub fn toggle_tile(&mut self, tile: TilePos) -> (removed: bool)
        ensures
            final(self).kind == old(self).kind,
            removed == old(self).tiles@.contains(tile),
            removed ==> exists|i: int|
                0 <= i < old(self).tiles@.len() && old(self).tiles@[i] == tile && (forall|j: int|
                    0 <= j < i ==> old(self).tiles@[j] != tile) && final(self).tiles@ == old(
                    self,
                ).tiles@.remove(i),
            !removed ==> final(self).tiles@ == old(self).tiles@.push(tile),
    {
        match tile_position(&self.tiles, tile) {
            Some(index) => {
                self.tiles.remove(index);
                true
            },
            None => {
                self.tiles.push(tile);
                false
            },
        }
    }
}

/// Toggling a tile twice leaves the zone marking the same tiles, and each
/// toggle flips whether the tile is marked (for a zone without repeated tiles).
pub proof fn lemma_toggle_twice(before: Seq<TilePos>, middle: Seq<TilePos>, after: Seq<TilePos>, tile: TilePos)
    requires
        before.no_duplicates(),
        toggled(before, middle, tile),
        toggled(middle, after, tile),
    ensures
        middle.contains(tile) == !before.contains(tile),
        after.contains(tile) == before.contains(tile),
        after.to_set() == before.to_set(),
        !before.contains(tile) ==> after == before,
{
    if before.contains(tile) {
        let i = choose|i: int|
            0 <= i < before.len() && before[i] == tile && (forall|j: int|
                0 <= j < i ==> before[j] != tile) && middle == before.remove(i);
        assert(!middle.contains(tile)) by {
            if middle.contains(tile) {
                let k = choose|k: int| 0 <= k < middle.len() && middle[k] == tile;
                if k < i {
                    assert(middle[k] == before[k]);
                } else {
                    assert(middle[k] == before[k + 1]);
                }
            }
        }
        assert(after == middle.push(tile));
        assert forall|t: TilePos| after.to_set().contains(t) <==> before.to_set().contains(t) by {
            if before.contains(t) {
                let k = choose|k: int| 0 <= k < before.len() && before[k] == t;
                if k < i {
                    assert(after[k] == t);
                } else if k > i {
                    assert(after[k - 1] == t);
                } else {
                    assert(after[after.len() - 1] == t);
                }
            }
            if after.contains(t) {
                let k = choose|k: int| 0 <= k < after.len() && after[k] == t;
                if k < i {
                    assert(before[k] == t);
                } else if k < after.len() - 1 {
                    assert(before[k + 1] == t);
                } else {
                    assert(before[i] == t);
                }
            }
        }
        assert(after.to_set() =~= before.to_set());
        assert(after[after.len() - 1] == tile);
    } else {
        assert(middle == before.push(tile));
        assert(middle[middle.len() - 1] == tile);
        let i = choose|i: int|
            0 <= i < middle.len() && middle[i] == tile && (forall|j: int|
                0 <= j < i ==> middle[j] != tile) && after == middle.remove(i);
        assert(i == middle.len() - 1) by {
            if i < middle.len() - 1 {
                assert(before[i] == tile);
            }
        }
        assert(after =~= before);
    }
}

/// The relation `Zone::toggle_tile` establishes between the marked tiles
/// before and after one call.
pub open spec fn toggled(before: Seq<TilePos>, after: Seq<TilePos>, tile: TilePos) -> bool {
    if before.contains(tile) {
        exists|i: int|
            0 <= i < before.len() && before[i] == tile && (forall|j: int| 0 <= j < i ==> before[j] != tile)
                && after == before.remove(i)
    } else {
        after == before.push(tile)
    }
}

/// The index of the first copy of `tile` in `tiles`.
pub open spec fn first_at(tiles: Seq<TilePos>, tile: TilePos) -> int {
    choose|i: int| 0 <= i < tiles.len() && tiles[i] == tile && forall|j: int| 0 <= j < i ==> tiles[j] != tile
}

/// `tiles` with its first copy of `tile` removed, or with `tile` added at the
/// end when it holds none.
pub open spec fn toggled_tiles(tiles: Seq<TilePos>, tile: TilePos) -> Seq<TilePos> {
    if tiles.contains(tile) {
        tiles.remove(first_at(tiles, tile))
    } else {
        tiles.push(tile)
    }
}

/// One toggle has one outcome.
pub proof fn lemma_toggled_tiles(before: Seq<TilePos>, after: Seq<TilePos>, tile: TilePos)
    requires
        toggled(before, after, tile),
    ensures
        after == toggled_tiles(before, tile),
{
    if before.contains(tile) {
        let i = choose|i: int|
            0 <= i < before.len() && before[i] == tile && (forall|j: int| 0 <= j < i ==> before[j] != tile) && after
                == before.remove(i);
        let k = first_at(before, tile);
        assert(0 <= k < before.len() && before[k] == tile && forall|j: int| 0 <= j < k ==> before[j] != tile);
        if i < k {
            assert(before[i] != tile);
        }
        if k < i {
            assert(before[k] != tile);
        }
        assert(i == k);
    }
}

/// The tiles marked with `kind`, zone by zone in order.
pub open spec fn district_tiles(zones: Seq<Zone>, kind: ZoneKind) -> Seq<TilePos>
    decreases zones.len(),
{
    if zones.len() == 0 {
        Seq::empty()
    } else {
        let rest = district_tiles(zones.drop_last(), kind);
        if zones.last().kind == kind {
            rest + zones.last().tiles@
        } else {
            rest
        }
    }
}

/// The first tile of `tiles` at the least Manhattan distance from `origin`.
pub open spec fn first_nearest(tiles: Seq<TilePos>, origin: TilePos) -> Option<TilePos>
    decreases tiles.len(),
{
    if tiles.len() == 0 {
        None
    } else {
        match first_nearest(tiles.drop_last(), origin) {
            None => Some(tiles.last()),
            Some(best) => if manhattan(origin, tiles.last()) < manhattan(origin, best) {
                Some(tiles.last())
            } else {
                Some(best)
            },
        }
    }
}

/// The tiles marked with `kind`, zone by zone in order.
pub fn collect_district_tiles(zones: &Vec<Zone>, kind: ZoneKind) -> (tiles: Vec<TilePos>)
    ensures
        tiles@ == district_tiles(zones@, kind),
{
    let mut out: Vec<TilePos> = Vec::new();
    let mut i: usize = 0;
    while i < zones.len()
        invariant
            i <= zones@.len(),
            out@ == district_tiles(zones@.take(i as int), kind),
        decreases zones.len() - i,
    {
        assert(zones@.take(i as int + 1).drop_last() == zones@.take(i as int));
        if zones[i].kind == kind {
            let mut j: usize = 0;
            while j < zones[i].tiles.len()
                invariant
                    i < zones@.len(),
                    zones@[i as int].kind == kind,
                    j <= zones@[i as int].tiles@.len(),
                    out@ == district_tiles(zones@.take(i as int), kind) + zones@[i as int].tiles@.take(
                        j as int,
                    ),
                decreases zones@[i as int].tiles@.len() - j,
            {
                out.push(zones[i].tiles[j]);
                assert(zones@[i as int].tiles@.take(j as int + 1) == zones@[i as int].tiles@.take(
                    j as int,
                ).push(zones@[i as int].tiles@[j as int]));
                j = j + 1;
            }
            assert(zones@[i as int].tiles@.take(j as int) == zones@[i as int].tiles@);
        }
        i = i + 1;
    }
    assert(zones@.take(zones@.len() as int) == zones@);
    out
}

/// The first tile of `tiles` nearest to `origin`, if there is any tile.
pub fn nearest_tile_of(tiles: &Vec<TilePos>, origin: TilePos) -> (nearest: Option<TilePos>)
    ensures
        nearest == first_nearest(tiles@, origin),
{
    let mut best: Option<TilePos> = None;
    let mut best_distance: i64 = 0;
    let mut i: usize = 0;
    while i < tiles.len()
        invariant
            i <= tiles@.len(),
            best == first_nearest(tiles@.take(i as int), origin),
            best matches Some(b) ==> best_distance == manhattan(origin, b),
        decreases tiles.len() - i,
    {
        assert(tiles@.take(i as int + 1).drop_last() == tiles@.take(i as int));
        let d = tile_distance(origin, tiles[i]);
        match best {
            None => {
                best = Some(tiles[i]);
                best_distance = d;
            },
            Some(_) => {
                if d < best_distance {
                    best = Some(tiles[i]);
                    best_distance = d;
                }
            },
        }
        i = i + 1;
    }
    assert(tiles@.take(tiles@.len() as int) == tiles@);
    best
}

/// The cemetery map and everything placed on it.
#[derive(Debug, Clone)]
pub struct WorldState {
    pub width: usize,
    pub height: usize,
    pub selected_plot: Option<usize>,
    pub plots: Vec<Plot>,
    pub buildings: Vec<Building>,
    pub road_x: i32,
    pub mana_source: TilePos,
    pub stockpile_position: TilePos,
    pub forest_tiles: Vec<TilePos>,
    pub necromancer_position: TilePos,
    pub necromancer_destination: Option<TilePos>,
    pub selected: Option<Selection>,
    pub zones: Vec<Zone>,
    pub route_policies: DistrictRoutePolicies,
}

/// The roadside post that guards keep when no patrol tile is marked.
pub open spec fn guard_tile(road_x: i32) -> TilePos {
    TilePos { x: if road_x == i32::MIN { i32::MIN } else { (road_x - 1) as i32 }, y: 1 }
}

/// Whether a zone of `kind` marks `tile`.
pub open spec fn zones_mark(zones: Seq<Zone>, kind: ZoneKind, tile: TilePos) -> bool {
    exists|i: int| 0 <= i < zones.len() && #[trigger] zones[i].kind == kind && zones[i].tiles@.contains(tile)
}

/// The first tile of the first zone of `kind`, or `fallback`.
pub open spec fn anchor_of(zones: Seq<Zone>, kind: ZoneKind, fallback: TilePos) -> TilePos {
    if exists|i: int| 0 <= i < zones.len() && #[trigger] zones[i].kind == kind {
        let i = choose|i: int|
            0 <= i < zones.len() && #[trigger] zones[i].kind == kind && forall|j: int|
                0 <= j < i ==> zones[j].kind != kind;
        if zones[i].tiles@.len() > 0 {
            zones[i].tiles@[0]
        } else {
            fallback
        }
    } else {
        fallback
    }
}

/// Whether the player may paint a district mark on `tile`: inside the world,
/// on the hidden side of the road, and not under a structure.
pub open spec fn zone_tile_allowed(world: WorldState, tile: TilePos) -> bool {
    &&& tile.x >= 0
    &&& tile.y >= 0
    &&& tile.x < world.width as i32
    &&& tile.y < world.height as i32
    &&& tile.x < world.road_x
    &&& !exists|i: int| 0 <= i < world.buildings@.len() && in_footprint(#[trigger] world.buildings@[i], tile)
}

/// Whether a new structure may not cover `tile`: the road, the forest and
/// the grave plots are in the way.
pub open spec fn building_obstacle(world: WorldState, tile: TilePos) -> bool {
    ||| tile.x >= world.road_x
    ||| world.forest_tiles@.contains(tile)
    ||| exists|i: int| 0 <= i < world.plots@.len() && (#[trigger] world.plots@[i]).position == tile
}

impl WorldState {
    pub fn guard_position(road_x: i32) -> (tile: TilePos)
        ensures
            tile == guard_tile(road_x),
    {
        let x = if road_x == i32::MIN { i32::MIN } else { road_x - 1 };
        TilePos::new(x, 1)
    }

    pub fn stockpile_position(&self) -> (tile: TilePos)
        ensures
            tile == self.stockpile_position,
    {
        self.stockpile_position
    }

    /// The marked storage tile nearest to the stockpile, or the stockpile.
    pub fn storage_position(&self) -> (tile: TilePos)
        ensures
            tile == (match first_nearest(district_tiles(self.zones@, ZoneKind::Storage), self.stockpile_position) {
                Some(t) => t,
                None => self.stockpile_position,
            }),
    {
        self.storage_position_for(self.stockpile_position)
    }

    /// The marked storage tile nearest to `origin`, or the stockpile.
    pub fn storage_position_for(&self, origin: TilePos) -> (tile: TilePos)
        ensures
            tile == (match first_nearest(district_tiles(self.zones@, ZoneKind::Storage), origin) {
                Some(t) => t,
                None => self.stockpile_position,
            }),
    {
        let tiles = collect_district_tiles(&self.zones, ZoneKind::Storage);
        match nearest_tile_of(&tiles, origin) {
            Some(t) => t,
            None => self.stockpile_position,
        }
    }

    /// The first marked patrol tile, or the roadside guard post.
    pub fn patrol_position(&self) -> (tile: TilePos)
        ensures
            tile == anchor_of(self.zones@, ZoneKind::Patrol, guard_tile(self.road_x)),
    {
        self.zone_anchor(ZoneKind::Patrol, Self::guard_position(self.road_x))
    }

    /// The marked patrol tile nearest to `origin`, or the roadside guard post.
    pub fn patrol_position_for(&self, origin: TilePos) -> (tile: TilePos)
        ensures
            tile == (match first_nearest(district_tiles(self.zones@, ZoneKind::Patrol), origin) {
                Some(t) => t,
                None => guard_tile(self.road_x),
            }),
    {
        let tiles = collect_district_tiles(&self.zones, ZoneKind::Patrol);
        match nearest_tile_of(&tiles, origin) {
            Some(t) => t,
            None => Self::guard_position(self.road_x),
        }
    }

    pub fn zone_anchor(&self, kind: ZoneKind, fallback: TilePos) -> (tile: TilePos)
        ensures
            tile == anchor_of(self.zones@, kind, fallback),
    {
        let mut i: usize = 0;
        while i < self.zones.len()
            invariant
                i <= self.zones@.len(),
                forall|j: int| 0 <= j < i ==> self.zones@[j].kind != kind,
            decreases self.zones.len() - i,
        {
            if self.zones[i].kind == kind {
                let ghost first = i as int;
                assert(0 <= first < self.zones@.len() && self.zones@[first].kind == kind);
                let ghost chosen = choose|k: int|
                    0 <= k < self.zones@.len() && #[trigger] self.zones@[k].kind == kind && forall|j: int|
                        0 <= j < k ==> self.zones@[j].kind != kind;
                assert(chosen == first) by {
                    if chosen < first {
                        assert(self.zones@[chosen].kind != kind);
                    } else if chosen > first {
                        assert(self.zones@[first].kind != kind);
                    }
                }
                if self.zones[i].tiles.len() > 0 {
                    return self.zones[i].tiles[0];
                } else {
                    return fallback;
                }
            }
            i = i + 1;
        }
        fallback
    }

    pub fn zone_contains(&self, kind: ZoneKind, tile: TilePos) -> (marked: bool)
        ensures
            marked == zones_mark(self.zones@, kind, tile),
    {
        let mut i: usize = 0;
        while i < self.zones.len()
            invariant
                i <= self.zones@.len(),
                forall|j: int|
                    0 <= j < i ==> !(#[trigger] self.zones@[j].kind == kind && self.zones@[j].tiles@.contains(tile)),
            decreases self.zones.len() - i,
        {
            if self.zones[i].kind == kind && tiles_contain(&self.zones[i].tiles, tile) {
                return true;
            }
            i = i + 1;
        }
        false
    }

    pub fn is_zone_tile_allowed(&self, tile: TilePos) -> (allowed: bool)
        ensures
            allowed == zone_tile_allowed(*self, tile),
    {
        tile.x >= 0 && tile.y >= 0 && tile.x < self.width as i32 && tile.y < self.height as i32
            && tile.x < self.road_x && !any_footprint_contains(&self.buildings, tile)
    }

    pub fn is_building_obstacle(&self, tile: TilePos) -> (obstacle: bool)
        ensures
            obstacle == building_obstacle(*self, tile),
    {
        if tile.x >= self.road_x || tiles_contain(&self.forest_tiles, tile) {
            return true;
        }
        let mut i: usize = 0;
        while i < self.plots.len()
            invariant
                i <= self.plots@.len(),
                forall|j: int| 0 <= j < i ==> (#[trigger] self.plots@[j]).position != tile,
            decreases self.plots.len() - i,
        {
            if self.plots[i].position == tile {
                return true;
            }
            i = i + 1;
        }
        false
    }
}

} // verus!
