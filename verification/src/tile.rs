//! Integer tile coordinates on the cemetery grid.

use vstd::prelude::*;

verus! {

/// A tile on the cemetery grid; `x` grows to the right, `y` grows downward.
#[derive(Debug, Clone, Copy, PartialEq, Eq, Structural, Hash)]
pub struct TilePos {
    pub x: i32,
    pub y: i32,
}

impl TilePos {
    pub fn new(x: i32, y: i32) -> (tile: TilePos)
        ensures
            tile.x == x,
            tile.y == y,
    {
        TilePos { x, y }
    }
}

/// Manhattan distance between two tiles.
pub open spec fn manhattan(from: TilePos, to: TilePos) -> int {
    let dx = from.x - to.x;
    let dy = from.y - to.y;
    (if dx < 0 { -dx } else { dx }) + (if dy < 0 { -dy } else { dy })
}

/// Two tiles that share an edge.
pub open spec fn adjacent(a: TilePos, b: TilePos) -> bool {
    manhattan(a, b) == 1
}

/// Manhattan distance between two tiles, computed without overflow.
pub fn tile_distance(from: TilePos, to: TilePos) -> (d: i64)
    ensures
        d == manhattan(from, to),
{
    let dx = from.x as i64 - to.x as i64;
    let dy = from.y as i64 - to.y as i64;
    let ax = if dx < 0 { -dx } else { dx };
    let ay = if dy < 0 { -dy } else { dy };
    ax + ay
}

/// Whether `tiles` holds `tile`.
pub fn tiles_contain(tiles: &Vec<TilePos>, tile: TilePos) -> (found: bool)
    ensures
        found == tiles@.contains(tile),
{
    let mut i: usize = 0;
    while i < tiles.len()
        invariant
            i <= tiles@.len(),
            forall|j: int| 0 <= j < i ==> tiles@[j] != tile,
        decreases tiles.len() - i,
    {
        if tiles[i] == tile {
            return true;
        }
        i = i + 1;
    }
    false
}

/// Index of the first occurrence of `tile` in `tiles`.
pub fn tile_position(tiles: &Vec<TilePos>, tile: TilePos) -> (index: Option<usize>)
    ensures
        match index {
            Some(i) => i < tiles@.len() && tiles@[i as int] == tile && forall|j: int|
                0 <= j < i ==> tiles@[j] != tile,
            None => !tiles@.contains(tile),
        },
{
    let mut i: usize = 0;
    while i < tiles.len()
        invariant
            i <= tiles@.len(),
            forall|j: int| 0 <= j < i ==> tiles@[j] != tile,
        decreases tiles.len() - i,
    {
        if tiles[i] == tile {
            return Some(i);
        }
        i = i + 1;
    }
    None
}

} // verus!
