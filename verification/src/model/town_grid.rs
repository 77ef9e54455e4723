//! Walkable ground of the agent town and the way from one place to another.
//!
//! The town is 960 by 540 pixels. Its ground is a grid of tiles of 12 pixels,
//! 80 by 45; a tile is walkable or not.

use vstd::prelude::*;


verus! {

pub const TOWN_W: usize = 960;

pub const TOWN_H: usize = 540;

/// Pixels of a tile.
pub const TILE: i32 = 12;

/// Tiles in a row.
pub const GW: usize = 80;

/// Rows of tiles.
pub const GH: usize = 45;

/// Tiles of the town.
pub const TILES: usize = 3600;

/// Side on which a building has its door.
#[derive(Debug, Clone, Copy, PartialEq, Eq, Structural)]
pub enum Door {
    South,
    North,
    East,
    West,
}

/// A building: the stage that it stands for, its place in pixels, its door.
#[derive(Debug, Clone, Copy, PartialEq, Eq)]
pub struct BuildingDef {
    pub key: &'static str,
    pub x: i32,
    pub y: i32,
    pub w: i32,
    pub h: i32,
    pub roof: &'static str,
    pub wall: &'static str,
    pub door: Door,
}

/// A rectangle of pixels.
#[derive(Debug, Clone, Copy, PartialEq, Eq, Structural)]
pub struct Area {
    pub x: i32,
    pub y: i32,
    pub w: i32,
    pub h: i32,
}

/// Column or row of the tile at a pixel; what lies before the town counts as
/// its first tile.
pub open spec fn tile_at(p: int) -> int {
    if p < 0 {
        0
    } else {
        p / 12
    }
}

/// Whether a tile is one of those that an area of pixels touches.
pub open spec fn touches(a: Area, i: int, j: int) -> bool {
    &&& tile_at(a.x as int) <= i <= tile_at(a.x + a.w - 1)
    &&& tile_at(a.y as int) <= j <= tile_at(a.y + a.h - 1)
}

/// Whether an area can be marked: it is not empty and ends inside the town.
pub open spec fn markable(a: Area) -> bool {
    &&& -100_000 <= a.x && -100_000 <= a.y && 1 <= a.w <= 100_000 && 1 <= a.h <= 100_000
    &&& a.x + a.w <= 960
    &&& a.y + a.h <= 540
}

/// The grid with every tile that an area touches set to `val`.
pub open spec fn marked(grid: Seq<u8>, a: Area, val: u8) -> Seq<u8> {
    Seq::new(
        grid.len(),
        |k: int|
            if touches(a, k % 80, k / 80) {
                val
            } else {
                grid[k]
            },
    )
}

/// Column or row of the tile at a pixel.
fn tile_of(p: i32) -> (r: usize)
    ensures
        r == tile_at(p as int),
{
    if p < 0 {
        0
    } else {
        (p / 12) as usize
    }
}

/// Sets every tile that an area touches to `val`.
pub fn mark_rect(grid: &mut Vec<u8>, a: Area, val: u8)
    requires
        old(grid)@.len() == TILES,
        markable(a),
    ensures
        final(grid)@ == marked(old(grid)@, a, val),
{
    let ghost before = grid@;
    let x0: usize = tile_of(a.x);
    let y0: usize = tile_of(a.y);
    let x1: usize = tile_of(a.x + a.w - 1);
    let y1: usize = tile_of(a.y + a.h - 1);
    assert(x0 <= x1 < 80 && y0 <= y1 < 45);
    let mut j: usize = y0;
    while j <= y1
        invariant
            y0 <= j <= y1 + 1,
            x0 <= x1 < 80,
            y1 < 45,
            y0 == tile_at(a.y as int),
            y1 == tile_at(a.y + a.h - 1),
            x0 == tile_at(a.x as int),
            x1 == tile_at(a.x + a.w - 1),
            grid@.len() == 3600,
            before.len() == 3600,
            forall|k: int|
                0 <= k < 3600 ==> #[trigger] grid@[k] == if touches(a, k % 80, k / 80) && k / 80
                    < j {
                    val
                } else {
                    before[k]
                },
        decreases y1 + 1 - j,
    {
        let mut i: usize = x0;
        while i <= x1
            invariant
                x0 <= i <= x1 + 1,
                x1 < 80,
                y0 <= j <= y1,
                y1 < 45,
                y0 == tile_at(a.y as int),
                y1 == tile_at(a.y + a.h - 1),
                x0 == tile_at(a.x as int),
                x1 == tile_at(a.x + a.w - 1),
                grid@.len() == 3600,
                before.len() == 3600,
                forall|k: int|
                    0 <= k < 3600 ==> #[trigger] grid@[k] == if touches(a, k % 80, k / 80) && (k
                        / 80 < j || (k / 80 == j && k % 80 < i)) {
                        val
                    } else {
                        before[k]
                    },
            decreases x1 + 1 - i,
        {
            let k: usize = j * 80 + i;
            let ghost earlier = grid@;
            assert(k as int % 80 == i && k as int / 80 == j);
            assert(touches(a, i as int, j as int));
            grid.set(k, val);
            i = i + 1;
            assert forall|n: int| 0 <= n < 3600 implies #[trigger] grid@[n] == if touches(
                a,
                n % 80,
                n / 80,
            ) && (n / 80 < j || (n / 80 == j && n % 80 < i)) {
                val
            } else {
                before[n]
            } by {
                if n != k {
                    assert(grid@[n] == earlier[n]);
                    assert(n == 80 * (n / 80) + n % 80);
                }
            }
        }
        j = j + 1;
    }
    assert(grid@ =~= marked(before, a, val));
}

/// Whether the ground at a pixel can be walked on.
pub open spec fn walk_px(grid: Seq<u8>, x: int, y: int) -> bool {
    grid[tile_at(y) * 80 + tile_at(x)] == 1
}

/// Whether the ground at a pixel can be walked on.
pub fn is_walk_px(grid: &Vec<u8>, x: i32, y: i32) -> (r: bool)
    requires
        grid@.len() == TILES,
        x < 960,
        y < 540,
    ensures
        r == walk_px(grid@, x as int, y as int),
{
    let i: usize = tile_of(x);
    let j: usize = tile_of(y);
    grid[j * 80 + i] == 1
}

/// A tile is twelve pixels wide; what lies before the town counts as its first
/// tile.
pub proof fn law_tiles_are_twelve_pixels_wide(p: int)
    ensures
        p >= 0 ==> 12 * tile_at(p) <= p < 12 * tile_at(p) + 12,
        p < 0 ==> tile_at(p) == 0,
{
}

/// Marking an area sets the ground under each of its pixels, and leaves the
/// tiles that lie outside of it.
pub proof fn law_marking_covers_the_area(grid: Seq<u8>, a: Area, val: u8, x: int, y: int)
    requires
        grid.len() == 3600,
        0 <= x < 960,
        0 <= y < 540,
    ensures
        ({
            let k = (y / 12) * 80 + x / 12;
            let new = marked(grid, a, val);
            &&& new.len() == 3600
            &&& a.x <= x < a.x + a.w && a.y <= y < a.y + a.h ==> new[k] == val
            &&& 0 <= a.x && x / 12 * 12 + 12 <= a.x ==> new[k] == grid[k]
            &&& 0 < a.x + a.w && x / 12 * 12 >= a.x + a.w ==> new[k] == grid[k]
            &&& 0 <= a.y && y / 12 * 12 + 12 <= a.y ==> new[k] == grid[k]
            &&& 0 < a.y + a.h && y / 12 * 12 >= a.y + a.h ==> new[k] == grid[k]
        }),
{
    let i = x / 12;
    let j = y / 12;
    let k = j * 80 + i;
    assert(0 <= i < 80 && 0 <= j < 45);
    assert(k % 80 == i && k / 80 == j);
    assert(0 <= k < 3600);
}

/// Ground that was opened can be walked on, and ground that was blocked cannot.
pub proof fn law_marked_ground_is_walked_on(grid: Seq<u8>, a: Area, x: int, y: int)
    requires
        grid.len() == 3600,
        0 <= x < 960,
        0 <= y < 540,
        a.x <= x < a.x + a.w,
        a.y <= y < a.y + a.h,
    ensures
        walk_px(marked(grid, a, 1), x, y),
        !walk_px(marked(grid, a, 0), x, y),
{
    law_marking_covers_the_area(grid, a, 1, x, y);
    law_marking_covers_the_area(grid, a, 0, x, y);
}

} // verus!
