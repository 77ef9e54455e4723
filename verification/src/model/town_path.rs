//! Ways through the town: the nearest walkable tile and the search for a path.
//!
//! A step goes to one of the eight neighbours of a tile. It never enters a
//! blocked tile, and a diagonal step never cuts the corner of one.

use vstd::prelude::*;

use crate::model::town_grid::{TILES, tile_at};

verus! {

/// Whether `k` is the index of a tile.
pub open spec fn on_map(k: int) -> bool {
    0 <= k < 3600
}

/// Whether a tile can be walked on.
pub open spec fn open_at(grid: Seq<u8>, k: int) -> bool {
    grid[k] != 0
}

/// Whether one step leads from tile `a` to tile `b`.
pub open spec fn step_ok(grid: Seq<u8>, a: int, b: int) -> bool {
    let dx = b % 80 - a % 80;
    let dy = b / 80 - a / 80;
    &&& on_map(a) && on_map(b)
    &&& -1 <= dx <= 1 && -1 <= dy <= 1 && !(dx == 0 && dy == 0)
    &&& open_at(grid, b)
    &&& (dx != 0 && dy != 0) ==> open_at(grid, (a / 80) * 80 + b % 80) && open_at(
        grid,
        (b / 80) * 80 + a % 80,
    )
}

/// Whether each tile of a walk is one step from the tile before it.
pub open spec fn linked(grid: Seq<u8>, ks: Seq<int>) -> bool {
    forall|i: int| 0 <= i < ks.len() - 1 ==> #[trigger] step_ok(grid, ks[i], ks[i + 1])
}

/// Whether a walk leads from tile `s` to tile `t`.
pub open spec fn walk(grid: Seq<u8>, ks: Seq<int>, s: int, t: int) -> bool {
    &&& ks.len() > 0
    &&& ks[0] == s
    &&& ks[ks.len() - 1] == t
    &&& linked(grid, ks)
}

/// Cost of a step in thousandths of a tile.
pub open spec fn step_price(a: int, b: int) -> int {
    if a % 80 != b % 80 && a / 80 != b / 80 {
        1414
    } else {
        1000
    }
}

/// Cost of a walk: that of its steps.
pub open spec fn walk_cost(ks: Seq<int>) -> int
    decreases ks.len(),
{
    if ks.len() <= 1 {
        0
    } else {
        walk_cost(ks.drop_last()) + step_price(ks[ks.len() - 2], ks[ks.len() - 1])
    }
}

/// Whether a walk from `s` to `t` is short: it costs at most 2000/1414 times
/// what any other walk between them costs. The search counts what is left along
/// columns and rows, and a diagonal step covers 2000 of that for 1414.
pub open spec fn is_short(grid: Seq<u8>, ks: Seq<int>, s: int, t: int) -> bool {
    forall|other: Seq<int>|
        #[trigger] walk(grid, other, s, t) ==> 1414 * walk_cost(ks) <= 2000 * walk_cost(other)
}

/// Whether some walk leads from tile `s` to tile `t`.
pub open spec fn reachable(grid: Seq<u8>, s: int, t: int) -> bool {
    exists|ks: Seq<int>| walk(grid, ks, s, t)
}

/// Pixel in the middle of a tile.
pub open spec fn centre(k: int) -> (i32, i32) {
    (((k % 80) * 12 + 6) as i32, ((k / 80) * 12 + 6) as i32)
}

/// Index of the tile at a pixel.
pub open spec fn tile_under(p: (i32, i32)) -> int {
    tile_at(p.1 as int) * 80 + tile_at(p.0 as int)
}

/// The tiles under the points of a path.
pub open spec fn tiles_under(path: Seq<(i32, i32)>) -> Seq<int> {
    path.map_values(|p: (i32, i32)| tile_under(p))
}

/// Square of the distance between two tiles, counted in tiles.
pub open spec fn apart(a: int, b: int) -> int {
    (a % 80 - b % 80) * (a % 80 - b % 80) + (a / 80 - b / 80) * (a / 80 - b / 80)
}

/// Whether `k` is the walkable tile nearest to tile `from`, and the first of
/// those equally near.
pub open spec fn is_nearest(grid: Seq<u8>, from: int, k: int) -> bool {
    &&& on_map(k)
    &&& open_at(grid, k)
    &&& forall|i: int|
        on_map(i) && #[trigger] open_at(grid, i) ==> apart(k, from) < apart(i, from) || (apart(
            k,
            from,
        ) == apart(i, from) && k <= i)
}

/// The tile in the middle of the town.
pub const MIDDLE: usize = 1800;

fn gap2(a: usize, b: usize) -> (r: u64)
    requires
        a < 3600,
        b < 3600,
    ensures
        r == apart(a as int, b as int),
{
    let dx: i64 = (a % 80) as i64 - (b % 80) as i64;
    let dy: i64 = (a / 80) as i64 - (b / 80) as i64;
    assert(0 <= dx * dx <= 80 * 80) by (nonlinear_arith)
        requires
            -80 <= dx <= 80,
    ;
    assert(0 <= dy * dy <= 45 * 45) by (nonlinear_arith)
        requires
            -45 <= dy <= 45,
    ;
    (dx * dx + dy * dy) as u64
}

/// The walkable tile nearest to a tile, by distance and then by reading order;
/// the middle of the town where no tile is walkable.
pub fn nearest_walkable(grid: &Vec<u8>, from: usize) -> (r: usize)
    requires
        grid@.len() == TILES,
        from < TILES,
    ensures
        r < TILES,
        is_nearest(grid@, from as int, r as int) || (r == MIDDLE && forall|i: int|
            on_map(i) ==> !#[trigger] open_at(grid@, i)),
{
    let mut best: Option<(usize, u64)> = None;
    let mut k: usize = 0;
    while k < TILES
        invariant
            grid@.len() == 3600,
            from < 3600,
            k <= 3600,
            best matches Some(b) ==> {
                &&& b.0 < k
                &&& open_at(grid@, b.0 as int)
                &&& b.1 == apart(b.0 as int, from as int)
                &&& forall|i: int|
                    0 <= i < k && #[trigger] open_at(grid@, i) ==> b.1 < apart(i, from as int) || (
                    b.1 == apart(i, from as int) && b.0 <= i)
            },
            best is None ==> forall|i: int| 0 <= i < k ==> !#[trigger] open_at(grid@, i),
        decreases 3600 - k,
    {
        if grid[k] != 0 {
            assert(open_at(grid@, k as int));
            let d: u64 = gap2(k, from);
            let better = match best {
                Some(b) => d < b.1,
                None => true,
            };
            if better {
                best = Some((k, d));
            }
        }
        k = k + 1;
    }
    match best {
        Some(b) => b.0,
        None => MIDDLE,
    }
}

/// Where a search begins or ends for a tile: at the tile, or at the nearest
/// walkable one where the tile is blocked.
pub open spec fn is_anchor(grid: Seq<u8>, from: int, k: int) -> bool {
    if open_at(grid, from) {
        k == from
    } else {
        is_nearest(grid, from, k) || (k == 1800 && forall|i: int|
            on_map(i) ==> !#[trigger] open_at(grid, i))
    }
}

/// The place of a search for a tile.
fn anchor(grid: &Vec<u8>, from: usize) -> (r: usize)
    requires
        grid@.len() == TILES,
        from < TILES,
    ensures
        r < TILES,
        is_anchor(grid@, from as int, r as int),
{
    if grid[from] == 0 {
        nearest_walkable(grid, from)
    } else {
        from
    }
}

/// Marks a tile that no tile leads to yet.
const NONE: usize = 3600;

/// Cost of a tile that was not found yet.
const FAR: u64 = 0xffff_ffff_ffff_ffff;

/// State of a search. Costs are counted in thousandths of a tile.
struct Search {
    /// Tile from which the best way so far enters a tile.
    came: Vec<usize>,
    /// Cost of the best way so far to a tile.
    cost: Vec<u64>,
    /// Cost plus the straight distance that is left.
    rank: Vec<u64>,
    /// Tiles whose neighbours were looked at.
    closed: Vec<bool>,
    /// Tiles that were found and are not closed.
    waiting: Vec<usize>,
}

impl Search {
    spec fn found(&self, k: int) -> bool {
        self.cost@[k] < FAR
    }

    /// Whether everything but the frontier is in order; `from` is the tile
    /// whose neighbours are being looked at.
    spec fn sound(&self, grid: Seq<u8>, s: int, n: int) -> bool {
        &&& grid.len() == 3600
        &&& self.came@.len() == 3600
        &&& self.cost@.len() == 3600
        &&& self.rank@.len() == 3600
        &&& self.closed@.len() == 3600
        &&& on_map(s)
        &&& self.cost@[s] == 0
        &&& self.came@[s] == 3600
        &&& 0 <= n <= 3600
        &&& forall|k: int| on_map(k) && self.found(k) ==> #[trigger] self.cost@[k] <= 1414 * n
        &&& forall|k: int|
            #![trigger self.came@[k]]
            on_map(k) && self.came@[k] != 3600 ==> {
                &&& self.came@[k] < 3600
                &&& self.closed@[self.came@[k] as int]
                &&& step_ok(grid, self.came@[k] as int, k)
                &&& self.cost@[k] == self.cost@[self.came@[k] as int] + step_price(
                    self.came@[k] as int,
                    k,
                )
                &&& self.cost@[k] < FAR
            }
        &&& forall|k: int|
            #![trigger self.cost@[k]]
            on_map(k) && k != s && self.cost@[k] < FAR ==> self.came@[k] != 3600
        &&& forall|k: int| on_map(k) && #[trigger] self.closed@[k] ==> self.cost@[k] < FAR
        &&& forall|k: int|
            #![trigger self.cost@[k]]
            on_map(k) && self.cost@[k] < FAR && !self.closed@[k] ==> self.waiting@.contains(
                k as usize,
            )
        &&& forall|i: int|
            0 <= i < self.waiting@.len() ==> {
                &&& #[trigger] self.waiting@[i] < 3600
                &&& self.cost@[self.waiting@[i] as int] < FAR
                &&& !self.closed@[self.waiting@[i] as int]
            }
        &&& self.waiting@.no_duplicates()
    }

    /// Whether every neighbour of a closed tile was found, but for those of
    /// `cur` from the direction `d` on.
    spec fn spread(&self, grid: Seq<u8>, cur: int, d: int) -> bool {
        forall|a: int, b: int|
            #![trigger step_ok(grid, a, b)]
            on_map(a) && self.closed@[a] && step_ok(grid, a, b) && (a != cur || dir_index(a, b) < d)
                ==> self.cost@[b] < FAR
    }
}

impl Search {
    /// Whether the rank of every tile that was found is its cost and the
    /// straight distance to `t`.
    spec fn ranked(&self, t: int) -> bool {
        forall|k: int|
            #![trigger self.rank@[k]]
            on_map(k) && self.cost@[k] < FAR ==> self.rank@[k] == self.cost@[k]
                + straight_distance(k, t)
    }

    /// Whether no open neighbour of a closed tile costs more than the way
    /// through that tile, but for those of `cur` from the direction `d` on.
    spec fn relaxed(&self, grid: Seq<u8>, cur: int, d: int) -> bool {
        forall|a: int, b: int|
            #![trigger step_ok(grid, a, b)]
            on_map(a) && self.closed@[a] && step_ok(grid, a, b) && (a != cur || dir_index(a, b) < d)
                ==> self.closed@[b] || self.cost@[b] <= self.cost@[a] + step_price(a, b)
    }

    /// Whether the way to every closed tile is short.
    spec fn short(&self, grid: Seq<u8>, s: int) -> bool {
        forall|b: int, ks: Seq<int>|
            #![trigger walk(grid, ks, s, b)]
            on_map(b) && self.closed@[b] && walk(grid, ks, s, b) ==> 1414 * self.cost@[b] <= 2000
                * walk_cost(ks)
    }

    /// Whether no waiting tile has a smaller rank than `k`.
    spec fn is_best(&self, k: usize) -> bool {
        forall|i: int|
            0 <= i < self.waiting@.len() ==> self.rank@[k as int] <= self.rank@[
                #[trigger] self.waiting@[i] as int
            ]
    }
}

/// A step for 1414 brings nearer to a tile by 2000 at most, and one for 1000 by
/// no greater part of its cost.
proof fn lemma_step_nears(grid: Seq<u8>, a: int, b: int, t: int)
    requires
        step_ok(grid, a, b),
    ensures
        1414 * (straight_distance(a, t) - straight_distance(b, t)) <= 2000 * step_price(a, b),
{
}

/// The cost of the beginning of a walk grows by that of the next step.
proof fn lemma_cost_step(ks: Seq<int>, i: int)
    requires
        1 <= i < ks.len(),
    ensures
        walk_cost(ks.take(i + 1)) == walk_cost(ks.take(i)) + step_price(ks[i - 1], ks[i]),
{
    assert(ks.take(i + 1).drop_last() =~= ks.take(i));
}

/// From its tile `i` to its tile `j` a walk brings nearer to a tile by 2000/1414
/// of its cost at most.
proof fn lemma_walk_nears(grid: Seq<u8>, ks: Seq<int>, t: int, i: int, j: int)
    requires
        linked(grid, ks),
        0 <= i <= j < ks.len(),
    ensures
        1414 * (straight_distance(ks[i], t) - straight_distance(ks[j], t)) <= 2000 * (walk_cost(
            ks.take(j + 1),
        ) - walk_cost(ks.take(i + 1))),
    decreases j - i,
{
    if i < j {
        lemma_walk_nears(grid, ks, t, i, j - 1);
        assert(step_ok(grid, ks[j - 1], ks[j - 1 + 1]));
        lemma_step_nears(grid, ks[j - 1], ks[j], t);
        lemma_cost_step(ks, j);
    }
}

/// The first tile of a walk that is not closed.
proof fn first_open(f: Search, ks: Seq<int>, i: int) -> (r: int)
    requires
        0 <= i < ks.len(),
        !f.closed@[ks[ks.len() - 1]],
        forall|j: int| 0 <= j < i ==> f.closed@[#[trigger] ks[j]],
    ensures
        0 <= r < ks.len(),
        !f.closed@[ks[r]],
        forall|j: int| 0 <= j < r ==> f.closed@[#[trigger] ks[j]],
    decreases ks.len() - i,
{
    if f.closed@[ks[i]] {
        first_open(f, ks, i + 1)
    } else {
        i
    }
}

/// The tiles of a walk are on the map.
proof fn lemma_walk_on_map(grid: Seq<u8>, ks: Seq<int>, s: int, i: int)
    requires
        on_map(s),
        ks.len() > 0,
        ks[0] == s,
        linked(grid, ks),
        0 <= i < ks.len(),
    ensures
        on_map(ks[i]),
{
    if i > 0 {
        assert(step_ok(grid, ks[i - 1], ks[i - 1 + 1]));
    }
}

/// The way to the waiting tile of least rank is short: any walk to it passes
/// through a waiting tile, whose way is short and whose rank is no smaller.
proof fn lemma_best_is_short(
    f: Search,
    grid: Seq<u8>,
    s: int,
    t: int,
    n: int,
    cur: usize,
    ks: Seq<int>,
)
    requires
        f.sound(grid, s, n),
        f.ranked(t),
        f.relaxed(grid, -1, 0),
        f.short(grid, s),
        f.is_best(cur),
        f.waiting@.contains(cur),
        cur < 3600,
        walk(grid, ks, s, cur as int),
    ensures
        1414 * f.cost@[cur as int] <= 2000 * walk_cost(ks),
{
    let c = choose|c: int| 0 <= c < f.waiting@.len() && f.waiting@[c] == cur;
    assert(!f.closed@[f.waiting@[c] as int]);
    assert(f.cost@[f.waiting@[c] as int] < FAR);
    let m = ks.len() - 1;
    let i = first_open(f, ks, 0);
    let k = ks[i];
    lemma_walk_on_map(grid, ks, s, i);
    assert(1414 * f.cost@[k] <= 2000 * walk_cost(ks.take(i + 1)) && f.cost@[k] < FAR) by {
        if i == 0 {
            assert(ks.take(1).len() == 1);
        } else {
            let a = ks[i - 1];
            let head = ks.take(i);
            lemma_walk_on_map(grid, ks, s, i - 1);
            assert(step_ok(grid, ks[i - 1], ks[i - 1 + 1]));
            assert(f.closed@[a]);
            assert(linked(grid, head)) by {
                assert forall|j: int| 0 <= j < head.len() - 1 implies #[trigger] step_ok(
                    grid,
                    head[j],
                    head[j + 1],
                ) by {
                    assert(step_ok(grid, ks[j], ks[j + 1]));
                }
            }
            assert(walk(grid, head, s, a));
            lemma_cost_step(ks, i);
            assert(f.cost@[a] <= 1414 * n);
        }
    }
    assert(f.waiting@.contains(k as usize));
    let w = choose|w: int| 0 <= w < f.waiting@.len() && f.waiting@[w] == k as usize;
    assert(f.rank@[cur as int] <= f.rank@[f.waiting@[w] as int]);
    lemma_walk_nears(grid, ks, t, i, m);
    assert(ks.take(m + 1) =~= ks);
    assert(f.rank@[cur as int] == f.cost@[cur as int] + straight_distance(cur as int, t));
    assert(f.rank@[k] == f.cost@[k] + straight_distance(k, t));
}

/// Place of a step in the order in which directions are tried.
spec fn dir_index(a: int, b: int) -> int {
    let dx = b % 80 - a % 80;
    let dy = b / 80 - a / 80;
    if dy == 0 {
        if dx == 1 {
            0
        } else {
            1
        }
    } else if dx == 0 {
        if dy == 1 {
            2
        } else {
            3
        }
    } else if dx == 1 {
        if dy == 1 {
            4
        } else {
            5
        }
    } else {
        if dy == 1 {
            6
        } else {
            7
        }
    }
}

/// A step by its number: the change of the column and of the row.
fn direction(d: usize) -> (r: (i32, i32))
    requires
        d < 8,
    ensures
        -1 <= r.0 <= 1,
        -1 <= r.1 <= 1,
        !(r.0 == 0 && r.1 == 0),
        forall|a: int, b: int|
            on_map(a) && on_map(b) && -1 <= b % 80 - a % 80 <= 1 && -1 <= b / 80 - a / 80 <= 1 && !(
            b % 80 - a % 80 == 0 && b / 80 - a / 80 == 0) ==> (#[trigger] dir_index(a, b) == d <==> (
            r.0 == b % 80 - a % 80 && r.1 == b / 80 - a / 80)),
{
    match d {
        0 => (1, 0),
        1 => (-1, 0),
        2 => (0, 1),
        3 => (0, -1),
        4 => (1, 1),
        5 => (1, -1),
        6 => (-1, 1),
        _ => (-1, -1),
    }
}

/// Tile reached by one step in a direction, where the step is allowed.
fn neighbour(grid: &Vec<u8>, cur: usize, dx: i32, dy: i32) -> (r: Option<usize>)
    requires
        grid@.len() == 3600,
        cur < 3600,
        -1 <= dx <= 1,
        -1 <= dy <= 1,
        !(dx == 0 && dy == 0),
    ensures
        r matches Some(k) ==> step_ok(grid@, cur as int, k as int) && k as int % 80 - cur as int
            % 80 == dx && k as int / 80 - cur as int / 80 == dy,
        r is None ==> forall|b: int|
            #[trigger] step_ok(grid@, cur as int, b) ==> !(b % 80 - cur as int % 80 == dx && b / 80
                - cur as int / 80 == dy),
{
    let x: i32 = (cur % 80) as i32;
    let y: i32 = (cur / 80) as i32;
    let nx: i32 = x + dx;
    let ny: i32 = y + dy;
    if nx < 0 || nx >= 80 || ny < 0 || ny >= 45 {
        return None;
    }
    let k: usize = ny as usize * 80 + nx as usize;
    assert(k as int % 80 == nx && k as int / 80 == ny);
    assert forall|b: int| #[trigger]
        step_ok(grid@, cur as int, b) && b % 80 == nx && b / 80 == ny implies b == k by {}
    if grid[k] == 0 {
        return None;
    }
    if dx != 0 && dy != 0 {
        let side: usize = y as usize * 80 + nx as usize;
        let other: usize = ny as usize * 80 + x as usize;
        if grid[side] == 0 || grid[other] == 0 {
            return None;
        }
    }
    Some(k)
}

/// How far apart two columns or two rows are.
spec fn between(a: int, b: int) -> int {
    if a < b {
        b - a
    } else {
        a - b
    }
}

/// Distance between two tiles along columns and rows, in thousandths of a tile.
spec fn straight_distance(a: int, b: int) -> int {
    1000 * (between(a % 80, b % 80) + between(a / 80, b / 80))
}

/// Distance between two tiles along columns and rows, in thousandths of a tile.
fn straight(a: usize, b: usize) -> (r: u64)
    requires
        a < 3600,
        b < 3600,
    ensures
        r == straight_distance(a as int, b as int),
        r <= 125_000,
{
    let ax: u64 = (a % 80) as u64;
    let bx: u64 = (b % 80) as u64;
    let ay: u64 = (a / 80) as u64;
    let by: u64 = (b / 80) as u64;
    let dx: u64 = if ax < bx {
        bx - ax
    } else {
        ax - bx
    };
    let dy: u64 = if ay < by {
        by - ay
    } else {
        ay - by
    };
    (dx + dy) * 1000
}

/// A list without the entry at `i`; the last entry takes its place.
spec fn taken_out(v: Seq<usize>, i: int) -> Seq<usize> {
    v.update(i, v.last()).drop_last()
}

/// What is taken out of a list without duplicates is gone, and nothing else is.
proof fn lemma_taken_out(v: Seq<usize>, i: int)
    requires
        0 <= i < v.len(),
        v.no_duplicates(),
    ensures
        taken_out(v, i).no_duplicates(),
        forall|k: usize|
            #[trigger] taken_out(v, i).contains(k) <==> v.contains(k) && k != v[i],
{
    let after = taken_out(v, i);
    assert forall|k: usize| #[trigger] after.contains(k) <==> v.contains(k) && k != v[i] by {
        if after.contains(k) {
            let j = choose|j: int| 0 <= j < after.len() && after[j] == k;
            if j == i {
                assert(v[v.len() - 1] == k);
            } else {
                assert(v[j] == k);
            }
        }
        if v.contains(k) && k != v[i] {
            let j = choose|j: int| 0 <= j < v.len() && v[j] == k;
            if j == v.len() - 1 {
                assert(after[i] == k);
            } else {
                assert(after[j] == k);
            }
        }
    }
}

impl Search {
    /// A search that has found its first tile alone.
    fn new(Ghost(grid): Ghost<Seq<u8>>, s: usize, t: usize) -> (r: Search)
        requires
            grid.len() == 3600,
            s < 3600,
            t < 3600,
        ensures
            r.sound(grid, s as int, 0),
            r.spread(grid, -1, 0),
            r.ranked(t as int),
            r.relaxed(grid, -1, 0),
            r.short(grid, s as int),
            forall|k: int| on_map(k) ==> !#[trigger] r.closed@[k],
    {
        let mut came: Vec<usize> = Vec::new();
        let mut cost: Vec<u64> = Vec::new();
        let mut rank: Vec<u64> = Vec::new();
        let mut closed: Vec<bool> = Vec::new();
        let mut k: usize = 0;
        while k < 3600
            invariant
                k <= 3600,
                came@.len() == k,
                cost@.len() == k,
                rank@.len() == k,
                closed@.len() == k,
                forall|i: int| 0 <= i < k ==> #[trigger] came@[i] == 3600,
                forall|i: int| 0 <= i < k ==> #[trigger] cost@[i] == FAR,
                forall|i: int| 0 <= i < k ==> !#[trigger] closed@[i],
            decreases 3600 - k,
        {
            came.push(NONE);
            cost.push(FAR);
            rank.push(FAR);
            closed.push(false);
            k = k + 1;
        }
        let near: u64 = straight(s, t);
        cost.set(s, 0);
        rank.set(s, near);
        let mut waiting: Vec<usize> = Vec::new();
        waiting.push(s);
        assert(waiting@[0] == s);
        Search { came, cost, rank, closed, waiting }
    }

    /// Takes the waiting tile of least rank.
    fn take_best(&mut self, Ghost(grid): Ghost<Seq<u8>>, Ghost(s): Ghost<int>, Ghost(n): Ghost<int>) -> (r: usize)
        requires
            old(self).sound(grid, s, n),
            old(self).waiting@.len() > 0,
        ensures
            old(self).waiting@.contains(r),
            old(self).is_best(r),
            r < 3600,
            final(self).came == old(self).came,
            final(self).cost == old(self).cost,
            final(self).rank == old(self).rank,
            final(self).closed == old(self).closed,
            final(self).waiting@.no_duplicates(),
            forall|k: usize|
                #[trigger] final(self).waiting@.contains(k) <==> old(self).waiting@.contains(k) && k
                    != r,
    {
        let mut best: usize = 0;
        let mut i: usize = 1;
        while i < self.waiting.len()
            invariant
                0 <= best < self.waiting@.len(),
                1 <= i <= self.waiting@.len(),
                self.sound(grid, s, n),
                forall|j: int|
                    0 <= j < i ==> self.rank@[self.waiting@[best as int] as int] <= self.rank@[
                        #[trigger] self.waiting@[j] as int
                    ],
            decreases self.waiting@.len() - i,
        {
            if self.rank[self.waiting[i]] < self.rank[self.waiting[best]] {
                best = i;
            }
            i = i + 1;
        }
        let ghost before = self.waiting@;
        let r: usize = self.waiting[best];
        let last: usize = self.waiting[self.waiting.len() - 1];
        self.waiting.set(best, last);
        self.waiting.pop();
        proof {
            assert(self.waiting@ =~= taken_out(before, best as int));
            lemma_taken_out(before, best as int);
            assert(before[best as int] == r);
        }
        r
    }

    /// Looks at one neighbour of a closed tile.
    #[verifier::spinoff_prover]
    #[verifier::rlimit(40)]
    fn relax(&mut self, Ghost(grid): Ghost<Seq<u8>>, Ghost(s): Ghost<int>, Ghost(n): Ghost<int>, cur: usize, k: usize, price: u64, t: usize)
        requires
            old(self).sound(grid, s, n + 1),
            0 <= n < 3600,
            cur < 3600,
            k < 3600,
            t < 3600,
            old(self).closed@[cur as int],
            old(self).cost@[cur as int] <= 1414 * n,
            step_ok(grid, cur as int, k as int),
            price == step_price(cur as int, k as int),
        ensures
            final(self).sound(grid, s, n + 1),
            final(self).closed == old(self).closed,
            final(self).cost@[k as int] < FAR,
            final(self).cost@[k as int] <= old(self).cost@[k as int],
            old(self).closed@[k as int] ==> final(self).cost@[k as int] == old(self).cost@[k as int],
            old(self).closed@[k as int] || final(self).cost@[k as int] <= old(self).cost@[cur as int]
                + price,
            old(self).ranked(t as int) ==> final(self).ranked(t as int),
            forall|j: int|
                on_map(j) && j != k ==> #[trigger] final(self).cost@[j] == old(self).cost@[j],
    {
        if self.closed[k] {
            return;
        }
        let through: u64 = self.cost[cur] + price;
        if through < self.cost[k] {
            let known = self.cost[k] < FAR;
            let ghost before = *self;
            self.came.set(k, cur);
            self.cost.set(k, through);
            let left: u64 = straight(k, t);
            self.rank.set(k, through + left);
            if !known {
                let ghost queue = self.waiting@;
                proof {
                    if queue.contains(k) {
                        let j = choose|j: int| 0 <= j < queue.len() && queue[j] == k;
                        assert(before.cost@[before.waiting@[j] as int] < FAR);
                        assert(false);
                    }
                }
                self.waiting.push(k);
                proof {
                    assert(self.waiting@[queue.len() as int] == k);
                    assert forall|x: usize| queue.contains(x) implies #[trigger] self.waiting@.contains(x) by {
                        let j = choose|j: int| 0 <= j < queue.len() && queue[j] == x;
                        assert(self.waiting@[j] == x);
                    }
                }
            }
            assert(k != s);
        }
    }

    /// Looks at every neighbour of the tile that was just closed.
    fn expand(&mut self, grid: &Vec<u8>, Ghost(s): Ghost<int>, Ghost(n): Ghost<int>, cur: usize, t: usize)
        requires
            old(self).sound(grid@, s, n + 1),
            old(self).spread(grid@, cur as int, 0),
            0 <= n < 3600,
            cur < 3600,
            t < 3600,
            old(self).closed@[cur as int],
            old(self).cost@[cur as int] <= 1414 * n,
            old(self).ranked(t as int),
            old(self).relaxed(grid@, cur as int, 0),
        ensures
            final(self).sound(grid@, s, n + 1),
            final(self).closed == old(self).closed,
            final(self).spread(grid@, -1, 0),
            final(self).ranked(t as int),
            final(self).relaxed(grid@, -1, 0),
            forall|j: int|
                on_map(j) && old(self).closed@[j] ==> #[trigger] final(self).cost@[j]
                    == old(self).cost@[j],
    {
        let mut d: usize = 0;
        let ghost closed = self.closed;
        let ghost cost = self.cost@;
        while d < 8
            invariant
                d <= 8,
                self.sound(grid@, s, n + 1),
                self.spread(grid@, cur as int, d as int),
                self.ranked(t as int),
                self.relaxed(grid@, cur as int, d as int),
                forall|j: int|
                    on_map(j) && self.closed@[j] ==> #[trigger] self.cost@[j] == cost[j],
                0 <= n < 3600,
                cur < 3600,
                t < 3600,
                self.closed == closed,
                self.closed@[cur as int],
                self.cost@[cur as int] <= 1414 * n,
            decreases 8 - d,
        {
            let (dx, dy) = direction(d);
            let next = neighbour(grid, cur, dx, dy);
            let ghost before = *self;
            match next {
                Some(k) => {
                    let price: u64 = if dx != 0 && dy != 0 {
                        1414
                    } else {
                        1000
                    };
                    self.relax(Ghost(grid@), Ghost(s), Ghost(n), cur, k, price, t);
                    assert forall|b: int| #[trigger] step_ok(grid@, cur as int, b) && dir_index(cur as int, b) == d
                        implies b == k by {
                        assert(b % 80 == k as int % 80 && b / 80 == k as int / 80);
                    }
                },
                None => {
                    assert forall|b: int| #[trigger] step_ok(grid@, cur as int, b) implies dir_index(cur as int, b) != d by {}
                },
            }
            d = d + 1;
        }
        assert forall|a: int, b: int| #[trigger] step_ok(grid@, a, b) implies dir_index(a, b) < 8 by {}
    }
}

/// A set of tiles holds at most as many as there are.
proof fn lemma_tiles_bound(done: Set<int>)
    requires
        forall|k: int| #[trigger] done.contains(k) ==> on_map(k),
    ensures
        done.finite(),
        done.len() <= 3600,
{
    let all = vstd::set_lib::set_int_range(0, 3600);
    vstd::set_lib::lemma_int_range(0, 3600);
    assert(done.subset_of(all));
    vstd::set_lib::lemma_len_subset(done, all);
}

/// Where nothing is left to look at, every tile on a walk from the first tile
/// is closed.
proof fn lemma_walk_closed(f: Search, grid: Seq<u8>, s: int, n: int, ks: Seq<int>, i: int)
    requires
        f.sound(grid, s, n),
        f.spread(grid, -1, 0),
        f.waiting@.len() == 0,
        ks.len() > 0,
        ks[0] == s,
        linked(grid, ks),
        0 <= i < ks.len(),
    ensures
        on_map(ks[i]),
        f.closed@[ks[i]],
    decreases i,
{
    if i == 0 {
        assert(f.cost@[s] < FAR);
        assert(!f.waiting@.contains(s as usize));
    } else {
        lemma_walk_closed(f, grid, s, n, ks, i - 1);
        assert(step_ok(grid, ks[i - 1], ks[i - 1 + 1]));
        assert(f.cost@[ks[i]] < FAR);
        assert(!f.waiting@.contains(ks[i] as usize));
    }
}

/// Looks for a way from tile `s` to tile `t`; the tiles of the way, last first.
fn find(grid: &Vec<u8>, s: usize, t: usize) -> (r: Vec<usize>)
    requires
        grid@.len() == TILES,
        s < TILES,
        t < TILES,
    ensures
        r@.len() > 0 <==> reachable(grid@, s as int, t as int),
        r@.len() > 0 ==> back_walk(grid@, r@, s as int, t as int) && is_short(
            grid@,
            forward(r@),
            s as int,
            t as int,
        ),
{
    let mut f = Search::new(Ghost(grid@), s, t);
    let ghost mut done: Set<int> = Set::empty();
    let ghost mut n: int = 0;
    let ghost grid_view = grid@;
    while f.waiting.len() > 0
        invariant
            grid@ == grid_view,
            grid@.len() == 3600,
            s < 3600,
            t < 3600,
            f.sound(grid@, s as int, n),
            f.spread(grid@, -1, 0),
            f.ranked(t as int),
            f.relaxed(grid@, -1, 0),
            f.short(grid@, s as int),
            forall|k: int|
                #![trigger done.contains(k)]
                #![trigger f.closed@[k]]
                done.contains(k) <==> on_map(k) && f.closed@[k],
            done.finite(),
            done.len() == n,
            !f.closed@[t as int],
        decreases 3600 - n,
    {
        let ghost before = f;
        let cur: usize = f.take_best(Ghost(grid@), Ghost(s as int), Ghost(n));
        proof {
            let i = choose|i: int| 0 <= i < before.waiting@.len() && before.waiting@[i] == cur;
            assert(before.waiting@[i] < 3600);
            assert(f.cost@[cur as int] < FAR);
            assert(!f.closed@[cur as int]);
        }
        proof {
            assert forall|ks: Seq<int>| #[trigger] walk(grid@, ks, s as int, cur as int) implies 1414
                * f.cost@[cur as int] <= 2000 * walk_cost(ks) by {
                lemma_best_is_short(before, grid@, s as int, t as int, n, cur, ks);
            }
        }
        if cur == t {
            return walk_back(grid, &f.came, &f.cost, s, t);
        }
        f.closed.set(cur, true);
        proof {
            done = done.insert(cur as int);
            assert forall|k: int|
                #![trigger done.contains(k)]
                #![trigger f.closed@[k]]
                done.contains(k) <==> on_map(k) && f.closed@[k] by {
                if k != cur && on_map(k) {
                    assert(before.closed@[k] == f.closed@[k]);
                }
            }
            lemma_tiles_bound(done);
            assert forall|i: int| 0 <= i < f.waiting@.len() implies {
                &&& #[trigger] f.waiting@[i] < 3600
                &&& f.cost@[f.waiting@[i] as int] < FAR
                &&& !f.closed@[f.waiting@[i] as int]
            } by {
                let x = f.waiting@[i];
                assert(f.waiting@.contains(x));
                let j = choose|j: int| 0 <= j < before.waiting@.len() && before.waiting@[j] == x;
                assert(before.waiting@[j] < 3600);
            }
            assert(f.sound(grid@, s as int, n + 1));
            assert(f.spread(grid@, cur as int, 0)) by {
                assert forall|a: int, b: int|
                    #![trigger step_ok(grid@, a, b)]
                    on_map(a) && f.closed@[a] && step_ok(grid@, a, b) && (a != cur || dir_index(a, b)
                        < 0) implies f.cost@[b] < FAR by {
                    assert(before.closed@[a]);
                }
            }
            assert(f.relaxed(grid@, cur as int, 0)) by {
                assert forall|a: int, b: int|
                    #![trigger step_ok(grid@, a, b)]
                    on_map(a) && f.closed@[a] && step_ok(grid@, a, b) && (a != cur || dir_index(a, b)
                        < 0) implies f.closed@[b] || f.cost@[b] <= f.cost@[a] + step_price(
                    a,
                    b,
                ) by {
                    assert(before.closed@[a]);
                }
            }
            assert(f.ranked(t as int));
            n = n + 1;
        }
        let ghost closing = f;
        f.expand(grid, Ghost(s as int), Ghost(n - 1), cur, t);
        proof {
            assert(f.closed == closing.closed);
            assert forall|b: int, ks: Seq<int>|
                #![trigger walk(grid@, ks, s as int, b)]
                on_map(b) && f.closed@[b] && walk(grid@, ks, s as int, b) implies 1414 * f.cost@[b]
                <= 2000 * walk_cost(ks) by {
                assert(f.cost@[b] == closing.cost@[b]);
                assert(closing.cost@[b] == before.cost@[b]);
                if b != cur {
                    assert(before.closed@[b]);
                }
            }
        }
    }
    proof {
        if reachable(grid@, s as int, t as int) {
            let ks = choose|ks: Seq<int>| walk(grid@, ks, s as int, t as int);
            lemma_walk_closed(f, grid@, s as int, n, ks, ks.len() - 1);
            assert(false);
        }
    }
    Vec::new()
}

/// Whether tiles, read from the last to the first, are a walk from `s` to `t`
/// that visits no tile twice.
spec fn back_walk(grid: Seq<u8>, r: Seq<usize>, s: int, t: int) -> bool {
    &&& r.len() > 0
    &&& r[0] == t
    &&& r[r.len() - 1] == s
    &&& forall|i: int| 0 <= i < r.len() ==> #[trigger] r[i] < 3600
    &&& forall|i: int| 0 <= i < r.len() - 1 ==> #[trigger] step_ok(grid, r[i + 1] as int, r[i] as int)
    &&& r.no_duplicates()
}

/// Whether tiles, read from the last to the first, are steps of rising cost.
#[verifier::opaque]
spec fn trail(grid: Seq<u8>, cost: Seq<u64>, r: Seq<usize>) -> bool {
    &&& forall|i: int| 0 <= i < r.len() ==> #[trigger] r[i] < 3600
    &&& forall|i: int| 0 <= i < r.len() - 1 ==> #[trigger] step_ok(grid, r[i + 1] as int, r[i] as int)
    &&& forall|i: int, j: int|
        0 <= i < j < r.len() ==> cost[#[trigger] r[i] as int] > cost[#[trigger] r[j] as int]
}

/// A trail goes on to the tile that a step comes from.
proof fn lemma_trail_push(grid: Seq<u8>, cost: Seq<u64>, r: Seq<usize>, next: usize)
    requires
        trail(grid, cost, r),
        r.len() > 0,
        next < 3600,
        step_ok(grid, next as int, r.last() as int),
        cost[next as int] < cost[r.last() as int],
    ensures
        trail(grid, cost, r.push(next)),
{
    reveal(trail);
    let n = r.push(next);
    assert forall|i: int| 0 <= i < n.len() - 1 implies #[trigger] step_ok(
        grid,
        n[i + 1] as int,
        n[i] as int,
    ) by {
        assert(n[i] == r[i]);
        if i < r.len() - 1 {
            assert(n[i + 1] == r[i + 1]);
            assert(step_ok(grid, r[i + 1] as int, r[i] as int));
        }
    }
    assert forall|i: int, j: int| 0 <= i < j < n.len() implies cost[#[trigger] n[i] as int]
        > cost[#[trigger] n[j] as int] by {
        assert(n[i] == r[i]);
        if j < r.len() {
            assert(n[j] == r[j]);
        } else if i < r.len() - 1 {
            assert(cost[r[i] as int] > cost[r[r.len() - 1] as int]);
        }
    }
}

/// Tiles read from the last to the first.
spec fn forward(r: Seq<usize>) -> Seq<int> {
    Seq::new(r.len(), |i: int| r[r.len() - 1 - i] as int)
}

/// The cost of a walk with one more tile before it.
proof fn lemma_cost_before(k: int, ks: Seq<int>)
    requires
        ks.len() > 0,
    ensures
        walk_cost(seq![k] + ks) == step_price(k, ks[0]) + walk_cost(ks),
    decreases ks.len(),
{
    let all = seq![k] + ks;
    if ks.len() > 1 {
        lemma_cost_before(k, ks.drop_last());
        assert(all.drop_last() =~= seq![k] + ks.drop_last());
        assert(all[all.len() - 2] == ks[ks.len() - 2]);
        assert(ks.drop_last()[0] == ks[0]);
    } else {
        assert(all.drop_last() =~= seq![k]);
        assert(walk_cost(seq![k]) == 0);
        assert(walk_cost(ks) == 0);
    }
}

/// Follows the tiles from which the best way comes, from `t` back to `s`.
fn walk_back(grid: &Vec<u8>, came: &Vec<usize>, cost: &Vec<u64>, s: usize, t: usize) -> (r: Vec<usize>)
    requires
        grid@.len() == 3600,
        came@.len() == 3600,
        cost@.len() == 3600,
        s < 3600,
        t < 3600,
        cost@[t as int] < FAR,
        forall|k: int|
            #![trigger came@[k]]
            on_map(k) && came@[k] != 3600 ==> came@[k] < 3600 && step_ok(grid@, came@[k] as int, k)
                && cost@[k] == cost@[came@[k] as int] + step_price(came@[k] as int, k) && cost@[k]
                < FAR,
        forall|k: int|
            #![trigger cost@[k]]
            on_map(k) && k != s && cost@[k] < FAR ==> came@[k] != 3600,
        cost@[s as int] == 0,
    ensures
        back_walk(grid@, r@, s as int, t as int),
        walk_cost(forward(r@)) == cost@[t as int],
        reachable(grid@, s as int, t as int),
{
    let mut r: Vec<usize> = Vec::new();
    let mut k: usize = t;
    r.push(k);
    assert(trail(grid@, cost@, r@)) by {
        reveal(trail);
    }
    while k != s
        invariant
            grid@.len() == 3600,
            came@.len() == 3600,
            cost@.len() == 3600,
            s < 3600,
            k < 3600,
            cost@[k as int] < FAR,
            forall|k: int|
                #![trigger came@[k]]
                on_map(k) && came@[k] != 3600 ==> came@[k] < 3600 && step_ok(
                    grid@,
                    came@[k] as int,
                    k,
                ) && cost@[k] == cost@[came@[k] as int] + step_price(came@[k] as int, k)
                    && cost@[k] < FAR,
            forall|k: int|
                #![trigger cost@[k]]
                on_map(k) && k != s && cost@[k] < FAR ==> came@[k] != 3600,
            r@.len() > 0,
            r@[0] == t,
            r@[r@.len() - 1] == k,
            trail(grid@, cost@, r@),
            cost@[t as int] == cost@[k as int] + walk_cost(forward(r@)),
        decreases cost@[k as int],
    {
        let next: usize = came[k];
        proof {
            lemma_trail_push(grid@, cost@, r@, next);
            assert(forward(r@.push(next)) =~= seq![next as int] + forward(r@));
            lemma_cost_before(next as int, forward(r@));
        }
        r.push(next);
        k = next;
    }
    proof {
        reveal(trail);
        lemma_falling(r@, cost@);
        lemma_back_walk(grid@, r@, s as int, t as int);
    }
    r
}

/// Tiles of falling cost are all different.
proof fn lemma_falling(r: Seq<usize>, cost: Seq<u64>)
    requires
        forall|i: int, j: int|
            0 <= i < j < r.len() ==> cost[#[trigger] r[i] as int] > cost[#[trigger] r[j] as int],
    ensures
        r.no_duplicates(),
{
}

/// A walk read backwards is a walk.
proof fn lemma_back_walk(grid: Seq<u8>, r: Seq<usize>, s: int, t: int)
    requires
        back_walk(grid, r, s, t),
    ensures
        walk(grid, forward(r), s, t),
        reachable(grid, s, t),
{
    let ks = forward(r);
    assert forall|i: int| 0 <= i < ks.len() - 1 implies #[trigger] step_ok(grid, ks[i], ks[i + 1]) by {
        let j = r.len() - 2 - i;
        assert(step_ok(grid, r[j + 1] as int, r[j] as int));
    }
    assert(walk(grid, ks, s, t));
}

/// A pixel of the town as near as possible to a given one.
pub open spec fn kept_in(p: int, size: int) -> int {
    if p < 0 {
        0
    } else if p > size - 1 {
        size - 1
    } else {
        p
    }
}

/// Tile of the town nearest to a pixel that may lie outside.
pub open spec fn tile_for(x: int, y: int) -> int {
    tile_at(kept_in(y, 540)) * 80 + tile_at(kept_in(x, 960))
}

fn tile_index(x: i32, y: i32) -> (r: usize)
    ensures
        r == tile_for(x as int, y as int),
        r < 3600,
{
    let cx: i32 = if x < 0 {
        0
    } else if x > 959 {
        959
    } else {
        x
    };
    let cy: i32 = if y < 0 {
        0
    } else if y > 539 {
        539
    } else {
        y
    };
    (cy / 12) as usize * 80 + (cx / 12) as usize
}

/// Whether the points of a path are the middles of the tiles of a walk from
/// `s` to `t` that visits no tile twice.
pub open spec fn is_route(grid: Seq<u8>, path: Seq<(i32, i32)>, s: int, t: int) -> bool {
    &&& walk(grid, tiles_under(path), s, t)
    &&& tiles_under(path).no_duplicates()
    &&& forall|i: int| 0 <= i < path.len() ==> #[trigger] path[i] == centre(tile_under(path[i]))
}

/// The way from one pixel to another, as the middles of the tiles on it. It is
/// empty exactly where no walk leads from one to the other, and it is short. An
/// end in a blocked tile moves to the nearest walkable tile, an end outside of
/// the town to its border.
pub fn find_path(grid: &Vec<u8>, sx: i32, sy: i32, tx: i32, ty: i32) -> (r: Vec<(i32, i32)>)
    requires
        grid@.len() == TILES,
    ensures
        exists|s: int, t: int|
            {
                &&& #[trigger] is_anchor(grid@, tile_for(sx as int, sy as int), s)
                &&& #[trigger] is_anchor(grid@, tile_for(tx as int, ty as int), t)
                &&& (r@.len() > 0 <==> reachable(grid@, s, t))
                &&& (r@.len() > 0 ==> is_route(grid@, r@, s, t) && is_short(
                    grid@,
                    tiles_under(r@),
                    s,
                    t,
                ))
            },
{
    let s: usize = anchor(grid, tile_index(sx, sy));
    let t: usize = anchor(grid, tile_index(tx, ty));
    let back = find(grid, s, t);
    let mut r: Vec<(i32, i32)> = Vec::new();
    let mut i: usize = back.len();
    while i > 0
        invariant
            i <= back@.len(),
            r@.len() == back@.len() - i,
            forall|j: int| 0 <= j < back@.len() ==> #[trigger] back@[j] < 3600,
            forall|j: int|
                0 <= j < r@.len() ==> #[trigger] r@[j] == centre(back@[back@.len() - 1 - j] as int),
        decreases i,
    {
        i = i - 1;
        let k: usize = back[i];
        r.push(((k % 80) as i32 * 12 + 6, (k / 80) as i32 * 12 + 6));
    }
    proof {
        if r@.len() > 0 {
            lemma_back_walk(grid@, back@, s as int, t as int);
            let ks = forward(back@);
            assert forall|j: int| 0 <= j < r@.len() implies tile_under(#[trigger] r@[j]) == ks[j] by {
                lemma_centre(ks[j]);
            }
            assert(tiles_under(r@) =~= ks);
            assert(ks.no_duplicates());
        }
        assert(is_anchor(grid@, tile_for(sx as int, sy as int), s as int));
        assert(is_anchor(grid@, tile_for(tx as int, ty as int), t as int));
    }
    r
}

/// The middle of a tile lies in that tile.
proof fn lemma_centre(k: int)
    requires
        on_map(k),
    ensures
        tile_under(centre(k)) == k,
{
}

/// Every point of a route but the first lies on walkable ground, and so does the
/// first where the route starts on walkable ground.
pub proof fn law_routes_stay_on_open_ground(
    grid: Seq<u8>,
    path: Seq<(i32, i32)>,
    s: int,
    t: int,
    i: int,
)
    requires
        is_route(grid, path, s, t),
        0 <= i < path.len(),
        i > 0 || open_at(grid, s),
    ensures
        open_at(grid, tile_under(path[i])),
{
    let ks = tiles_under(path);
    assert(ks[i] == tile_under(path[i]));
    if i > 0 {
        assert(step_ok(grid, ks[i - 1], ks[i - 1 + 1]));
    }
}

/// A route from a tile to itself is that tile alone.
pub proof fn law_routes_are_direct(grid: Seq<u8>, path: Seq<(i32, i32)>, s: int)
    requires
        is_route(grid, path, s, s),
    ensures
        path =~= seq![centre(s)],
{
    let ks = tiles_under(path);
    assert(ks.len() == path.len());
    assert(ks[0] == ks[ks.len() - 1]);
    assert(ks.len() == 1);
    assert(path[0] == centre(tile_under(path[0])));
}

/// A step leads to another tile beside the one that it leaves, never onto a
/// blocked one, and never between two tiles of which one is blocked.
pub proof fn law_steps_go_beside(grid: Seq<u8>, x: int, y: int, u: int, v: int)
    requires
        0 <= x < 80,
        0 <= y < 45,
        0 <= u < 80,
        0 <= v < 45,
    ensures
        step_ok(grid, y * 80 + x, v * 80 + u) <==> {
            &&& -1 <= u - x <= 1
            &&& -1 <= v - y <= 1
            &&& u != x || v != y
            &&& grid[v * 80 + u] != 0
            &&& u != x && v != y ==> grid[y * 80 + u] != 0 && grid[v * 80 + x] != 0
        },
{
    assert((y * 80 + x) % 80 == x && (y * 80 + x) / 80 == y);
    assert((v * 80 + u) % 80 == u && (v * 80 + u) / 80 == v);
}

/// A step along a row or a column costs one tile, one across a corner the
/// diagonal of a tile, there and back alike; a walk costs what its steps cost.
pub proof fn law_walks_cost_their_steps(ks: Seq<int>, k: int, x: int, y: int, u: int, v: int)
    requires
        0 <= x < 80,
        0 <= u < 80,
    ensures
        u == x || v == y ==> step_price(y * 80 + x, v * 80 + u) == 1000,
        u != x && v != y ==> step_price(y * 80 + x, v * 80 + u) == 1414,
        walk_cost(Seq::empty()) == 0,
        walk_cost(seq![k]) == 0,
        ks.len() > 0 ==> walk_cost(ks.push(k)) == walk_cost(ks) + step_price(ks.last(), k),
{
    assert((y * 80 + x) % 80 == x && (y * 80 + x) / 80 == y);
    assert((v * 80 + u) % 80 == u && (v * 80 + u) / 80 == v);
    assert(ks.push(k).drop_last() =~= ks);
}

/// The middle of a tile is a pixel of that tile, six from its edges.
pub proof fn law_middles_lie_in_their_tile(k: int)
    requires
        0 <= k < 3600,
    ensures
        tile_under(centre(k)) == k,
        centre(k).0 == (k % 80) * 12 + 6,
        centre(k).1 == (k / 80) * 12 + 6,
{
    lemma_centre(k);
}

/// A pixel of the town stays where it is; one outside moves to the border next
/// to it.
pub proof fn law_pixels_are_kept_in_the_town(p: int, size: int)
    requires
        size > 0,
    ensures
        0 <= p < size ==> kept_in(p, size) == p,
        p < 0 ==> kept_in(p, size) == 0,
        p >= size ==> kept_in(p, size) == size - 1,
{
}

/// A search starts at the tile itself where it is open, and else at an open
/// tile that no other open tile is nearer than.
pub proof fn law_searches_start_at_the_nearest_tile(grid: Seq<u8>, from: int, k: int, i: int)
    requires
        is_anchor(grid, from, k),
    ensures
        grid[from] != 0 ==> k == from,
        grid[from] == 0 && 0 <= i < 3600 && grid[i] != 0 ==> 0 <= k < 3600 && grid[k] != 0
            && apart(k, from) <= apart(i, from),
        apart(i, i) == 0,
        apart(i, from) == apart(from, i),
{
    if grid[from] == 0 && 0 <= i < 3600 && grid[i] != 0 {
        assert(open_at(grid, i));
    }
    let dx = i % 80 - from % 80;
    let dy = i / 80 - from / 80;
    assert(dx * dx == (-dx) * (-dx)) by (nonlinear_arith);
    assert(dy * dy == (-dy) * (-dy)) by (nonlinear_arith);
}

} // verus!
