//! The ground of the town, stroke by stroke: meadow, roads, water, gardens and
//! trees.

use vstd::prelude::*;

use crate::model::town_buildings::{all_drawable, put_bar, put_disc};
use crate::model::town_grid::{is_walk_px, walk_px, Area, TILES};
use crate::model::town_map::{tree, tree_spot, TREES};
use crate::model::town_paint::{bar, disc, Paint, Stroke};

verus! {

/// One pixel.
pub open spec fn dot(x: int, y: int, paint: Paint) -> Stroke {
    bar(x, y, 1, 1, paint)
}

/// A tuft of grass.
pub open spec fn tuft(x: int, y: int, a: Paint, b: Paint, c: Paint) -> Seq<Stroke> {
    seq![
        dot(x, y, a),
        dot(x, y - 1, a),
        dot(x + 1, y, b),
        dot(x + 2, y - 1, b),
        dot(x - 1, y - 2, c),
        dot(x + 1, y - 3, c),
    ]
}

fn put_tuft(out: &mut Vec<Stroke>, x: i32, y: i32, a: Paint, b: Paint, c: Paint)
    requires
        -10_000 <= x <= 10_000,
        -10_000 <= y <= 10_000,
        all_drawable(old(out)@),
    ensures
        final(out)@ == old(out)@ + tuft(x as int, y as int, a, b, c),
        all_drawable(final(out)@),
{
    let ghost start = out@;
    put_bar(out, x, y, 1, 1, a);
    put_bar(out, x, y - 1, 1, 1, a);
    put_bar(out, x + 1, y, 1, 1, b);
    put_bar(out, x + 2, y - 1, 1, 1, b);
    put_bar(out, x - 1, y - 2, 1, 1, c);
    put_bar(out, x + 1, y - 3, 1, 1, c);
    assert(out@ =~= start + tuft(x as int, y as int, a, b, c));
}

/// A flower.
pub open spec fn flower(x: int, y: int, petal: Paint, core: Paint, stem: Paint) -> Seq<Stroke> {
    seq![
        dot(x, y + 1, stem),
        dot(x - 1, y, petal),
        dot(x + 1, y, petal),
        dot(x, y - 1, petal),
        dot(x, y + 1, stem),
        dot(x, y, core),
    ]
}

fn put_flower(out: &mut Vec<Stroke>, x: i32, y: i32, petal: Paint, core: Paint, stem: Paint)
    requires
        -10_000 <= x <= 10_000,
        -10_000 <= y <= 10_000,
        all_drawable(old(out)@),
    ensures
        final(out)@ == old(out)@ + flower(x as int, y as int, petal, core, stem),
        all_drawable(final(out)@),
{
    let ghost start = out@;
    put_bar(out, x, y + 1, 1, 1, stem);
    put_bar(out, x - 1, y, 1, 1, petal);
    put_bar(out, x + 1, y, 1, 1, petal);
    put_bar(out, x, y - 1, 1, 1, petal);
    put_bar(out, x, y + 1, 1, 1, stem);
    put_bar(out, x, y, 1, 1, core);
    assert(out@ =~= start + flower(x as int, y as int, petal, core, stem));
}

/// A tree, which has one of three shapes by where it stands, with its shadow at
/// a place; in winter it bears no fruit.
pub open spec fn tree_strokes(x: int, y: int, shade: (i32, i32), winter: bool) -> Seq<Stroke> {
    let v = (x * 7 + y * 13) % 3;
    let foot = seq![
        bar(x - 2, y - 2, 4, 8, Paint::Trunk),
        bar(shade.0 as int, shade.1 as int, 18, 8, Paint::Shadow),
    ];
    if v == 0 {
        foot + seq![
            bar(x - 9, y - 7, 18, 12, Paint::Leaf),
            bar(x - 7, y - 12, 14, 9, Paint::Light),
            bar(x - 4, y - 16, 8, 6, Paint::TreeTop),
            dot(x - 8, y - 4, Paint::TreeDark),
            dot(x + 8, y - 4, Paint::TreeDark),
        ] + if winter {
            Seq::empty()
        } else {
            seq![dot(x - 2, y - 11, Paint::Berry)]
        }
    } else if v == 1 {
        foot + seq![
            bar(x - 11, y - 9, 22, 13, Paint::Leaf),
            bar(x - 9, y - 15, 18, 8, Paint::Light),
            bar(x - 5, y - 19, 10, 5, Paint::TreeTop),
            dot(x - 10, y - 5, Paint::TreeDark),
            dot(x + 10, y - 5, Paint::TreeDark),
        ] + if winter {
            Seq::empty()
        } else {
            seq![dot(x - 3, y - 13, Paint::Berry), dot(x + 3, y - 10, Paint::Berry)]
        }
    } else {
        foot + seq![
            bar(x - 7, y - 4, 14, 7, Paint::Leaf),
            bar(x - 6, y - 10, 12, 7, Paint::Light),
            bar(x - 4, y - 16, 8, 7, Paint::Light),
            bar(x - 2, y - 21, 4, 6, Paint::TreeTop),
            dot(x - 7, y - 5, Paint::TreeDark),
            dot(x + 7, y - 5, Paint::TreeDark),
        ]
    }
}

fn put_tree(out: &mut Vec<Stroke>, x: i32, y: i32, shade: (i32, i32), winter: bool)
    requires
        0 <= x <= 10_000,
        0 <= y <= 10_000,
        all_drawable(old(out)@),
    ensures
        final(out)@ == old(out)@ + tree_strokes(x as int, y as int, shade, winter),
        all_drawable(final(out)@),
{
    let ghost start = out@;
    let v: i32 = (x * 7 + y * 13) % 3;
    put_bar(out, x - 2, y - 2, 4, 8, Paint::Trunk);
    put_bar(out, shade.0, shade.1, 18, 8, Paint::Shadow);
    if v == 0 {
        put_bar(out, x - 9, y - 7, 18, 12, Paint::Leaf);
        put_bar(out, x - 7, y - 12, 14, 9, Paint::Light);
        put_bar(out, x - 4, y - 16, 8, 6, Paint::TreeTop);
        put_bar(out, x - 8, y - 4, 1, 1, Paint::TreeDark);
        put_bar(out, x + 8, y - 4, 1, 1, Paint::TreeDark);
        if !winter {
            put_bar(out, x - 2, y - 11, 1, 1, Paint::Berry);
        }
    } else if v == 1 {
        put_bar(out, x - 11, y - 9, 22, 13, Paint::Leaf);
        put_bar(out, x - 9, y - 15, 18, 8, Paint::Light);
        put_bar(out, x - 5, y - 19, 10, 5, Paint::TreeTop);
        put_bar(out, x - 10, y - 5, 1, 1, Paint::TreeDark);
        put_bar(out, x + 10, y - 5, 1, 1, Paint::TreeDark);
        if !winter {
            put_bar(out, x - 3, y - 13, 1, 1, Paint::Berry);
            put_bar(out, x + 3, y - 10, 1, 1, Paint::Berry);
        }
    } else {
        put_bar(out, x - 7, y - 4, 14, 7, Paint::Leaf);
        put_bar(out, x - 6, y - 10, 12, 7, Paint::Light);
        put_bar(out, x - 4, y - 16, 8, 7, Paint::Light);
        put_bar(out, x - 2, y - 21, 4, 6, Paint::TreeTop);
        put_bar(out, x - 7, y - 5, 1, 1, Paint::TreeDark);
        put_bar(out, x + 7, y - 5, 1, 1, Paint::TreeDark);
    }
    assert(out@ =~= start + tree_strokes(x as int, y as int, shade, winter));
}

/// Patches of darker and lighter grass. The first `n` of them.
pub open spec fn patches(n: int) -> Seq<Stroke>
    decreases n,
{
    if n <= 0 {
        Seq::empty()
    } else {
        let i = n - 1;
        patches(i) + seq![
            bar(
                (i * 83) % 930,
                10 + (i * 67) % 520,
                22 + (i % 3) * 7,
                7 + (i % 2) * 4,
                if i % 2 != 0 {
                Paint::GrassDark
            } else {
                Paint::GrassLight
            },
            ),
        ]
    }
}

fn put_patches(out: &mut Vec<Stroke>)
    requires
        all_drawable(old(out)@),
    ensures
        final(out)@ == old(out)@ + patches(32),
        all_drawable(final(out)@),
{
    let ghost start = out@;
    let n: i32 = 32;
    let mut i: i32 = 0;
    assert(start + patches(0) =~= start);
    while i < n
        invariant
            0 <= i <= n,
            n == 32,
            all_drawable(out@),
            out@ == start + patches(i as int),
        decreases n - i,
    {
        let paint = if i % 2 != 0 {
            Paint::GrassDark
        } else {
            Paint::GrassLight
        };
        put_bar(out, (i * 83) % 930, 10 + (i * 67) % 520, 22 + (i % 3) * 7, 7 + (i % 2) * 4, paint);
        assert(out@ =~= start + patches(i + 1));
        i = i + 1;
    }
}

/// Tufts of grass on the ground that is free. The first `n` of them.
pub open spec fn tufts(grid: Seq<u8>, n: int) -> Seq<Stroke>
    decreases n,
{
    if n <= 0 {
        Seq::empty()
    } else {
        let i = n - 1;
        let x = (i * 73) % 960;
        let y = 8 + (i * 41) % 524;
        tufts(grid, i) + if walk_px(grid, x, y) {
            tuft(
                x,
                y,
                if i % 3 == 0 {
                    Paint::High
                } else {
                    Paint::Light
                },
                if i % 4 == 0 {
                    Paint::Leaf
                } else {
                    Paint::Light
                },
                Paint::High,
            )
        } else {
            Seq::empty()
        }
    }
}

fn put_tufts(grid: &Vec<u8>, out: &mut Vec<Stroke>)
    requires
        grid@.len() == TILES,
        all_drawable(old(out)@),
    ensures
        final(out)@ == old(out)@ + tufts(grid@, 140),
        all_drawable(final(out)@),
{
    let ghost start = out@;
    let n: i32 = 140;
    let mut i: i32 = 0;
    assert(start + tufts(grid@, 0) =~= start);
    while i < n
        invariant
            0 <= i <= n,
            n == 140,
            grid@.len() == 3600,
            all_drawable(out@),
            out@ == start + tufts(grid@, i as int),
        decreases n - i,
    {
        let x: i32 = (i * 73) % 960;
        let y: i32 = 8 + (i * 41) % 524;
        if is_walk_px(grid, x, y) {
            let a = if i % 3 == 0 {
                Paint::High
            } else {
                Paint::Light
            };
            let b = if i % 4 == 0 {
                Paint::Leaf
            } else {
                Paint::Light
            };
            put_tuft(out, x, y, a, b, Paint::High);
        }
        assert(out@ =~= start + tufts(grid@, i + 1));
        i = i + 1;
    }
}

/// Stones of the street. The first `n` of them.
pub open spec fn street_stones(n: int) -> Seq<Stroke>
    decreases n,
{
    if n <= 0 {
        Seq::empty()
    } else {
        let i = n - 1;
        street_stones(i) + seq![dot((i * 37) % 960, 252 + (i * 17) % 26, Paint::RoadDark)]
    }
}

fn put_street_stones(out: &mut Vec<Stroke>)
    requires
        all_drawable(old(out)@),
    ensures
        final(out)@ == old(out)@ + street_stones(170),
        all_drawable(final(out)@),
{
    let ghost start = out@;
    let n: i32 = 170;
    let mut i: i32 = 0;
    assert(start + street_stones(0) =~= start);
    while i < n
        invariant
            0 <= i <= n,
            n == 170,
            all_drawable(out@),
            out@ == start + street_stones(i as int),
        decreases n - i,
    {
        put_bar(out, (i * 37) % 960, 252 + (i * 17) % 26, 1, 1, Paint::RoadDark);
        assert(out@ =~= start + street_stones(i + 1));
        i = i + 1;
    }
}

/// Stones of the avenue. The first `n` of them.
pub open spec fn avenue_stones(n: int) -> Seq<Stroke>
    decreases n,
{
    if n <= 0 {
        Seq::empty()
    } else {
        let i = n - 1;
        avenue_stones(i) + seq![dot(460 + (i * 23) % 40, (i * 53) % 540, Paint::RoadDark)]
    }
}

fn put_avenue_stones(out: &mut Vec<Stroke>)
    requires
        all_drawable(old(out)@),
    ensures
        final(out)@ == old(out)@ + avenue_stones(140),
        all_drawable(final(out)@),
{
    let ghost start = out@;
    let n: i32 = 140;
    let mut i: i32 = 0;
    assert(start + avenue_stones(0) =~= start);
    while i < n
        invariant
            0 <= i <= n,
            n == 140,
            all_drawable(out@),
            out@ == start + avenue_stones(i as int),
        decreases n - i,
    {
        put_bar(out, 460 + (i * 23) % 40, (i * 53) % 540, 1, 1, Paint::RoadDark);
        assert(out@ =~= start + avenue_stones(i + 1));
        i = i + 1;
    }
}

/// Stones of the square. The first `n` of them.
pub open spec fn square_stones(n: int) -> Seq<Stroke>
    decreases n,
{
    if n <= 0 {
        Seq::empty()
    } else {
        let i = n - 1;
        square_stones(i) + seq![dot(400 + (i * 29) % 160, 184 + (i * 47) % 168, Paint::RoadDark)]
    }
}

fn put_square_stones(out: &mut Vec<Stroke>)
    requires
        all_drawable(old(out)@),
    ensures
        final(out)@ == old(out)@ + square_stones(90),
        all_drawable(final(out)@),
{
    let ghost start = out@;
    let n: i32 = 90;
    let mut i: i32 = 0;
    assert(start + square_stones(0) =~= start);
    while i < n
        invariant
            0 <= i <= n,
            n == 90,
            all_drawable(out@),
            out@ == start + square_stones(i as int),
        decreases n - i,
    {
        put_bar(out, 400 + (i * 29) % 160, 184 + (i * 47) % 168, 1, 1, Paint::RoadDark);
        assert(out@ =~= start + square_stones(i + 1));
        i = i + 1;
    }
}

/// The petals of a flower in a bed.
pub open spec fn bed_petal(i: int) -> Paint {
    if i % 5 == 0 {
        Paint::Petal
    } else if i % 5 == 1 {
        Paint::Gold
    } else if i % 5 == 2 {
        Paint::Rose
    } else if i % 5 == 3 {
        Paint::Violet
    } else {
        Paint::Sky
    }
}

fn bed_petal_paint(i: i32) -> (r: Paint)
    requires
        0 <= i,
    ensures
        r == bed_petal(i as int),
{
    if i % 5 == 0 {
        Paint::Petal
    } else if i % 5 == 1 {
        Paint::Gold
    } else if i % 5 == 2 {
        Paint::Rose
    } else if i % 5 == 3 {
        Paint::Violet
    } else {
        Paint::Sky
    }
}

/// The petals of a flower on the meadow.
pub open spec fn wild_petal(i: int) -> Paint {
    if i % 3 == 0 {
        Paint::Petal
    } else if i % 3 == 1 {
        Paint::Gold
    } else {
        Paint::Rose
    }
}

fn wild_petal_paint(i: i32) -> (r: Paint)
    requires
        0 <= i,
    ensures
        r == wild_petal(i as int),
{
    if i % 3 == 0 {
        Paint::Petal
    } else if i % 3 == 1 {
        Paint::Gold
    } else {
        Paint::Rose
    }
}

/// The middle of a flower.
pub open spec fn core_of(i: int) -> Paint {
    if i % 2 != 0 {
        Paint::CorePale
    } else {
        Paint::CoreRust
    }
}

fn core_of_paint(i: i32) -> (r: Paint)
    requires
        0 <= i,
    ensures
        r == core_of(i as int),
{
    if i % 2 != 0 {
        Paint::CorePale
    } else {
        Paint::CoreRust
    }
}

/// Whether a bed has a size that can be planted.
pub open spec fn plantable(a: Area) -> bool {
    &&& 0 <= a.x <= 2000
    &&& 0 <= a.y <= 2000
    &&& 20 <= a.w <= 1000
    &&& 20 <= a.h <= 1000
}

/// How many flowers a bed has.
pub open spec fn flower_count(a: Area) -> int {
    (a.w * a.h + 23) / 24
}

fn count_flowers(a: &Area) -> (r: i32)
    requires
        plantable(*a),
    ensures
        r == flower_count(*a),
        0 <= r <= 41_667,
{
    assert(0 <= a.w * a.h <= 1_000_000) by (nonlinear_arith)
        requires
            20 <= a.w <= 1000,
            20 <= a.h <= 1000,
    ;
    (a.w * a.h + 23) / 24
}

/// The flowers of a bed, every fourth with a tuft beside it. The first `n` of them.
pub open spec fn bed_flowers(a: Area, n: int) -> Seq<Stroke>
    decreases n,
{
    if n <= 0 {
        Seq::empty()
    } else {
        let i = n - 1;
        let x = a.x + 3 + (i * 53) % (a.w - 6);
        let y = a.y + 3 + (i * 31) % (a.h - 6);
        bed_flowers(a, i) + flower(x, y, bed_petal(i), core_of(i), Paint::Leaf) + if i % 4 == 0 {
            tuft(x + 4, y + 8, Paint::High, Paint::Leaf, Paint::FieldDark)
        } else {
            Seq::empty()
        }
    }
}

fn put_bed_flowers(a: &Area, out: &mut Vec<Stroke>)
    requires
        plantable(*a),
        all_drawable(old(out)@),
    ensures
        final(out)@ == old(out)@ + bed_flowers(*a, flower_count(*a)),
        all_drawable(final(out)@),
{
    let ghost start = out@;
    let n: i32 = count_flowers(a);
    let mut i: i32 = 0;
    assert(start + bed_flowers(*a, 0) =~= start);
    while i < n
        invariant
            0 <= i <= n,
            n == flower_count(*a),
            plantable(*a),
            n <= 41_667,
            all_drawable(out@),
            out@ == start + bed_flowers(*a, i as int),
        decreases n - i,
    {
        let x: i32 = a.x + 3 + (i * 53) % (a.w - 6);
        let y: i32 = a.y + 3 + (i * 31) % (a.h - 6);
        put_flower(out, x, y, bed_petal_paint(i), core_of_paint(i), Paint::Leaf);
        if i % 4 == 0 {
            put_tuft(out, x + 4, y + 8, Paint::High, Paint::Leaf, Paint::FieldDark);
        }
        assert(out@ =~= start + bed_flowers(*a, i + 1));
        i = i + 1;
    }
}

/// The tufts along the lower edge of a bed. The first `n` of them.
pub open spec fn bed_edge(a: Area, n: int) -> Seq<Stroke>
    decreases n,
{
    if n <= 0 {
        Seq::empty()
    } else {
        let i = n - 1;
        bed_edge(a, i) + tuft(
            a.x + 4 + 26 * i,
            a.y + a.h - 8,
            Paint::Leaf,
            Paint::High,
            Paint::FieldDark,
        )
    }
}

fn put_bed_edge(a: &Area, out: &mut Vec<Stroke>)
    requires
        plantable(*a),
        all_drawable(old(out)@),
    ensures
        final(out)@ == old(out)@ + bed_edge(*a, (a.w + 25) / 26),
        all_drawable(final(out)@),
{
    let ghost start = out@;
    let n: i32 = (a.w + 25) / 26;
    let mut i: i32 = 0;
    assert(start + bed_edge(*a, 0) =~= start);
    while i < n
        invariant
            0 <= i <= n,
            n == (a.w + 25) / 26,
            plantable(*a),
            all_drawable(out@),
            out@ == start + bed_edge(*a, i as int),
        decreases n - i,
    {
        put_tuft(
            out,
            a.x + 4 + 26 * i,
            a.y + a.h - 8,
            Paint::Leaf,
            Paint::High,
            Paint::FieldDark,
        );
        assert(out@ =~= start + bed_edge(*a, i + 1));
        i = i + 1;
    }
}

/// A bed of flowers.
pub open spec fn bed(a: Area) -> Seq<Stroke> {
    seq![bar(a.x as int, a.y as int, a.w as int, a.h as int, Paint::GrassDark)] + bed_flowers(
        a,
        flower_count(a),
    ) + bed_edge(a, (a.w + 25) / 26)
}

fn put_bed(a: &Area, out: &mut Vec<Stroke>)
    requires
        plantable(*a),
        all_drawable(old(out)@),
    ensures
        final(out)@ == old(out)@ + bed(*a),
        all_drawable(final(out)@),
{
    let ghost start = out@;
    put_bar(out, a.x, a.y, a.w, a.h, Paint::GrassDark);
    put_bed_flowers(a, out);
    put_bed_edge(a, out);
    assert(out@ =~= start + bed(*a));
}

/// The sprouts of a furrow: the first `n` places of every ninth pixel.
pub open spec fn sprouts(a: Area, j: int, n: int) -> Seq<Stroke>
    decreases n,
{
    if n <= 0 {
        Seq::empty()
    } else {
        let i = 4 + 9 * (n - 1);
        sprouts(a, j, n - 1) + if (i + j) % 3 == 0 {
            seq![dot(a.x + i, a.y + j - 3, Paint::Light)]
        } else {
            Seq::empty()
        }
    }
}

fn put_sprouts(a: &Area, j: i32, out: &mut Vec<Stroke>)
    requires
        plantable(*a),
        0 <= j <= 2000,
        all_drawable(old(out)@),
    ensures
        final(out)@ == old(out)@ + sprouts(*a, j as int, (a.w - 10 + 8) / 9),
        all_drawable(final(out)@),
{
    let ghost start = out@;
    let n: i32 = (a.w - 2) / 9;
    let mut k: i32 = 0;
    assert(start + sprouts(*a, j as int, 0) =~= start);
    while k < n
        invariant
            0 <= k <= n,
            n == (a.w - 2) / 9,
            plantable(*a),
            0 <= j <= 2000,
            all_drawable(out@),
            out@ == start + sprouts(*a, j as int, k as int),
        decreases n - k,
    {
        let i: i32 = 4 + 9 * k;
        if (i + j) % 3 == 0 {
            put_bar(out, a.x + i, a.y + j - 3, 1, 1, Paint::Light);
        }
        assert(out@ =~= start + sprouts(*a, j as int, k + 1));
        k = k + 1;
    }
}

/// The furrows of a field with what grows in them. The first `n` of them.
pub open spec fn furrows(a: Area, n: int) -> Seq<Stroke>
    decreases n,
{
    if n <= 0 {
        Seq::empty()
    } else {
        let i = n - 1;
        let j = 4 + 7 * i;
        furrows(a, i).push(bar(a.x + 3, a.y + j, a.w - 6, 2, Paint::Wood)) + sprouts(
            a,
            j,
            (a.w - 10 + 8) / 9,
        )
    }
}

fn put_furrows(a: &Area, out: &mut Vec<Stroke>)
    requires
        plantable(*a),
        all_drawable(old(out)@),
    ensures
        final(out)@ == old(out)@ + furrows(*a, (a.h - 8 + 6) / 7),
        all_drawable(final(out)@),
{
    let ghost start = out@;
    let n: i32 = (a.h - 8 + 6) / 7;
    let mut i: i32 = 0;
    assert(start + furrows(*a, 0) =~= start);
    while i < n
        invariant
            0 <= i <= n,
            n == (a.h - 8 + 6) / 7,
            plantable(*a),
            all_drawable(out@),
            out@ == start + furrows(*a, i as int),
        decreases n - i,
    {
        let j: i32 = 4 + 7 * i;
        put_bar(out, a.x + 3, a.y + j, a.w - 6, 2, Paint::Wood);
        put_sprouts(a, j, out);
        assert(out@ =~= start + furrows(*a, i + 1));
        i = i + 1;
    }
}

/// A field.
pub open spec fn field(a: Area) -> Seq<Stroke> {
    seq![bar(a.x as int, a.y as int, a.w as int, a.h as int, Paint::Soil)] + furrows(
        a,
        (a.h - 8 + 6) / 7,
    )
}

fn put_field(a: &Area, out: &mut Vec<Stroke>)
    requires
        plantable(*a),
        all_drawable(old(out)@),
    ensures
        final(out)@ == old(out)@ + field(*a),
        all_drawable(final(out)@),
{
    let ghost start = out@;
    put_bar(out, a.x, a.y, a.w, a.h, Paint::Soil);
    put_furrows(a, out);
    assert(out@ =~= start + field(*a));
}

/// The first `n` trees, each with its shadow.
pub open spec fn grove(shades: Seq<(i32, i32)>, winter: bool, n: int) -> Seq<Stroke>
    decreases n,
{
    if n <= 0 {
        Seq::empty()
    } else {
        let i = n - 1;
        grove(shades, winter, i) + tree_strokes(
            tree(i).0 as int,
            tree(i).1 as int,
            shades[i],
            winter,
        )
    }
}

fn put_grove(shades: &Vec<(i32, i32)>, winter: bool, out: &mut Vec<Stroke>)
    requires
        shades@.len() == TREES,
        all_drawable(old(out)@),
    ensures
        final(out)@ == old(out)@ + grove(shades@, winter, TREES as int),
        all_drawable(final(out)@),
{
    let ghost start = out@;
    let mut i: usize = 0;
    assert(start + grove(shades@, winter, 0) =~= start);
    while i < TREES
        invariant
            i <= TREES,
            shades@.len() == TREES,
            all_drawable(out@),
            out@ == start + grove(shades@, winter, i as int),
        decreases TREES - i,
    {
        let (x, y) = tree_spot(i);
        put_tree(out, x, y, shades[i], winter);
        assert(out@ =~= start + grove(shades@, winter, i + 1));
        i = i + 1;
    }
}

/// Flowers on the ground that is free. The first `n` of them.
pub open spec fn wild_flowers(grid: Seq<u8>, n: int) -> Seq<Stroke>
    decreases n,
{
    if n <= 0 {
        Seq::empty()
    } else {
        let i = n - 1;
        let x = (i * 89) % 960;
        let y = 10 + (i * 59) % 520;
        wild_flowers(grid, i) + if walk_px(grid, x, y) {
            flower(x, y, wild_petal(i), core_of(i), Paint::Light)
        } else {
            Seq::empty()
        }
    }
}

fn put_wild_flowers(grid: &Vec<u8>, out: &mut Vec<Stroke>)
    requires
        grid@.len() == TILES,
        all_drawable(old(out)@),
    ensures
        final(out)@ == old(out)@ + wild_flowers(grid@, 90),
        all_drawable(final(out)@),
{
    let ghost start = out@;
    let n: i32 = 90;
    let mut i: i32 = 0;
    assert(start + wild_flowers(grid@, 0) =~= start);
    while i < n
        invariant
            0 <= i <= n,
            n == 90,
            grid@.len() == 3600,
            all_drawable(out@),
            out@ == start + wild_flowers(grid@, i as int),
        decreases n - i,
    {
        let x: i32 = (i * 89) % 960;
        let y: i32 = 10 + (i * 59) % 520;
        if is_walk_px(grid, x, y) {
            put_flower(out, x, y, wild_petal_paint(i), core_of_paint(i), Paint::Light);
        }
        assert(out@ =~= start + wild_flowers(grid@, i + 1));
        i = i + 1;
    }
}

/// The ground and the roads.
pub open spec fn ground(grid: Seq<u8>) -> Seq<Stroke> {
    seq![bar(0, 0, 960, 540, Paint::Meadow)] + patches(32) + tufts(grid, 140) + seq![
        bar(0, 248, 960, 34, Paint::Road),
    ] + street_stones(170) + seq![bar(456, 0, 48, 540, Paint::Road)] + avenue_stones(140) + seq![
        bar(396, 180, 168, 176, Paint::Road),
    ] + square_stones(90)
}

/// The ground and the roads, on the ground that `grid` leaves free.
pub fn ground_strokes(grid: &Vec<u8>) -> (r: Vec<Stroke>)
    requires
        grid@.len() == TILES,
    ensures
        r@ == ground(grid@),
        all_drawable(r@),
{
    let mut out: Vec<Stroke> = Vec::new();
    put_bar(&mut out, 0, 0, 960, 540, Paint::Meadow);
    put_patches(&mut out);
    put_tufts(grid, &mut out);
    put_bar(&mut out, 0, 248, 960, 34, Paint::Road);
    put_street_stones(&mut out);
    put_bar(&mut out, 456, 0, 48, 540, Paint::Road);
    put_avenue_stones(&mut out);
    put_bar(&mut out, 396, 180, 168, 176, Paint::Road);
    put_square_stones(&mut out);
    assert(out@ =~= ground(grid@));
    out
}

/// A pond: its centre, its radii, and the middles of the two leaves on it.
#[derive(Debug, Clone, Copy, PartialEq, Eq)]
pub struct Pond {
    pub x: i32,
    pub y: i32,
    pub rx: i32,
    pub ry: i32,
    pub leaf: (i32, i32),
    pub bud: (i32, i32),
}

/// How many ponds the town has.
pub const PONDS: usize = 2;

/// The ponds: one in the south, one in the north-east.
pub open spec fn pond(i: int) -> Pond {
    if i == 0 {
        Pond { x: 225, y: 486, rx: 65, ry: 26, leaf: (196, 493), bud: (248, 477) }
    } else {
        Pond { x: 893, y: 30, rx: 43, ry: 22, leaf: (874, 36), bud: (908, 22) }
    }
}

/// A pond of the town.
pub fn pond_at(i: usize) -> (r: Pond)
    requires
        i < PONDS,
    ensures
        r == pond(i as int),
{
    if i == 0 {
        Pond { x: 225, y: 486, rx: 65, ry: 26, leaf: (196, 493), bud: (248, 477) }
    } else {
        Pond { x: 893, y: 30, rx: 43, ry: 22, leaf: (874, 36), bud: (908, 22) }
    }
}

/// The bed of a pond: sand, shore, and water that grows lighter.
pub open spec fn pond_bed(p: Pond) -> Seq<Stroke> {
    seq![
        disc(p.x as int, p.y as int, p.rx + 3, p.ry + 3, Paint::Sand),
        disc(p.x as int, p.y as int, p.rx + 1, p.ry + 1, Paint::Foam),
        disc(p.x as int, p.y as int, p.rx - 1, p.ry - 1, Paint::Deep),
        disc(p.x as int, p.y - 1, p.rx - 4, p.ry - 4, Paint::Water),
        disc(p.x - 2, p.y - 3, p.rx - 8, p.ry - 7, Paint::WaterLight),
    ]
}

/// The bed of a pond.
pub fn pond_bed_strokes(i: usize) -> (r: Vec<Stroke>)
    requires
        i < PONDS,
    ensures
        r@ == pond_bed(pond(i as int)),
        all_drawable(r@),
{
    let p = pond_at(i);
    let mut out: Vec<Stroke> = Vec::new();
    put_disc(&mut out, p.x, p.y, p.rx + 3, p.ry + 3, Paint::Sand);
    put_disc(&mut out, p.x, p.y, p.rx + 1, p.ry + 1, Paint::Foam);
    put_disc(&mut out, p.x, p.y, p.rx - 1, p.ry - 1, Paint::Deep);
    put_disc(&mut out, p.x, p.y - 1, p.rx - 4, p.ry - 4, Paint::Water);
    put_disc(&mut out, p.x - 2, p.y - 3, p.rx - 8, p.ry - 7, Paint::WaterLight);
    assert(out@ =~= pond_bed(p));
    out
}

/// The leaves on a pond, a large one and a small one.
pub open spec fn pond_leaves(p: Pond) -> Seq<Stroke> {
    let x = p.bud.0 as int;
    let y = p.bud.1 as int;
    seq![
        disc(p.leaf.0 as int, p.leaf.1 as int, 3, 2, Paint::Lily),
        bar(x, y - 2, 1, 1, Paint::Lily),
        bar(x - 1, y - 1, 3, 1, Paint::Lily),
        bar(x - 2, y, 5, 1, Paint::Lily),
        bar(x - 1, y + 1, 3, 1, Paint::Lily),
        bar(x, y + 2, 1, 1, Paint::Lily),
    ]
}

/// The leaves on a pond.
pub fn pond_leaf_strokes(i: usize) -> (r: Vec<Stroke>)
    requires
        i < PONDS,
    ensures
        r@ == pond_leaves(pond(i as int)),
        all_drawable(r@),
{
    let p = pond_at(i);
    let x: i32 = p.bud.0;
    let y: i32 = p.bud.1;
    let mut out: Vec<Stroke> = Vec::new();
    put_disc(&mut out, p.leaf.0, p.leaf.1, 3, 2, Paint::Lily);
    put_bar(&mut out, x, y - 2, 1, 1, Paint::Lily);
    put_bar(&mut out, x - 1, y - 1, 3, 1, Paint::Lily);
    put_bar(&mut out, x - 2, y, 5, 1, Paint::Lily);
    put_bar(&mut out, x - 1, y + 1, 3, 1, Paint::Lily);
    put_bar(&mut out, x, y + 2, 1, 1, Paint::Lily);
    assert(out@ =~= pond_leaves(p));
    out
}

/// The basin of the fountain.
pub open spec fn fountain_basin() -> Seq<Stroke> {
    seq![
        disc(480, 268, 27, 21, Paint::Stone),
        disc(480, 268, 24, 18, Paint::StoneDark),
        disc(480, 267, 21, 14, Paint::Water),
        disc(480, 265, 16, 10, Paint::WaterLight),
    ]
}

/// The basin of the fountain.
pub fn fountain_basin_strokes() -> (r: Vec<Stroke>)
    ensures
        r@ == fountain_basin(),
        all_drawable(r@),
{
    let mut out: Vec<Stroke> = Vec::new();
    put_disc(&mut out, 480, 268, 27, 21, Paint::Stone);
    put_disc(&mut out, 480, 268, 24, 18, Paint::StoneDark);
    put_disc(&mut out, 480, 267, 21, 14, Paint::Water);
    put_disc(&mut out, 480, 265, 16, 10, Paint::WaterLight);
    assert(out@ =~= fountain_basin());
    out
}

/// The jet of the fountain.
pub open spec fn fountain_jet() -> Seq<Stroke> {
    seq![
        bar(478, 249, 4, 14, Paint::WaterLight),
        bar(479, 242, 2, 9, Paint::Water),
        bar(480, 240, 1, 5, Paint::Fixed(0xffff_ffff)),
    ]
}

/// The jet of the fountain.
pub fn fountain_jet_strokes() -> (r: Vec<Stroke>)
    ensures
        r@ == fountain_jet(),
        all_drawable(r@),
{
    let mut out: Vec<Stroke> = Vec::new();
    put_bar(&mut out, 478, 249, 4, 14, Paint::WaterLight);
    put_bar(&mut out, 479, 242, 2, 9, Paint::Water);
    put_bar(&mut out, 480, 240, 1, 5, Paint::Fixed(0xffff_ffff));
    assert(out@ =~= fountain_jet());
    out
}

/// The plinth that the jet comes from.
pub open spec fn fountain_plinth() -> Seq<Stroke> {
    seq![bar(477, 261, 6, 9, Paint::Plinth), bar(478, 255, 4, 7, Paint::Rim)]
}

/// The plinth that the jet comes from.
pub fn fountain_plinth_strokes() -> (r: Vec<Stroke>)
    ensures
        r@ == fountain_plinth(),
        all_drawable(r@),
{
    let mut out: Vec<Stroke> = Vec::new();
    put_bar(&mut out, 477, 261, 6, 9, Paint::Plinth);
    put_bar(&mut out, 478, 255, 4, 7, Paint::Rim);
    assert(out@ =~= fountain_plinth());
    out
}

/// The gardens: beds, a field, the trees and flowers on the meadow.
pub open spec fn gardens(grid: Seq<u8>, shades: Seq<(i32, i32)>, winter: bool) -> Seq<Stroke> {
    bed(Area { x: 220, y: 390, w: 120, h: 44 }) + bed(Area { x: 300, y: 300, w: 76, h: 40 }) + bed(
        Area { x: 790, y: 150, w: 76, h: 44 },
    ) + field(Area { x: 360, y: 420, w: 90, h: 46 }) + grove(shades, winter, TREES as int)
        + wild_flowers(grid, 90)
}

/// The gardens. `shades` holds for each tree where its shadow falls.
pub fn garden_strokes(grid: &Vec<u8>, shades: &Vec<(i32, i32)>, winter: bool) -> (r: Vec<Stroke>)
    requires
        grid@.len() == TILES,
        shades@.len() == TREES,
    ensures
        r@ == gardens(grid@, shades@, winter),
        all_drawable(r@),
{
    let mut out: Vec<Stroke> = Vec::new();
    put_bed(&Area { x: 220, y: 390, w: 120, h: 44 }, &mut out);
    put_bed(&Area { x: 300, y: 300, w: 76, h: 40 }, &mut out);
    put_bed(&Area { x: 790, y: 150, w: 76, h: 44 }, &mut out);
    put_field(&Area { x: 360, y: 420, w: 90, h: 46 }, &mut out);
    put_grove(shades, winter, &mut out);
    put_wild_flowers(grid, &mut out);
    assert(out@ =~= gardens(grid@, shades@, winter));
    out
}

} // verus!
