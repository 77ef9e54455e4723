//! Pictures as lists of strokes: rectangles and discs, each in a paint that the
//! hour of the day gives its colour.

use vstd::prelude::*;

use crate::model::town_draw::{rect, with_rect, PIXELS};

verus! {

/// What a stroke is painted with.
#[derive(Debug, Clone, Copy, PartialEq, Eq, Structural)]
pub enum Paint {
    Roof,
    Wall,
    Dark,
    RoofDark,
    Win,
    Door,
    Wood,
    Glass,
    Leaf,
    Light,
    Gold,
    Bark,
    Pith,
    Meadow,
    High,
    Trunk,
    Berry,
    Petal,
    Shadow,
    TreeTop,
    TreeDark,
    GrassDark,
    GrassLight,
    FieldDark,
    Rose,
    Violet,
    Sky,
    CorePale,
    CoreRust,
    Soil,
    Road,
    RoadDark,
    Sand,
    Foam,
    Deep,
    Water,
    WaterLight,
    Lily,
    Stone,
    StoneDark,
    Plinth,
    Rim,
    /// A colour that is the same at every hour.
    Fixed(u32),
}

/// The colours of an hour.
#[derive(Debug, Clone, Copy, PartialEq, Eq, Structural)]
pub struct Colours {
    pub roof: u32,
    pub wall: u32,
    pub dark: u32,
    pub roof_dark: u32,
    pub win: u32,
    pub door: u32,
    pub wood: u32,
    pub glass: u32,
    pub leaf: u32,
    pub light: u32,
    pub gold: u32,
    pub bark: u32,
    pub pith: u32,
    pub meadow: u32,
    pub high: u32,
    pub trunk: u32,
    pub berry: u32,
    pub petal: u32,
    pub shadow: u32,
    pub tree_top: u32,
    pub tree_dark: u32,
    pub grass_dark: u32,
    pub grass_light: u32,
    pub field_dark: u32,
    pub rose: u32,
    pub violet: u32,
    pub sky: u32,
    pub core_pale: u32,
    pub core_rust: u32,
    pub soil: u32,
    pub road: u32,
    pub road_dark: u32,
    pub sand: u32,
    pub foam: u32,
    pub deep: u32,
    pub water: u32,
    pub water_light: u32,
    pub lily: u32,
    pub stone: u32,
    pub stone_dark: u32,
    pub plinth: u32,
    pub rim: u32,
}

/// The colour of a paint.
pub open spec fn colour_of(p: Paint, c: Colours) -> u32 {
    match p {
        Paint::Roof => c.roof,
        Paint::Wall => c.wall,
        Paint::Dark => c.dark,
        Paint::RoofDark => c.roof_dark,
        Paint::Win => c.win,
        Paint::Door => c.door,
        Paint::Wood => c.wood,
        Paint::Glass => c.glass,
        Paint::Leaf => c.leaf,
        Paint::Light => c.light,
        Paint::Gold => c.gold,
        Paint::Bark => c.bark,
        Paint::Pith => c.pith,
        Paint::Meadow => c.meadow,
        Paint::High => c.high,
        Paint::Trunk => c.trunk,
        Paint::Berry => c.berry,
        Paint::Petal => c.petal,
        Paint::Shadow => c.shadow,
        Paint::TreeTop => c.tree_top,
        Paint::TreeDark => c.tree_dark,
        Paint::GrassDark => c.grass_dark,
        Paint::GrassLight => c.grass_light,
        Paint::FieldDark => c.field_dark,
        Paint::Rose => c.rose,
        Paint::Violet => c.violet,
        Paint::Sky => c.sky,
        Paint::CorePale => c.core_pale,
        Paint::CoreRust => c.core_rust,
        Paint::Soil => c.soil,
        Paint::Road => c.road,
        Paint::RoadDark => c.road_dark,
        Paint::Sand => c.sand,
        Paint::Foam => c.foam,
        Paint::Deep => c.deep,
        Paint::Water => c.water,
        Paint::WaterLight => c.water_light,
        Paint::Lily => c.lily,
        Paint::Stone => c.stone,
        Paint::StoneDark => c.stone_dark,
        Paint::Plinth => c.plinth,
        Paint::Rim => c.rim,
        Paint::Fixed(v) => v,
    }
}

/// The colour of a paint.
pub fn colour(p: Paint, c: &Colours) -> (r: u32)
    ensures
        r == colour_of(p, *c),
{
    match p {
        Paint::Roof => c.roof,
        Paint::Wall => c.wall,
        Paint::Dark => c.dark,
        Paint::RoofDark => c.roof_dark,
        Paint::Win => c.win,
        Paint::Door => c.door,
        Paint::Wood => c.wood,
        Paint::Glass => c.glass,
        Paint::Leaf => c.leaf,
        Paint::Light => c.light,
        Paint::Gold => c.gold,
        Paint::Bark => c.bark,
        Paint::Pith => c.pith,
        Paint::Meadow => c.meadow,
        Paint::High => c.high,
        Paint::Trunk => c.trunk,
        Paint::Berry => c.berry,
        Paint::Petal => c.petal,
        Paint::Shadow => c.shadow,
        Paint::TreeTop => c.tree_top,
        Paint::TreeDark => c.tree_dark,
        Paint::GrassDark => c.grass_dark,
        Paint::GrassLight => c.grass_light,
        Paint::FieldDark => c.field_dark,
        Paint::Rose => c.rose,
        Paint::Violet => c.violet,
        Paint::Sky => c.sky,
        Paint::CorePale => c.core_pale,
        Paint::CoreRust => c.core_rust,
        Paint::Soil => c.soil,
        Paint::Road => c.road,
        Paint::RoadDark => c.road_dark,
        Paint::Sand => c.sand,
        Paint::Foam => c.foam,
        Paint::Deep => c.deep,
        Paint::Water => c.water,
        Paint::WaterLight => c.water_light,
        Paint::Lily => c.lily,
        Paint::Stone => c.stone,
        Paint::StoneDark => c.stone_dark,
        Paint::Plinth => c.plinth,
        Paint::Rim => c.rim,
        Paint::Fixed(v) => v,
    }
}

/// A stroke: a rectangle by its corner and its sides, or a disc by its centre
/// and its radii.
#[derive(Debug, Clone, Copy, PartialEq, Eq, Structural)]
pub enum Stroke {
    Rect { x: i32, y: i32, w: i32, h: i32, paint: Paint },
    Disc { x: i32, y: i32, rx: i32, ry: i32, paint: Paint },
}

/// A rectangle.
pub open spec fn bar(x: int, y: int, w: int, h: int, paint: Paint) -> Stroke {
    Stroke::Rect { x: x as i32, y: y as i32, w: w as i32, h: h as i32, paint }
}

/// A disc.
pub open spec fn disc(x: int, y: int, rx: int, ry: int, paint: Paint) -> Stroke {
    Stroke::Disc { x: x as i32, y: y as i32, rx: rx as i32, ry: ry as i32, paint }
}

/// Whether the middle of a disc's row, `dx` off the centre, is within the disc
/// `dy` off it: the ends of a row are rounded to the nearest pixel.
pub open spec fn in_disc(dx: int, dy: int, rx: int, ry: int) -> bool {
    let d = if dx < 0 {
        -dx
    } else {
        dx
    };
    &&& -ry <= dy <= ry
    &&& d == 0 || (2 * d - 1) * (2 * d - 1) * (ry * ry) <= 4 * (rx * rx) * (ry * ry - dy * dy)
}

/// The picture with a disc filled.
pub open spec fn with_disc(b: Seq<u32>, x: int, y: int, rx: int, ry: int, c: u32) -> Seq<u32> {
    Seq::new(
        b.len(),
        |k: int|
            if in_disc(k % 960 - x, k / 960 - y, rx, ry) {
                c
            } else {
                b[k]
            },
    )
}

/// Largest radius of a disc that is drawn.
pub const RADIUS_MAX: i32 = 1000;

proof fn lemma_in_disc_shrinks(a: int, b: int, dy: int, rx: int, ry: int)
    requires
        0 <= a <= b,
        in_disc(b, dy, rx, ry),
    ensures
        in_disc(a, dy, rx, ry),
{
    if a > 0 && a < b {
        assert((2 * a - 1) * (2 * a - 1) <= (2 * b - 1) * (2 * b - 1)) by (nonlinear_arith)
            requires
                0 < a <= b,
        ;
        assert((2 * a - 1) * (2 * a - 1) * (ry * ry) <= (2 * b - 1) * (2 * b - 1) * (ry * ry))
            by (nonlinear_arith)
            requires
                (2 * a - 1) * (2 * a - 1) <= (2 * b - 1) * (2 * b - 1),
        ;
    }
}

fn reaches(d: i64, dy: i64, rx: i64, ry: i64) -> (r: bool)
    requires
        0 < d <= 2000,
        0 <= rx <= 1000,
        0 <= ry <= 1000,
        -ry <= dy <= ry,
    ensures
        r == in_disc(d as int, dy as int, rx as int, ry as int),
{
    let s: i64 = 2 * d - 1;
    assert(0 <= s * s <= 4000 * 4000) by (nonlinear_arith)
        requires
            0 <= s <= 4000,
    ;
    assert(0 <= ry * ry <= 1_000_000) by (nonlinear_arith)
        requires
            0 <= ry <= 1000,
    ;
    assert(0 <= rx * rx <= 1_000_000) by (nonlinear_arith)
        requires
            0 <= rx <= 1000,
    ;
    assert(0 <= dy * dy <= ry * ry) by (nonlinear_arith)
        requires
            -ry <= dy <= ry,
    ;
    let ss: i64 = s * s;
    let yy: i64 = ry * ry;
    let xx: i64 = rx * rx;
    let dd: i64 = dy * dy;
    assert(0 <= ss * yy <= 16_000_000_000_000) by (nonlinear_arith)
        requires
            0 <= ss <= 16_000_000,
            0 <= yy <= 1_000_000,
    ;
    assert(0 <= (4 * xx) * (yy - dd) <= 4_000_000_000_000) by (nonlinear_arith)
        requires
            0 <= xx <= 1_000_000,
            0 <= yy - dd <= 1_000_000,
    ;
    ss * yy <= 4 * xx * (yy - dd)
}

/// How far a row of a disc reaches to either side.
fn reach(dy: i32, rx: i32, ry: i32) -> (r: i32)
    requires
        0 <= rx <= RADIUS_MAX,
        0 < ry <= RADIUS_MAX,
        -ry <= dy <= ry,
    ensures
        0 <= r <= rx + 1,
        forall|d: int|
            0 <= d ==> #[trigger] in_disc(d, dy as int, rx as int, ry as int) == (d <= r),
{
    let mut n: i32 = 0;
    assert(in_disc(0, dy as int, rx as int, ry as int));
    while n <= rx && reaches(n as i64 + 1, dy as i64, rx as i64, ry as i64)
        invariant
            0 <= n <= rx + 1,
            0 <= rx <= 1000,
            0 < ry <= 1000,
            -ry <= dy <= ry,
            in_disc(n as int, dy as int, rx as int, ry as int),
        decreases rx + 1 - n,
    {
        n = n + 1;
    }
    proof {
        if n == rx + 1 {
            // Past the radius no pixel is within the disc.
            let d = rx + 1;
            assert((2 * d - 1) * (2 * d - 1) * (ry * ry) > 4 * (rx * rx) * (ry * ry - dy * dy))
                by (nonlinear_arith)
                requires
                    d == rx + 1,
                    rx >= 0,
                    ry > 0,
            ;
        }
        assert forall|d: int| 0 <= d implies #[trigger] in_disc(
            d,
            dy as int,
            rx as int,
            ry as int,
        ) == (d <= n) by {
            if d <= n {
                lemma_in_disc_shrinks(d, n as int, dy as int, rx as int, ry as int);
            } else if in_disc(d, dy as int, rx as int, ry as int) {
                lemma_in_disc_shrinks(n + 1, d, dy as int, rx as int, ry as int);
            }
        }
    }
    n
}

/// Fills a disc; what lies outside of the picture is passed over.
pub fn fill_disc(b: &mut Vec<u32>, x: i32, y: i32, rx: i32, ry: i32, c: u32)
    requires
        old(b)@.len() == PIXELS,
        0 <= rx <= RADIUS_MAX,
        0 < ry <= RADIUS_MAX,
        -100_000 <= x <= 100_000,
        -100_000 <= y <= 100_000,
    ensures
        final(b)@ == with_disc(old(b)@, x as int, y as int, rx as int, ry as int, c),
        final(b)@.len() == PIXELS,
{
    let ghost before = b@;
    let mut j: i32 = -ry;
    while j <= ry
        invariant
            -ry <= j <= ry + 1,
            0 <= rx <= 1000,
            0 < ry <= 1000,
            -100_000 <= x <= 100_000,
            -100_000 <= y <= 100_000,
            b@.len() == 518_400,
            before.len() == 518_400,
            forall|k: int|
                0 <= k < 518_400 ==> #[trigger] b@[k] == if in_disc(
                    k % 960 - x,
                    k / 960 - y,
                    rx as int,
                    ry as int,
                ) && k / 960 - y < j {
                    c
                } else {
                    before[k]
                },
        decreases ry + 1 - j,
    {
        let ghost earlier = b@;
        let n: i32 = reach(j, rx, ry);
        rect(b, x - n, y + j, 2 * n + 1, 1, c);
        assert forall|k: int| 0 <= k < 518_400 implies #[trigger] b@[k] == if in_disc(
            k % 960 - x,
            k / 960 - y,
            rx as int,
            ry as int,
        ) && k / 960 - y < j + 1 {
            c
        } else {
            before[k]
        } by {
            let dx = k % 960 - x;
            let d = if dx < 0 {
                -dx
            } else {
                dx
            };
            if k / 960 - y == j {
                assert(in_disc(d, j as int, rx as int, ry as int) == (d <= n));
                assert(in_disc(dx, j as int, rx as int, ry as int) == in_disc(
                    d,
                    j as int,
                    rx as int,
                    ry as int,
                ));
            }
            assert(b@[k] == if x - n <= k % 960 < x - n + (2 * n + 1) && y + j <= k / 960 < y + j + 1 {
                c
            } else {
                earlier[k]
            });
        }
        j = j + 1;
    }
    assert(b@ =~= with_disc(before, x as int, y as int, rx as int, ry as int, c));
}

/// Whether a stroke can be drawn: it is not far off the picture, and its radii
/// are not too large.
pub open spec fn drawable(s: Stroke) -> bool {
    match s {
        Stroke::Rect { .. } => true,
        Stroke::Disc { x, y, rx, ry, paint } => {
            &&& 0 <= rx <= RADIUS_MAX
            &&& 0 < ry <= RADIUS_MAX
            &&& -100_000 <= x <= 100_000
            &&& -100_000 <= y <= 100_000
        },
    }
}

/// The picture with one stroke on it.
pub open spec fn with_stroke(b: Seq<u32>, s: Stroke, c: Colours) -> Seq<u32> {
    match s {
        Stroke::Rect { x, y, w, h, paint } => with_rect(
            b,
            x as int,
            y as int,
            w as int,
            h as int,
            colour_of(paint, c),
        ),
        Stroke::Disc { x, y, rx, ry, paint } => with_disc(
            b,
            x as int,
            y as int,
            rx as int,
            ry as int,
            colour_of(paint, c),
        ),
    }
}

/// The picture with strokes on it, one after the other.
pub open spec fn with_strokes(b: Seq<u32>, s: Seq<Stroke>, c: Colours) -> Seq<u32>
    decreases s.len(),
{
    if s.len() == 0 {
        b
    } else {
        with_stroke(with_strokes(b, s.drop_last(), c), s.last(), c)
    }
}

/// Draws strokes, one after the other.
pub fn draw(b: &mut Vec<u32>, strokes: &Vec<Stroke>, colours: &Colours)
    requires
        old(b)@.len() == PIXELS,
        forall|i: int| 0 <= i < strokes@.len() ==> drawable(#[trigger] strokes@[i]),
    ensures
        final(b)@ == with_strokes(old(b)@, strokes@, *colours),
        final(b)@.len() == PIXELS,
{
    let ghost before = b@;
    let mut i: usize = 0;
    assert(strokes@.take(0) =~= Seq::empty());
    while i < strokes.len()
        invariant
            i <= strokes@.len(),
            b@.len() == 518_400,
            forall|i: int| 0 <= i < strokes@.len() ==> drawable(#[trigger] strokes@[i]),
            b@ == with_strokes(before, strokes@.take(i as int), *colours),
        decreases strokes@.len() - i,
    {
        assert(strokes@.take(i + 1).drop_last() =~= strokes@.take(i as int));
        assert(strokes@.take(i + 1).last() == strokes@[i as int]);
        assert(drawable(strokes@[i as int]));
        match strokes[i] {
            Stroke::Rect { x, y, w, h, paint } => {
                rect(b, x, y, w, h, colour(paint, colours));
            },
            Stroke::Disc { x, y, rx, ry, paint } => {
                fill_disc(b, x, y, rx, ry, colour(paint, colours));
            },
        }
        i = i + 1;
    }
    assert(strokes@.take(i as int) =~= strokes@);
}

/// Strokes are drawn one after the other: a later one lies over an earlier one.
pub proof fn law_later_strokes_lie_over(b: Seq<u32>, s: Seq<Stroke>, last: Stroke, c: Colours)
    ensures
        with_strokes(b, Seq::empty(), c) == b,
        with_strokes(b, s.push(last), c) == with_stroke(with_strokes(b, s, c), last, c),
{
    assert(s.push(last).drop_last() =~= s);
}

/// Pictures are put together: the strokes of two, one after the other, are
/// those of the second over the first.
pub proof fn law_pictures_are_put_together(b: Seq<u32>, s: Seq<Stroke>, t: Seq<Stroke>, c: Colours)
    ensures
        with_strokes(b, s + t, c) == with_strokes(with_strokes(b, s, c), t, c),
    decreases t.len(),
{
    if t.len() == 0 {
        assert(s + t =~= s);
    } else {
        law_pictures_are_put_together(b, s, t.drop_last(), c);
        assert((s + t).drop_last() =~= s + t.drop_last());
        assert((s + t).last() == t.last());
    }
}

/// A disc holds its middle, is as wide to the left as to the right and as high
/// above as below, and nothing beyond its height.
pub proof fn law_discs_are_even(dx: int, dy: int, rx: int, ry: int)
    ensures
        in_disc(dx, dy, rx, ry) == in_disc(-dx, dy, rx, ry),
        in_disc(dx, dy, rx, ry) == in_disc(dx, -dy, rx, ry),
        -ry <= dy <= ry ==> in_disc(0, dy, rx, ry),
        !(-ry <= dy <= ry) ==> !in_disc(dx, dy, rx, ry),
{
    assert(dy * dy == (-dy) * (-dy)) by (nonlinear_arith);
}

/// A disc fills the pixels within it in its colour and no other.
pub proof fn law_discs_fill_their_pixels(
    b: Seq<u32>,
    x: int,
    y: int,
    rx: int,
    ry: int,
    c: u32,
    u: int,
    v: int,
)
    requires
        b.len() == 518_400,
        0 <= u < 960,
        0 <= v < 540,
    ensures
        in_disc(u - x, v - y, rx, ry) ==> with_disc(b, x, y, rx, ry, c)[v * 960 + u] == c,
        !in_disc(u - x, v - y, rx, ry) ==> with_disc(b, x, y, rx, ry, c)[v * 960 + u] == b[v * 960
            + u],
{
    assert((v * 960 + u) / 960 == v && (v * 960 + u) % 960 == u);
}

/// A fixed colour is the same at every hour.
pub proof fn law_fixed_colours_stay(v: u32, c: Colours)
    ensures
        colour_of(Paint::Fixed(v), c) == v,
{
}

} // verus!
