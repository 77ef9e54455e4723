//! The buildings of the town, stroke by stroke.

use vstd::prelude::*;

use crate::model::town_draw::{rect, with_rect, PIXELS};
use crate::model::town_grid::{BuildingDef, Door};
use crate::model::town_map::{building, BUILDINGS};
use crate::model::town_paint::{
    bar, disc, draw, drawable, with_strokes, Colours, Paint, Stroke,
};
use crate::text::same;

verus! {

/// Whether a building has the size that its strokes are made for.
pub open spec fn sound(b: BuildingDef) -> bool {
    &&& 0 <= b.x <= 2000
    &&& 0 <= b.y <= 2000
    &&& 56 <= b.w <= 200
    &&& 36 <= b.h <= 200
}

/// The column in the middle of a building.
pub open spec fn middle(b: BuildingDef) -> int {
    b.x + b.w / 2
}

/// `a * b / d`, rounded to the nearest number, up from the half.
pub open spec fn rounded(a: int, b: int, d: int) -> int {
    (2 * (a * b) + d) / (2 * d)
}

fn round_of(a: i32, b: i32, d: i32) -> (r: i32)
    requires
        0 <= a <= 2000,
        0 <= b <= 10_000,
        1 <= d <= 10_000,
    ensures
        r == rounded(a as int, b as int, d as int),
        0 <= r <= 20_000_001,
        b <= d ==> r <= a,
        b > 0 && a > 0 && 2 * a >= d ==> r > 0,
{
    assert(0 <= a * b <= 20_000_000) by (nonlinear_arith)
        requires
            0 <= a <= 2000,
            0 <= b <= 10_000,
    ;
    let p: i64 = a as i64 * b as i64;
    let n: i64 = 2 * p + d as i64;
    let m: i64 = 2 * d as i64;
    let r: i64 = n / m;
    assert(0 <= r && m * r <= n && n < m * r + m) by (nonlinear_arith)
        requires
            r == n / m,
            n >= 0,
            m > 0,
    ;
    assert(r <= 20_000_001) by (nonlinear_arith)
        requires
            m * r <= n,
            m == 2 * d,
            n == 2 * p + d,
            0 <= p <= 20_000_000,
            d >= 1,
    ;
    if b <= d {
        assert(r <= a) by (nonlinear_arith)
            requires
                m * r <= n,
                m == 2 * d,
                n == 2 * p + d,
                p == a * b,
                0 <= a,
                0 <= b <= d,
                d >= 1,
        ;
    }
    if b > 0 && a > 0 && 2 * a >= d {
        assert(r > 0) by (nonlinear_arith)
            requires
                n < m * r + m,
                m == 2 * d,
                n == 2 * p + d,
                p == a * b,
                b >= 1,
                2 * a >= d,
                d >= 1,
                r >= 0,
        ;
    }
    r as i32
}

/// The larger of two numbers.
pub open spec fn at_least(a: int, b: int) -> int {
    if a < b {
        b
    } else {
        a
    }
}

fn larger(a: i32, b: i32) -> (r: i32)
    ensures
        r == at_least(a as int, b as int),
{
    if a < b {
        b
    } else {
        a
    }
}

/// How far two numbers are apart.
pub open spec fn distance(a: int, b: int) -> int {
    if a < b {
        b - a
    } else {
        a - b
    }
}

fn apart(a: i32, b: i32) -> (r: i32)
    requires
        0 <= a,
        0 <= b,
    ensures
        r == distance(a as int, b as int),
{
    if a < b {
        b - a
    } else {
        a - b
    }
}

/// How many rows the top of the design tent has.
pub open spec fn tent_height(h: int) -> int {
    if rounded(h, 42, 100) < 18 {
        rounded(h, 42, 100)
    } else {
        18
    }
}

fn tent_height_of(h: i32) -> (r: i32)
    requires
        36 <= h <= 200,
    ensures
        r == tent_height(h as int),
        1 <= r <= 18,
{
    let t: i32 = round_of(h, 42, 100);
    assert(t > 0) by (nonlinear_arith)
        requires
            t == (2 * (h * 42) + 100) / 200,
            h >= 36,
    ;
    if t < 18 {
        t
    } else {
        18
    }
}

/// A row of a building, by how far it reaches to either side.
pub open spec fn row_of(cx: int, half: int, y: int, paint: Paint) -> Stroke {
    bar(cx - half, y, 2 * half, 1, paint)
}

/// Whether each stroke can be drawn.
pub open spec fn all_drawable(s: Seq<Stroke>) -> bool {
    forall|i: int| 0 <= i < s.len() ==> drawable(#[trigger] s[i])
}

pub(crate) fn put_bar(out: &mut Vec<Stroke>, x: i32, y: i32, w: i32, h: i32, paint: Paint)
    requires
        all_drawable(old(out)@),
    ensures
        final(out)@ == old(out)@.push(bar(x as int, y as int, w as int, h as int, paint)),
        all_drawable(final(out)@),
{
    out.push(Stroke::Rect { x, y, w, h, paint });
}

pub(crate) fn put_disc(out: &mut Vec<Stroke>, x: i32, y: i32, rx: i32, ry: i32, paint: Paint)
    requires
        all_drawable(old(out)@),
        0 <= rx <= 1000,
        0 < ry <= 1000,
        0 <= x <= 10_000,
        -1000 <= y <= 10_000,
    ensures
        final(out)@ == old(out)@.push(disc(x as int, y as int, rx as int, ry as int, paint)),
        all_drawable(final(out)@),
{
    out.push(Stroke::Disc { x, y, rx, ry, paint });
}

/// The first `n` rows of a gable of `rh` rows.
pub open spec fn gable(b: BuildingDef, rh: int, n: int) -> Seq<Stroke>
    decreases n,
{
    if n <= 0 {
        Seq::empty()
    } else {
        let i = n - 1;
        gable(b, rh, i) + seq![
            row_of(
                middle(b),
                at_least(rounded(b.w as int, i + 1, 2 * rh), 2),
                b.y + i,
                if i % 2 != 0 {
                    Paint::Roof
                } else {
                    Paint::RoofDark
                },
            ),
        ]
    }
}

fn put_gable(b: &BuildingDef, rh: i32, out: &mut Vec<Stroke>)
    requires
        sound(*b),
        1 <= rh <= 100,
        all_drawable(old(out)@),
    ensures
        final(out)@ == old(out)@ + gable(*b, rh as int, rh as int),
        all_drawable(final(out)@),
{
    let ghost start = out@;
    let cx: i32 = b.x + b.w / 2;
    let mut i: i32 = 0;
    assert(start + gable(*b, rh as int, 0) =~= start);
    while i < rh
        invariant
            0 <= i <= rh,
            1 <= rh <= 100,
            sound(*b),
            cx == b.x + b.w / 2,
            all_drawable(out@),
            out@ == start + gable(*b, rh as int, i as int),
        decreases rh - i,
    {
        let half: i32 = larger(round_of(b.w, i + 1, 2 * rh), 2);
        let paint = if i % 2 != 0 {
            Paint::Roof
        } else {
            Paint::RoofDark
        };
        put_bar(out, cx - half, b.y + i, 2 * half, 1, paint);
        assert(out@ =~= start + gable(*b, rh as int, i + 1));
        i = i + 1;
    }
}

/// The panes of the planning hall. The first `n` of them.
pub open spec fn panes(b: BuildingDef, n: int) -> Seq<Stroke>
    decreases n,
{
    if n <= 0 {
        Seq::empty()
    } else {
        let i = n - 1;
        let x = b.x as int;
        let y = b.y as int;
        let w = b.w as int;
        panes(b, i) + seq![
            bar(x + 12 + rounded(w - 24, i, 7), y + 12 + (i * 5) % 9, 6, 3, Paint::Glass),
        ]
    }
}

fn put_panes(b: &BuildingDef, out: &mut Vec<Stroke>)
    requires
        sound(*b),
        all_drawable(old(out)@),
    ensures
        final(out)@ == old(out)@ + panes(*b, 8),
        all_drawable(final(out)@),
{
    let ghost start = out@;
    let x: i32 = b.x;
    let y: i32 = b.y;
    let w: i32 = b.w;
    let n: i32 = 8;
    let mut i: i32 = 0;
    assert(start + panes(*b, 0) =~= start);
    while i < n
        invariant
            0 <= i <= n,
            sound(*b),
            x == b.x,
            y == b.y,
            w == b.w,
            n == 8,
            all_drawable(out@),
            out@ == start + panes(*b, i as int),
        decreases n - i,
    {
        let ghost before = out@;
        put_bar(out, x + 12 + round_of(w - 24, i, 7), y + 12 + (i * 5) % 9, 6, 3, Paint::Glass);
        assert(out@ =~= start + panes(*b, i + 1));
        i = i + 1;
    }
}

/// The spire of the planning hall. The first `n` of them.
pub open spec fn spire(b: BuildingDef, n: int) -> Seq<Stroke>
    decreases n,
{
    if n <= 0 {
        Seq::empty()
    } else {
        let i = n - 1;
        let y = b.y as int;
        let cx = middle(b);
        spire(b, i) + seq![bar(cx - (4 * i + 4) / 10, y - 6 + i, 2, 1, if i < 4 {
                Paint::Win
            } else {
                Paint::Roof
            })]
    }
}

fn put_spire(b: &BuildingDef, out: &mut Vec<Stroke>)
    requires
        sound(*b),
        all_drawable(old(out)@),
    ensures
        final(out)@ == old(out)@ + spire(*b, 8),
        all_drawable(final(out)@),
{
    let ghost start = out@;
    let y: i32 = b.y;
    let cx: i32 = b.x + b.w / 2;
    let n: i32 = 8;
    let mut i: i32 = 0;
    assert(start + spire(*b, 0) =~= start);
    while i < n
        invariant
            0 <= i <= n,
            sound(*b),
            y == b.y,
            cx == b.x + b.w / 2,
            n == 8,
            all_drawable(out@),
            out@ == start + spire(*b, i as int),
        decreases n - i,
    {
        let ghost before = out@;
        put_bar(out, cx - (4 * i + 4) / 10, y - 6 + i, 2, 1, if i < 4 {
            Paint::Win
        } else {
            Paint::Roof
        });
        assert(out@ =~= start + spire(*b, i + 1));
        i = i + 1;
    }
}

/// The walls of the design tent, from its top down. The first `n` of them.
pub open spec fn tent(b: BuildingDef, n: int) -> Seq<Stroke>
    decreases n,
{
    if n <= 0 {
        Seq::empty()
    } else {
        let i = n - 1;
        let y = b.y as int;
        let w = b.w as int;
        let h = b.h as int;
        let cx = middle(b);
        tent(b, i) + seq![
            row_of(
                cx,
                at_least(rounded(w, h - tent_height(h) - i, 2 * (h - tent_height(h))), 2),
                y + tent_height(h) + i,
                Paint::Wall,
            ),
        ]
    }
}

fn put_tent(b: &BuildingDef, out: &mut Vec<Stroke>)
    requires
        sound(*b),
        all_drawable(old(out)@),
    ensures
        final(out)@ == old(out)@ + tent(*b, (b.h as int) - tent_height((b.h as int))),
        all_drawable(final(out)@),
{
    let ghost start = out@;
    let y: i32 = b.y;
    let w: i32 = b.w;
    let h: i32 = b.h;
    let cx: i32 = b.x + b.w / 2;
    let n: i32 = h - tent_height_of(h);
    let mut i: i32 = 0;
    assert(start + tent(*b, 0) =~= start);
    while i < n
        invariant
            0 <= i <= n,
            sound(*b),
            y == b.y,
            w == b.w,
            h == b.h,
            cx == b.x + b.w / 2,
            n == h - tent_height(h as int),
            all_drawable(out@),
            out@ == start + tent(*b, i as int),
        decreases n - i,
    {
        let ghost before = out@;
        let half: i32 = larger(round_of(w, h - tent_height_of(h) - i, 2 * (h - tent_height_of(h))), 2);
        put_bar(out, cx - half, y + tent_height_of(h) + i, 2 * half, 1, Paint::Wall);
        assert(out@ =~= start + tent(*b, i + 1));
        i = i + 1;
    }
}

/// The tower of priorities. The first `n` of them.
pub open spec fn tower(b: BuildingDef, n: int) -> Seq<Stroke>
    decreases n,
{
    if n <= 0 {
        Seq::empty()
    } else {
        let i = n - 1;
        let y = b.y as int;
        let w = b.w as int;
        let h = b.h as int;
        let cx = middle(b);
        tower(b, i) + seq![
            bar(
                cx - at_least(rounded(w, 11 * h - 4 * i, 20 * h), 3),
                y + i,
                at_least(2 * rounded(w, 11 * h - 4 * i, 20 * h), 6),
                1,
                Paint::Wall,
            ),
        ]
    }
}

fn put_tower(b: &BuildingDef, out: &mut Vec<Stroke>)
    requires
        sound(*b),
        all_drawable(old(out)@),
    ensures
        final(out)@ == old(out)@ + tower(*b, (b.h as int)),
        all_drawable(final(out)@),
{
    let ghost start = out@;
    let y: i32 = b.y;
    let w: i32 = b.w;
    let h: i32 = b.h;
    let cx: i32 = b.x + b.w / 2;
    let n: i32 = h;
    let mut i: i32 = 0;
    assert(start + tower(*b, 0) =~= start);
    while i < n
        invariant
            0 <= i <= n,
            sound(*b),
            y == b.y,
            w == b.w,
            h == b.h,
            cx == b.x + b.w / 2,
            n == h,
            all_drawable(out@),
            out@ == start + tower(*b, i as int),
        decreases n - i,
    {
        let ghost before = out@;
        let half: i32 = round_of(w, 11 * h - 4 * i, 20 * h);
        put_bar(out, cx - larger(half, 3), y + i, larger(2 * half, 6), 1, Paint::Wall);
        assert(out@ =~= start + tower(*b, i + 1));
        i = i + 1;
    }
}

/// The slopes of the split house. The first `n` of them.
pub open spec fn slopes(b: BuildingDef, n: int) -> Seq<Stroke>
    decreases n,
{
    if n <= 0 {
        Seq::empty()
    } else {
        let i = n - 1;
        let x = b.x as int;
        let y = b.y as int;
        let w = b.w as int;
        slopes(b, i) + seq![bar(x + 2 + i, y + 4 + i / 2, 1, 12 - i / 2, if i % 2 != 0 {
                Paint::Roof
            } else {
                Paint::RoofDark
            }), bar(x + w - 3 - i, y + 4 + i / 2, 1, 12 - i / 2, if i % 2 != 0 {
                Paint::RoofDark
            } else {
                Paint::Roof
            })]
    }
}

fn put_slopes(b: &BuildingDef, out: &mut Vec<Stroke>)
    requires
        sound(*b),
        all_drawable(old(out)@),
    ensures
        final(out)@ == old(out)@ + slopes(*b, 12),
        all_drawable(final(out)@),
{
    let ghost start = out@;
    let x: i32 = b.x;
    let y: i32 = b.y;
    let w: i32 = b.w;
    let n: i32 = 12;
    let mut i: i32 = 0;
    assert(start + slopes(*b, 0) =~= start);
    while i < n
        invariant
            0 <= i <= n,
            sound(*b),
            x == b.x,
            y == b.y,
            w == b.w,
            n == 12,
            all_drawable(out@),
            out@ == start + slopes(*b, i as int),
        decreases n - i,
    {
        let ghost before = out@;
        put_bar(out, x + 2 + i, y + 4 + i / 2, 1, 12 - i / 2, if i % 2 != 0 {
            Paint::Roof
        } else {
            Paint::RoofDark
        });
        put_bar(out, x + w - 3 - i, y + 4 + i / 2, 1, 12 - i / 2, if i % 2 != 0 {
            Paint::RoofDark
        } else {
            Paint::Roof
        });
        assert(out@ =~= start + slopes(*b, i + 1));
        i = i + 1;
    }
}

/// The body of the audit lantern. The first `n` of them.
pub open spec fn lantern(b: BuildingDef, n: int) -> Seq<Stroke>
    decreases n,
{
    if n <= 0 {
        Seq::empty()
    } else {
        let i = n - 1;
        let y = b.y as int;
        let w = b.w as int;
        let h = b.h as int;
        let cx = middle(b);
        lantern(b, i) + seq![row_of(cx, 3 + rounded(w - 8, 10 * h - 7 * distance(2 * i, h), 20 * h), y + i, if i % 3 == 0 {
                Paint::RoofDark
            } else {
                Paint::Wall
            })]
    }
}

fn put_lantern(b: &BuildingDef, out: &mut Vec<Stroke>)
    requires
        sound(*b),
        all_drawable(old(out)@),
    ensures
        final(out)@ == old(out)@ + lantern(*b, (b.h as int)),
        all_drawable(final(out)@),
{
    let ghost start = out@;
    let y: i32 = b.y;
    let w: i32 = b.w;
    let h: i32 = b.h;
    let cx: i32 = b.x + b.w / 2;
    let n: i32 = h;
    let mut i: i32 = 0;
    assert(start + lantern(*b, 0) =~= start);
    while i < n
        invariant
            0 <= i <= n,
            sound(*b),
            y == b.y,
            w == b.w,
            h == b.h,
            cx == b.x + b.w / 2,
            n == h,
            all_drawable(out@),
            out@ == start + lantern(*b, i as int),
        decreases n - i,
    {
        let ghost before = out@;
        let half: i32 = 3 + round_of(w - 8, 10 * h - 7 * apart(2 * i, h), 20 * h);
        put_bar(out, cx - half, y + i, 2 * half, 1, if i % 3 == 0 {
            Paint::RoofDark
        } else {
            Paint::Wall
        });
        assert(out@ =~= start + lantern(*b, i + 1));
        i = i + 1;
    }
}

/// The lights of the rest house. The first `n` of them.
pub open spec fn lights(b: BuildingDef, n: int) -> Seq<Stroke>
    decreases n,
{
    if n <= 0 {
        Seq::empty()
    } else {
        let i = n - 1;
        let x = b.x as int;
        let y = b.y as int;
        lights(b, i) + seq![
            bar(x + 2 + 6 * i, y + 1, 1, 1, Paint::Fixed(0xffff_5050)),
            bar(x + 5 + 6 * i, y + 1, 1, 1, Paint::Fixed(0xffff_d858)),
            bar(x + 2 + 6 * i, y + 7, 1, 1, Paint::Fixed(0xffff_d858)),
            bar(x + 5 + 6 * i, y + 7, 1, 1, Paint::Fixed(0xffff_5050)),
        ]
    }
}

fn put_lights(b: &BuildingDef, out: &mut Vec<Stroke>)
    requires
        sound(*b),
        all_drawable(old(out)@),
    ensures
        final(out)@ == old(out)@ + lights(*b, ((b.w as int) - 4 + 5) / 6),
        all_drawable(final(out)@),
{
    let ghost start = out@;
    let x: i32 = b.x;
    let y: i32 = b.y;
    let w: i32 = b.w;
    let n: i32 = (w - 4 + 5) / 6;
    let mut i: i32 = 0;
    assert(start + lights(*b, 0) =~= start);
    while i < n
        invariant
            0 <= i <= n,
            sound(*b),
            x == b.x,
            y == b.y,
            w == b.w,
            n == (w - 4 + 5) / 6,
            all_drawable(out@),
            out@ == start + lights(*b, i as int),
        decreases n - i,
    {
        let ghost before = out@;
        put_bar(out, x + 2 + 6 * i, y + 1, 1, 1, Paint::Fixed(0xffff_5050));
        put_bar(out, x + 5 + 6 * i, y + 1, 1, 1, Paint::Fixed(0xffff_d858));
        put_bar(out, x + 2 + 6 * i, y + 7, 1, 1, Paint::Fixed(0xffff_d858));
        put_bar(out, x + 5 + 6 * i, y + 7, 1, 1, Paint::Fixed(0xffff_5050));
        assert(out@ =~= start + lights(*b, i + 1));
        i = i + 1;
    }
}

/// The roofs of the works. The first `n` of them.
pub open spec fn sheds(b: BuildingDef, n: int) -> Seq<Stroke>
    decreases n,
{
    if n <= 0 {
        Seq::empty()
    } else {
        let i = n - 1;
        let x = b.x as int;
        let y = b.y as int;
        sheds(b, i) + seq![
            bar(x + 2 + 12 * i, y + 2, 10, 3, Paint::Roof),
            bar(x + 7 + 12 * i, y + 2, 5, 1, Paint::RoofDark),
            bar(x + 12 + 12 * i, y + 5, 1, 4, Paint::RoofDark),
            bar(x + 2 + 12 * i, y + 5, 10, 2, Paint::RoofDark),
        ]
    }
}

fn put_sheds(b: &BuildingDef, out: &mut Vec<Stroke>)
    requires
        sound(*b),
        all_drawable(old(out)@),
    ensures
        final(out)@ == old(out)@ + sheds(*b, ((b.w as int) + 11) / 12),
        all_drawable(final(out)@),
{
    let ghost start = out@;
    let x: i32 = b.x;
    let y: i32 = b.y;
    let w: i32 = b.w;
    let n: i32 = (w + 11) / 12;
    let mut i: i32 = 0;
    assert(start + sheds(*b, 0) =~= start);
    while i < n
        invariant
            0 <= i <= n,
            sound(*b),
            x == b.x,
            y == b.y,
            w == b.w,
            n == (w + 11) / 12,
            all_drawable(out@),
            out@ == start + sheds(*b, i as int),
        decreases n - i,
    {
        let ghost before = out@;
        put_bar(out, x + 2 + 12 * i, y + 2, 10, 3, Paint::Roof);
        put_bar(out, x + 7 + 12 * i, y + 2, 5, 1, Paint::RoofDark);
        put_bar(out, x + 12 + 12 * i, y + 5, 1, 4, Paint::RoofDark);
        put_bar(out, x + 2 + 12 * i, y + 5, 10, 2, Paint::RoofDark);
        assert(out@ =~= start + sheds(*b, i + 1));
        i = i + 1;
    }
}

/// The rivets of the works. The first `n` of them.
pub open spec fn rivets(b: BuildingDef, n: int) -> Seq<Stroke>
    decreases n,
{
    if n <= 0 {
        Seq::empty()
    } else {
        let i = n - 1;
        let x = b.x as int;
        let y = b.y as int;
        let h = b.h as int;
        rivets(b, i) + seq![bar(x + 12 + 10 * i, y + h - 9, 2, 2, Paint::Roof)]
    }
}

fn put_rivets(b: &BuildingDef, out: &mut Vec<Stroke>)
    requires
        sound(*b),
        all_drawable(old(out)@),
    ensures
        final(out)@ == old(out)@ + rivets(*b, ((b.w as int) - 20) / 10),
        all_drawable(final(out)@),
{
    let ghost start = out@;
    let x: i32 = b.x;
    let y: i32 = b.y;
    let w: i32 = b.w;
    let h: i32 = b.h;
    let n: i32 = (w - 20) / 10;
    let mut i: i32 = 0;
    assert(start + rivets(*b, 0) =~= start);
    while i < n
        invariant
            0 <= i <= n,
            sound(*b),
            x == b.x,
            y == b.y,
            w == b.w,
            h == b.h,
            n == (w - 20) / 10,
            all_drawable(out@),
            out@ == start + rivets(*b, i as int),
        decreases n - i,
    {
        let ghost before = out@;
        put_bar(out, x + 12 + 10 * i, y + h - 9, 2, 2, Paint::Roof);
        assert(out@ =~= start + rivets(*b, i + 1));
        i = i + 1;
    }
}

/// The ridge of the merge house. The first `n` of them.
pub open spec fn ridge(b: BuildingDef, n: int) -> Seq<Stroke>
    decreases n,
{
    if n <= 0 {
        Seq::empty()
    } else {
        let i = n - 1;
        let x = b.x as int;
        let y = b.y as int;
        let w = b.w as int;
        ridge(b, i) + seq![bar(x + 4 + i, y + 3 + i / 2, w - 8 - 2 * i, 1, if i % 2 != 0 {
                Paint::Roof
            } else {
                Paint::RoofDark
            })]
    }
}

fn put_ridge(b: &BuildingDef, out: &mut Vec<Stroke>)
    requires
        sound(*b),
        all_drawable(old(out)@),
    ensures
        final(out)@ == old(out)@ + ridge(*b, 10),
        all_drawable(final(out)@),
{
    let ghost start = out@;
    let x: i32 = b.x;
    let y: i32 = b.y;
    let w: i32 = b.w;
    let n: i32 = 10;
    let mut i: i32 = 0;
    assert(start + ridge(*b, 0) =~= start);
    while i < n
        invariant
            0 <= i <= n,
            sound(*b),
            x == b.x,
            y == b.y,
            w == b.w,
            n == 10,
            all_drawable(out@),
            out@ == start + ridge(*b, i as int),
        decreases n - i,
    {
        let ghost before = out@;
        put_bar(out, x + 4 + i, y + 3 + i / 2, w - 8 - 2 * i, 1, if i % 2 != 0 {
            Paint::Roof
        } else {
            Paint::RoofDark
        });
        assert(out@ =~= start + ridge(*b, i + 1));
        i = i + 1;
    }
}

/// The posts of the fence. The first `n` of them.
pub open spec fn posts(b: BuildingDef, n: int) -> Seq<Stroke>
    decreases n,
{
    if n <= 0 {
        Seq::empty()
    } else {
        let i = n - 1;
        let x = b.x as int;
        let y = b.y as int;
        let h = b.h as int;
        posts(b, i) + seq![
            bar(x + 2 + 10 * i, y + 2, 3, h - 4, Paint::RoofDark),
            bar(x + 2 + 10 * i, y + 2, 3, 4, Paint::Roof),
        ]
    }
}

fn put_posts(b: &BuildingDef, out: &mut Vec<Stroke>)
    requires
        sound(*b),
        all_drawable(old(out)@),
    ensures
        final(out)@ == old(out)@ + posts(*b, ((b.w as int) - 4 + 9) / 10),
        all_drawable(final(out)@),
{
    let ghost start = out@;
    let x: i32 = b.x;
    let y: i32 = b.y;
    let w: i32 = b.w;
    let h: i32 = b.h;
    let n: i32 = (w - 4 + 9) / 10;
    let mut i: i32 = 0;
    assert(start + posts(*b, 0) =~= start);
    while i < n
        invariant
            0 <= i <= n,
            sound(*b),
            x == b.x,
            y == b.y,
            w == b.w,
            h == b.h,
            n == (w - 4 + 9) / 10,
            all_drawable(out@),
            out@ == start + posts(*b, i as int),
        decreases n - i,
    {
        let ghost before = out@;
        put_bar(out, x + 2 + 10 * i, y + 2, 3, h - 4, Paint::RoofDark);
        put_bar(out, x + 2 + 10 * i, y + 2, 3, 4, Paint::Roof);
        assert(out@ =~= start + posts(*b, i + 1));
        i = i + 1;
    }
}

/// The lamps of the fence. The first `n` of them.
pub open spec fn lamps(b: BuildingDef, n: int) -> Seq<Stroke>
    decreases n,
{
    if n <= 0 {
        Seq::empty()
    } else {
        let i = n - 1;
        let x = b.x as int;
        let y = b.y as int;
        let h = b.h as int;
        lamps(b, i) + seq![
            bar(x + 2 + 6 * i, y + 4, 1, 1, Paint::Fixed(0xffff_5050)),
            bar(x + 4 + 6 * i, y + 4, 1, 1, Paint::Fixed(0xffff_d858)),
            bar(x + 2 + 6 * i, y + h - 6, 1, 1, Paint::Fixed(0xffff_d858)),
            bar(x + 4 + 6 * i, y + h - 6, 1, 1, Paint::Fixed(0xffff_5050)),
        ]
    }
}

fn put_lamps(b: &BuildingDef, out: &mut Vec<Stroke>)
    requires
        sound(*b),
        all_drawable(old(out)@),
    ensures
        final(out)@ == old(out)@ + lamps(*b, ((b.w as int) - 4 + 5) / 6),
        all_drawable(final(out)@),
{
    let ghost start = out@;
    let x: i32 = b.x;
    let y: i32 = b.y;
    let w: i32 = b.w;
    let h: i32 = b.h;
    let n: i32 = (w - 4 + 5) / 6;
    let mut i: i32 = 0;
    assert(start + lamps(*b, 0) =~= start);
    while i < n
        invariant
            0 <= i <= n,
            sound(*b),
            x == b.x,
            y == b.y,
            w == b.w,
            h == b.h,
            n == (w - 4 + 5) / 6,
            all_drawable(out@),
            out@ == start + lamps(*b, i as int),
        decreases n - i,
    {
        let ghost before = out@;
        put_bar(out, x + 2 + 6 * i, y + 4, 1, 1, Paint::Fixed(0xffff_5050));
        put_bar(out, x + 4 + 6 * i, y + 4, 1, 1, Paint::Fixed(0xffff_d858));
        put_bar(out, x + 2 + 6 * i, y + h - 6, 1, 1, Paint::Fixed(0xffff_d858));
        put_bar(out, x + 4 + 6 * i, y + h - 6, 1, 1, Paint::Fixed(0xffff_5050));
        assert(out@ =~= start + lamps(*b, i + 1));
        i = i + 1;
    }
}

/// The strokes of the refinery.
pub open spec fn refining(b: BuildingDef) -> Seq<Stroke> {
    let x = b.x as int;
    let y = b.y as int;
    let w = b.w as int;
    let h = b.h as int;
    seq![
        bar(x + 1, y + 14, w - 2, h - 14, Paint::Wall),
        bar(x - 4, y + 10, 10, h - 10, Paint::Wall),
        bar(x + w - 6, y + 10, 10, h - 10, Paint::Wall),
    ] + gable(b, 12, 12) + seq![
        bar(x + 1, y + 12, w - 2, 3, Paint::RoofDark),
        bar(x + 16, y + 20, 5, h - 22, Paint::Wood),
        bar(x + 30, y + 20, 5, h - 22, Paint::Wood),
        bar(x + w - 21, y + 20, 5, h - 22, Paint::Wood),
        bar(x + 8, y + 24, 8, 6, Paint::Win),
        bar(x + w - 18, y + 24, 8, 6, Paint::Win),
    ]
}

fn put_refining(b: &BuildingDef, out: &mut Vec<Stroke>)
    requires
        sound(*b),
        all_drawable(old(out)@),
    ensures
        final(out)@ == old(out)@ + refining(*b),
        all_drawable(final(out)@),
{
    let ghost start = out@;
    let x: i32 = b.x;
    let y: i32 = b.y;
    let w: i32 = b.w;
    let h: i32 = b.h;
    put_bar(out, x + 1, y + 14, w - 2, h - 14, Paint::Wall);
    put_bar(out, x - 4, y + 10, 10, h - 10, Paint::Wall);
    put_bar(out, x + w - 6, y + 10, 10, h - 10, Paint::Wall);
    put_gable(b, 12, out);
    put_bar(out, x + 1, y + 12, w - 2, 3, Paint::RoofDark);
    put_bar(out, x + 16, y + 20, 5, h - 22, Paint::Wood);
    put_bar(out, x + 30, y + 20, 5, h - 22, Paint::Wood);
    put_bar(out, x + w - 21, y + 20, 5, h - 22, Paint::Wood);
    put_bar(out, x + 8, y + 24, 8, 6, Paint::Win);
    put_bar(out, x + w - 18, y + 24, 8, 6, Paint::Win);
    assert(out@ =~= start + refining(*b));
}

/// The strokes of the planning hall.
pub open spec fn planning(b: BuildingDef) -> Seq<Stroke> {
    let x = b.x as int;
    let y = b.y as int;
    let w = b.w as int;
    let h = b.h as int;
    let cx = middle(b);
    seq![
        disc(cx, y + rounded(h, 58, 100), w / 2 - 3, rounded(h, 42, 100), Paint::Wall),
        bar(x + 2, y + 10, w - 4, h - 10, Paint::Wall),
        bar(cx - 1, y + 2, 2, h - 8, Paint::Dark),
    ] + panes(b, 8) + spire(b, 8) + seq![
        bar(cx - 1, y - 10, 2, 5, Paint::Win),
    ]
}

fn put_planning(b: &BuildingDef, out: &mut Vec<Stroke>)
    requires
        sound(*b),
        all_drawable(old(out)@),
    ensures
        final(out)@ == old(out)@ + planning(*b),
        all_drawable(final(out)@),
{
    let ghost start = out@;
    let x: i32 = b.x;
    let y: i32 = b.y;
    let w: i32 = b.w;
    let h: i32 = b.h;
    let cx: i32 = b.x + b.w / 2;
    put_disc(out, cx, y + round_of(h, 58, 100), w / 2 - 3, round_of(h, 42, 100), Paint::Wall);
    put_bar(out, x + 2, y + 10, w - 4, h - 10, Paint::Wall);
    put_bar(out, cx - 1, y + 2, 2, h - 8, Paint::Dark);
    put_panes(b, out);
    put_spire(b, out);
    put_bar(out, cx - 1, y - 10, 2, 5, Paint::Win);
    assert(out@ =~= start + planning(*b));
}

/// The strokes of the court of plans.
pub open spec fn plan_review(b: BuildingDef) -> Seq<Stroke> {
    let x = b.x as int;
    let y = b.y as int;
    let w = b.w as int;
    let h = b.h as int;
    let cx = middle(b);
    seq![
        bar(x, y + 10, w, h - 10, Paint::Wall),
    ] + gable(b, 10, 10) + seq![
        bar(cx - 1, y + 16, 2, h - 18, Paint::Wood),
        bar(cx - 8, y + 18, 16, 2, Paint::Wood),
        bar(cx - 7, y + 22, 6, 4, Paint::Wood),
        bar(cx + 1, y + 22, 6, 4, Paint::Wood),
        bar(x + 8, y + 26, 8, 6, Paint::Win),
        bar(x + w - 16, y + 26, 8, 6, Paint::Win),
    ]
}

fn put_plan_review(b: &BuildingDef, out: &mut Vec<Stroke>)
    requires
        sound(*b),
        all_drawable(old(out)@),
    ensures
        final(out)@ == old(out)@ + plan_review(*b),
        all_drawable(final(out)@),
{
    let ghost start = out@;
    let x: i32 = b.x;
    let y: i32 = b.y;
    let w: i32 = b.w;
    let h: i32 = b.h;
    let cx: i32 = b.x + b.w / 2;
    put_bar(out, x, y + 10, w, h - 10, Paint::Wall);
    put_gable(b, 10, out);
    put_bar(out, cx - 1, y + 16, 2, h - 18, Paint::Wood);
    put_bar(out, cx - 8, y + 18, 16, 2, Paint::Wood);
    put_bar(out, cx - 7, y + 22, 6, 4, Paint::Wood);
    put_bar(out, cx + 1, y + 22, 6, 4, Paint::Wood);
    put_bar(out, x + 8, y + 26, 8, 6, Paint::Win);
    put_bar(out, x + w - 16, y + 26, 8, 6, Paint::Win);
    assert(out@ =~= start + plan_review(*b));
}

/// The strokes of the design tent.
pub open spec fn design(b: BuildingDef) -> Seq<Stroke> {
    let x = b.x as int;
    let y = b.y as int;
    let w = b.w as int;
    let h = b.h as int;
    gable(b, tent_height(h), tent_height(h)) + tent(b, h - tent_height(h)) + seq![
        bar(x + 6, y + 24, w - 12, 10, Paint::Glass),
        bar(x + 10, y + 28, 1, 1, Paint::Fixed(0xffff_5050)),
        bar(x + 16, y + 28, 1, 1, Paint::Fixed(0xff58_a0e8)),
        bar(x + 22, y + 28, 1, 1, Paint::Fixed(0xff58_d858)),
        bar(x + 28, y + 28, 1, 1, Paint::Fixed(0xffff_d858)),
    ]
}

fn put_design(b: &BuildingDef, out: &mut Vec<Stroke>)
    requires
        sound(*b),
        all_drawable(old(out)@),
    ensures
        final(out)@ == old(out)@ + design(*b),
        all_drawable(final(out)@),
{
    let ghost start = out@;
    let x: i32 = b.x;
    let y: i32 = b.y;
    let w: i32 = b.w;
    let h: i32 = b.h;
    put_gable(b, tent_height_of(h), out);
    put_tent(b, out);
    put_bar(out, x + 6, y + 24, w - 12, 10, Paint::Glass);
    put_bar(out, x + 10, y + 28, 1, 1, Paint::Fixed(0xffff_5050));
    put_bar(out, x + 16, y + 28, 1, 1, Paint::Fixed(0xff58_a0e8));
    put_bar(out, x + 22, y + 28, 1, 1, Paint::Fixed(0xff58_d858));
    put_bar(out, x + 28, y + 28, 1, 1, Paint::Fixed(0xffff_d858));
    assert(out@ =~= start + design(*b));
}

/// The strokes of the house of conventions.
pub open spec fn conventions(b: BuildingDef) -> Seq<Stroke> {
    let x = b.x as int;
    let y = b.y as int;
    let w = b.w as int;
    let h = b.h as int;
    seq![
        bar(x, y + 10, w, h - 10, Paint::Wall),
    ] + gable(b, 9, 9) + seq![
        bar(x + 6, y + 18, 6, h - 22, Paint::Wood),
        bar(x + 6 + (w - 12) / 3, y + 18, 6, h - 22, Paint::Wood),
        bar(x + 6 + 2 * (w - 12) / 3, y + 18, 6, h - 22, Paint::Wood),
        bar(x + 6 + (w - 12), y + 18, 6, h - 22, Paint::Wood),
        bar(x + 8, y + 22, w - 16, 6, Paint::Win),
    ]
}

fn put_conventions(b: &BuildingDef, out: &mut Vec<Stroke>)
    requires
        sound(*b),
        all_drawable(old(out)@),
    ensures
        final(out)@ == old(out)@ + conventions(*b),
        all_drawable(final(out)@),
{
    let ghost start = out@;
    let x: i32 = b.x;
    let y: i32 = b.y;
    let w: i32 = b.w;
    let h: i32 = b.h;
    put_bar(out, x, y + 10, w, h - 10, Paint::Wall);
    put_gable(b, 9, out);
    put_bar(out, x + 6, y + 18, 6, h - 22, Paint::Wood);
    put_bar(out, x + 6 + (w - 12) / 3, y + 18, 6, h - 22, Paint::Wood);
    put_bar(out, x + 6 + 2 * (w - 12) / 3, y + 18, 6, h - 22, Paint::Wood);
    put_bar(out, x + 6 + (w - 12), y + 18, 6, h - 22, Paint::Wood);
    put_bar(out, x + 8, y + 22, w - 16, 6, Paint::Win);
    assert(out@ =~= start + conventions(*b));
}

/// The strokes of the library.
pub open spec fn knowledge(b: BuildingDef) -> Seq<Stroke> {
    let x = b.x as int;
    let y = b.y as int;
    let w = b.w as int;
    let h = b.h as int;
    let cx = middle(b);
    seq![
        bar(x + 4, y + 12, w - 8, h - 12, Paint::Wall),
        disc(cx, y + 8, w / 2 - 2, 7, Paint::Leaf),
        disc(cx - 6, y + 5, 5, 4, Paint::Light),
        disc(cx + 6, y + 5, 5, 4, Paint::Light),
        disc(cx, y + 2, 3, 3, Paint::Roof),
        bar(cx - 4, y + 20, 8, h - 22, Paint::Wood),
        bar(x + 14, y + 24, 8, 6, Paint::Win),
        bar(x + w - 22, y + 24, 8, 6, Paint::Win),
    ]
}

fn put_knowledge(b: &BuildingDef, out: &mut Vec<Stroke>)
    requires
        sound(*b),
        all_drawable(old(out)@),
    ensures
        final(out)@ == old(out)@ + knowledge(*b),
        all_drawable(final(out)@),
{
    let ghost start = out@;
    let x: i32 = b.x;
    let y: i32 = b.y;
    let w: i32 = b.w;
    let h: i32 = b.h;
    let cx: i32 = b.x + b.w / 2;
    put_bar(out, x + 4, y + 12, w - 8, h - 12, Paint::Wall);
    put_disc(out, cx, y + 8, w / 2 - 2, 7, Paint::Leaf);
    put_disc(out, cx - 6, y + 5, 5, 4, Paint::Light);
    put_disc(out, cx + 6, y + 5, 5, 4, Paint::Light);
    put_disc(out, cx, y + 2, 3, 3, Paint::Roof);
    put_bar(out, cx - 4, y + 20, 8, h - 22, Paint::Wood);
    put_bar(out, x + 14, y + 24, 8, 6, Paint::Win);
    put_bar(out, x + w - 22, y + 24, 8, 6, Paint::Win);
    assert(out@ =~= start + knowledge(*b));
}

/// The strokes of the tower of priorities.
pub open spec fn priority(b: BuildingDef) -> Seq<Stroke> {
    let x = b.x as int;
    let y = b.y as int;
    let w = b.w as int;
    let h = b.h as int;
    let cx = middle(b);
    tower(b, h) + seq![
        bar(cx - 1, y + 4, 2, 14, Paint::Dark),
        bar(cx - 1, y + 4, 14, 6, Paint::Roof),
        bar(cx + 13, y + 6, 1, 1, Paint::RoofDark),
        bar(x + 10, y + 24, 8, 6, Paint::Win),
        bar(x + w - 18, y + 24, 8, 6, Paint::Win),
    ]
}

fn put_priority(b: &BuildingDef, out: &mut Vec<Stroke>)
    requires
        sound(*b),
        all_drawable(old(out)@),
    ensures
        final(out)@ == old(out)@ + priority(*b),
        all_drawable(final(out)@),
{
    let ghost start = out@;
    let x: i32 = b.x;
    let y: i32 = b.y;
    let w: i32 = b.w;
    let cx: i32 = b.x + b.w / 2;
    put_tower(b, out);
    put_bar(out, cx - 1, y + 4, 2, 14, Paint::Dark);
    put_bar(out, cx - 1, y + 4, 14, 6, Paint::Roof);
    put_bar(out, cx + 13, y + 6, 1, 1, Paint::RoofDark);
    put_bar(out, x + 10, y + 24, 8, 6, Paint::Win);
    put_bar(out, x + w - 18, y + 24, 8, 6, Paint::Win);
    assert(out@ =~= start + priority(*b));
}

/// The strokes of the manager's dome.
pub open spec fn pm(b: BuildingDef) -> Seq<Stroke> {
    let x = b.x as int;
    let y = b.y as int;
    let w = b.w as int;
    let h = b.h as int;
    let cx = middle(b);
    seq![
        bar(x + 2, y + 14, w - 4, h - 14, Paint::Wall),
        disc(cx, y + 12, w / 2 - 2, 12, Paint::Roof),
        disc(cx, y + 12, w / 2 - 5, 7, Paint::RoofDark),
        bar(cx - 2, y - 2, 4, 2, Paint::RoofDark),
        bar(x + 8, y + 24, 8, 6, Paint::Win),
        bar(x + w - 16, y + 24, 8, 6, Paint::Win),
    ]
}

fn put_pm(b: &BuildingDef, out: &mut Vec<Stroke>)
    requires
        sound(*b),
        all_drawable(old(out)@),
    ensures
        final(out)@ == old(out)@ + pm(*b),
        all_drawable(final(out)@),
{
    let ghost start = out@;
    let x: i32 = b.x;
    let y: i32 = b.y;
    let w: i32 = b.w;
    let h: i32 = b.h;
    let cx: i32 = b.x + b.w / 2;
    put_bar(out, x + 2, y + 14, w - 4, h - 14, Paint::Wall);
    put_disc(out, cx, y + 12, w / 2 - 2, 12, Paint::Roof);
    put_disc(out, cx, y + 12, w / 2 - 5, 7, Paint::RoofDark);
    put_bar(out, cx - 2, y - 2, 4, 2, Paint::RoofDark);
    put_bar(out, x + 8, y + 24, 8, 6, Paint::Win);
    put_bar(out, x + w - 16, y + 24, 8, 6, Paint::Win);
    assert(out@ =~= start + pm(*b));
}

/// The strokes of the split house.
pub open spec fn split(b: BuildingDef) -> Seq<Stroke> {
    let x = b.x as int;
    let y = b.y as int;
    let w = b.w as int;
    let h = b.h as int;
    seq![
        bar(x + 2, y + 14, w - 4, h - 14, Paint::Wall),
    ] + slopes(b, 12) + seq![
        bar(x + 8, y + 22, 8, 6, Paint::Win),
        bar(x + w - 16, y + 22, 8, 6, Paint::Win),
    ]
}

fn put_split(b: &BuildingDef, out: &mut Vec<Stroke>)
    requires
        sound(*b),
        all_drawable(old(out)@),
    ensures
        final(out)@ == old(out)@ + split(*b),
        all_drawable(final(out)@),
{
    let ghost start = out@;
    let x: i32 = b.x;
    let y: i32 = b.y;
    let w: i32 = b.w;
    let h: i32 = b.h;
    put_bar(out, x + 2, y + 14, w - 4, h - 14, Paint::Wall);
    put_slopes(b, out);
    put_bar(out, x + 8, y + 22, 8, 6, Paint::Win);
    put_bar(out, x + w - 16, y + 22, 8, 6, Paint::Win);
    assert(out@ =~= start + split(*b));
}

/// The strokes of the archive.
pub open spec fn closed(b: BuildingDef) -> Seq<Stroke> {
    let x = b.x as int;
    let y = b.y as int;
    let w = b.w as int;
    let h = b.h as int;
    let cx = middle(b);
    seq![
        bar(x + 2, y + 12, w - 4, h - 12, Paint::Wall),
        disc(cx, y + 28, w / 2 - 8, 20, Paint::Dark),
        disc(cx, y + 28, w / 2 - 12, 17, Paint::Roof),
        disc(cx, y + 28, rounded(w / 2 - 12, 10, 32), 5, Paint::Wood),
        disc(cx, y + 28, rounded(w / 2 - 12, 20, 32), 10, Paint::Bark),
        disc(cx, y + 28, rounded(w / 2 - 12, 30, 32), 15, Paint::Pith),
    ]
}

fn put_closed(b: &BuildingDef, out: &mut Vec<Stroke>)
    requires
        sound(*b),
        all_drawable(old(out)@),
    ensures
        final(out)@ == old(out)@ + closed(*b),
        all_drawable(final(out)@),
{
    let ghost start = out@;
    let x: i32 = b.x;
    let y: i32 = b.y;
    let w: i32 = b.w;
    let h: i32 = b.h;
    let cx: i32 = b.x + b.w / 2;
    put_bar(out, x + 2, y + 12, w - 4, h - 12, Paint::Wall);
    put_disc(out, cx, y + 28, w / 2 - 8, 20, Paint::Dark);
    put_disc(out, cx, y + 28, w / 2 - 12, 17, Paint::Roof);
    put_disc(out, cx, y + 28, round_of(w / 2 - 12, 10, 32), 5, Paint::Wood);
    put_disc(out, cx, y + 28, round_of(w / 2 - 12, 20, 32), 10, Paint::Bark);
    put_disc(out, cx, y + 28, round_of(w / 2 - 12, 30, 32), 15, Paint::Pith);
    assert(out@ =~= start + closed(*b));
}

/// The strokes of the ready hut.
pub open spec fn ready(b: BuildingDef) -> Seq<Stroke> {
    let x = b.x as int;
    let y = b.y as int;
    let w = b.w as int;
    let h = b.h as int;
    let cx = middle(b);
    seq![
        bar(x + 4, y + 12, w - 8, h - 12, Paint::Wall),
        disc(cx, y + 8, rounded(w, 1, 4), 8, Paint::Roof),
        bar(cx - 1, y - 8, 2, 10, Paint::Dark),
        bar(cx, y - 10, 1, 1, Paint::Fixed(0xffff_e0a0)),
        bar(x + 10, y + 24, 8, 6, Paint::Win),
        bar(x + w - 18, y + 24, 8, 6, Paint::Win),
    ]
}

fn put_ready(b: &BuildingDef, out: &mut Vec<Stroke>)
    requires
        sound(*b),
        all_drawable(old(out)@),
    ensures
        final(out)@ == old(out)@ + ready(*b),
        all_drawable(final(out)@),
{
    let ghost start = out@;
    let x: i32 = b.x;
    let y: i32 = b.y;
    let w: i32 = b.w;
    let h: i32 = b.h;
    let cx: i32 = b.x + b.w / 2;
    put_bar(out, x + 4, y + 12, w - 8, h - 12, Paint::Wall);
    put_disc(out, cx, y + 8, round_of(w, 1, 4), 8, Paint::Roof);
    put_bar(out, cx - 1, y - 8, 2, 10, Paint::Dark);
    put_bar(out, cx, y - 10, 1, 1, Paint::Fixed(0xffff_e0a0));
    put_bar(out, x + 10, y + 24, 8, 6, Paint::Win);
    put_bar(out, x + w - 18, y + 24, 8, 6, Paint::Win);
    assert(out@ =~= start + ready(*b));
}

/// The strokes of the audit lantern.
pub open spec fn audit(b: BuildingDef) -> Seq<Stroke> {
    let y = b.y as int;
    let h = b.h as int;
    let cx = middle(b);
    lantern(b, h) + seq![
        bar(cx - 1, y - 10, 2, 18, Paint::Dark),
        bar(cx, y - 12, 1, 1, Paint::Fixed(0xffff_e0a0)),
        bar(cx - 5, y + 18, 10, 2, Paint::Glass),
        bar(cx - 5, y + 30, 10, 2, Paint::Glass),
        bar(cx - 5, y + 42, 10, 2, Paint::Glass),
        bar(cx - 5, y + 54, 10, 2, Paint::Glass),
    ]
}

fn put_audit(b: &BuildingDef, out: &mut Vec<Stroke>)
    requires
        sound(*b),
        all_drawable(old(out)@),
    ensures
        final(out)@ == old(out)@ + audit(*b),
        all_drawable(final(out)@),
{
    let ghost start = out@;
    let y: i32 = b.y;
    let cx: i32 = b.x + b.w / 2;
    put_lantern(b, out);
    put_bar(out, cx - 1, y - 10, 2, 18, Paint::Dark);
    put_bar(out, cx, y - 12, 1, 1, Paint::Fixed(0xffff_e0a0));
    put_bar(out, cx - 5, y + 18, 10, 2, Paint::Glass);
    put_bar(out, cx - 5, y + 30, 10, 2, Paint::Glass);
    put_bar(out, cx - 5, y + 42, 10, 2, Paint::Glass);
    put_bar(out, cx - 5, y + 54, 10, 2, Paint::Glass);
    assert(out@ =~= start + audit(*b));
}

/// The strokes of the grill house.
pub open spec fn needs_grilling(b: BuildingDef) -> Seq<Stroke> {
    let x = b.x as int;
    let y = b.y as int;
    let w = b.w as int;
    let h = b.h as int;
    let cx = middle(b);
    seq![
        bar(x + 2, y + 14, w - 4, h - 14, Paint::Wall),
        disc(cx, y + 8, w / 2 - 2, 8, Paint::Roof),
        disc(cx, y + 8, w / 2 - 5, 4, Paint::RoofDark),
        bar(x + 6, y + 18, w - 12, 10, Paint::Glass),
        bar(x + 12, y + 22, 1, 1, Paint::Fixed(0xff58_a0e8)),
        bar(x + 20, y + 22, 1, 1, Paint::Fixed(0xffff_d858)),
        bar(x + 28, y + 22, 1, 1, Paint::Fixed(0xffff_5050)),
        bar(x + 14, y + h - 14, w - 28, 4, Paint::Wood),
        bar(x + 10, y + h - 12, 5, 4, Paint::Wood),
        bar(x + w - 15, y + h - 12, 5, 4, Paint::Wood),
    ]
}

fn put_needs_grilling(b: &BuildingDef, out: &mut Vec<Stroke>)
    requires
        sound(*b),
        all_drawable(old(out)@),
    ensures
        final(out)@ == old(out)@ + needs_grilling(*b),
        all_drawable(final(out)@),
{
    let ghost start = out@;
    let x: i32 = b.x;
    let y: i32 = b.y;
    let w: i32 = b.w;
    let h: i32 = b.h;
    let cx: i32 = b.x + b.w / 2;
    put_bar(out, x + 2, y + 14, w - 4, h - 14, Paint::Wall);
    put_disc(out, cx, y + 8, w / 2 - 2, 8, Paint::Roof);
    put_disc(out, cx, y + 8, w / 2 - 5, 4, Paint::RoofDark);
    put_bar(out, x + 6, y + 18, w - 12, 10, Paint::Glass);
    put_bar(out, x + 12, y + 22, 1, 1, Paint::Fixed(0xff58_a0e8));
    put_bar(out, x + 20, y + 22, 1, 1, Paint::Fixed(0xffff_d858));
    put_bar(out, x + 28, y + 22, 1, 1, Paint::Fixed(0xffff_5050));
    put_bar(out, x + 14, y + h - 14, w - 28, 4, Paint::Wood);
    put_bar(out, x + 10, y + h - 12, 5, 4, Paint::Wood);
    put_bar(out, x + w - 15, y + h - 12, 5, 4, Paint::Wood);
    assert(out@ =~= start + needs_grilling(*b));
}

/// The strokes of the rest house.
pub open spec fn idle(b: BuildingDef) -> Seq<Stroke> {
    let x = b.x as int;
    let y = b.y as int;
    let w = b.w as int;
    let h = b.h as int;
    seq![
        bar(x + 2, y + 12, w - 4, h - 12, Paint::Wall),
        bar(x + 2, y + 2, w - 4, 12, Paint::Roof),
    ] + lights(b, (w - 4 + 5) / 6) + seq![
        bar(x + 2, y + 14, w - 4, 2, Paint::RoofDark),
        bar(x + 8, y + 20, 8, 6, Paint::Wood),
        bar(x + 11, y + 18, 1, 1, Paint::Win),
        bar(x + 14, y + h - 14, w - 28, 4, Paint::Wood),
        bar(x + 10, y + h - 12, 4, 3, Paint::Wood),
        bar(x + w - 14, y + h - 12, 4, 3, Paint::Wood),
    ]
}

fn put_idle(b: &BuildingDef, out: &mut Vec<Stroke>)
    requires
        sound(*b),
        all_drawable(old(out)@),
    ensures
        final(out)@ == old(out)@ + idle(*b),
        all_drawable(final(out)@),
{
    let ghost start = out@;
    let x: i32 = b.x;
    let y: i32 = b.y;
    let w: i32 = b.w;
    let h: i32 = b.h;
    put_bar(out, x + 2, y + 12, w - 4, h - 12, Paint::Wall);
    put_bar(out, x + 2, y + 2, w - 4, 12, Paint::Roof);
    put_lights(b, out);
    put_bar(out, x + 2, y + 14, w - 4, 2, Paint::RoofDark);
    put_bar(out, x + 8, y + 20, 8, 6, Paint::Wood);
    put_bar(out, x + 11, y + 18, 1, 1, Paint::Win);
    put_bar(out, x + 14, y + h - 14, w - 28, 4, Paint::Wood);
    put_bar(out, x + 10, y + h - 12, 4, 3, Paint::Wood);
    put_bar(out, x + w - 14, y + h - 12, 4, 3, Paint::Wood);
    assert(out@ =~= start + idle(*b));
}

/// The strokes of the works.
pub open spec fn implementing(b: BuildingDef) -> Seq<Stroke> {
    let x = b.x as int;
    let y = b.y as int;
    let w = b.w as int;
    let h = b.h as int;
    sheds(b, (w + 11) / 12) + seq![
        bar(x + 2, y + 8, w - 4, h - 8, Paint::Wall),
        bar(x + 12, y - 8, 8, 12, Paint::RoofDark),
        bar(x + 13, y - 10, 6, 3, Paint::Roof),
        bar(x + 14, y - 9, 1, 1, Paint::Fixed(0xffdd_dddd)),
        bar(x + 10, y + h - 10, w - 20, 4, Paint::Dark),
    ] + rivets(b, (w - 20) / 10) + seq![
        disc(x + 14, y + 22, 7, 7, Paint::Gold),
        bar(x + 7, y + 22, 1, 1, Paint::Gold),
        bar(x + 21, y + 22, 1, 1, Paint::Gold),
        bar(x + 14, y + 15, 1, 1, Paint::Gold),
        bar(x + 14, y + 29, 1, 1, Paint::Gold),
        bar(x + 9, y + 17, 1, 1, Paint::Gold),
        bar(x + 19, y + 17, 1, 1, Paint::Gold),
        bar(x + 9, y + 27, 1, 1, Paint::Gold),
        bar(x + 19, y + 27, 1, 1, Paint::Gold),
        disc(x + 14, y + 22, 3, 3, Paint::Win),
    ]
}

fn put_implementing(b: &BuildingDef, out: &mut Vec<Stroke>)
    requires
        sound(*b),
        all_drawable(old(out)@),
    ensures
        final(out)@ == old(out)@ + implementing(*b),
        all_drawable(final(out)@),
{
    let ghost start = out@;
    let x: i32 = b.x;
    let y: i32 = b.y;
    let w: i32 = b.w;
    let h: i32 = b.h;
    put_sheds(b, out);
    put_bar(out, x + 2, y + 8, w - 4, h - 8, Paint::Wall);
    put_bar(out, x + 12, y - 8, 8, 12, Paint::RoofDark);
    put_bar(out, x + 13, y - 10, 6, 3, Paint::Roof);
    put_bar(out, x + 14, y - 9, 1, 1, Paint::Fixed(0xffdd_dddd));
    put_bar(out, x + 10, y + h - 10, w - 20, 4, Paint::Dark);
    put_rivets(b, out);
    put_disc(out, x + 14, y + 22, 7, 7, Paint::Gold);
    put_bar(out, x + 7, y + 22, 1, 1, Paint::Gold);
    put_bar(out, x + 21, y + 22, 1, 1, Paint::Gold);
    put_bar(out, x + 14, y + 15, 1, 1, Paint::Gold);
    put_bar(out, x + 14, y + 29, 1, 1, Paint::Gold);
    put_bar(out, x + 9, y + 17, 1, 1, Paint::Gold);
    put_bar(out, x + 19, y + 17, 1, 1, Paint::Gold);
    put_bar(out, x + 9, y + 27, 1, 1, Paint::Gold);
    put_bar(out, x + 19, y + 27, 1, 1, Paint::Gold);
    put_disc(out, x + 14, y + 22, 3, 3, Paint::Win);
    assert(out@ =~= start + implementing(*b));
}

/// The strokes of the review house.
pub open spec fn review(b: BuildingDef) -> Seq<Stroke> {
    let x = b.x as int;
    let y = b.y as int;
    let w = b.w as int;
    let h = b.h as int;
    let cx = middle(b);
    seq![
        bar(x + 2, y + 12, w - 4, h - 12, Paint::Wall),
        disc(cx, y + 28, w / 2 - 16, 18, Paint::Leaf),
        disc(cx, y + 28, w / 2 - 20, 14, Paint::Win),
        disc(cx, y + 28, w / 2 - 24, 10, Paint::Leaf),
        disc(cx, y + 28, 3, 3, Paint::Dark),
        bar(x + 10, y + 24, 8, 6, Paint::Win),
    ]
}

fn put_review(b: &BuildingDef, out: &mut Vec<Stroke>)
    requires
        sound(*b),
        all_drawable(old(out)@),
    ensures
        final(out)@ == old(out)@ + review(*b),
        all_drawable(final(out)@),
{
    let ghost start = out@;
    let x: i32 = b.x;
    let y: i32 = b.y;
    let w: i32 = b.w;
    let h: i32 = b.h;
    let cx: i32 = b.x + b.w / 2;
    put_bar(out, x + 2, y + 12, w - 4, h - 12, Paint::Wall);
    put_disc(out, cx, y + 28, w / 2 - 16, 18, Paint::Leaf);
    put_disc(out, cx, y + 28, w / 2 - 20, 14, Paint::Win);
    put_disc(out, cx, y + 28, w / 2 - 24, 10, Paint::Leaf);
    put_disc(out, cx, y + 28, 3, 3, Paint::Dark);
    put_bar(out, x + 10, y + 24, 8, 6, Paint::Win);
    assert(out@ =~= start + review(*b));
}

/// The strokes of the merge house.
pub open spec fn merge(b: BuildingDef) -> Seq<Stroke> {
    let x = b.x as int;
    let y = b.y as int;
    let w = b.w as int;
    let h = b.h as int;
    let cx = middle(b);
    seq![
        bar(x + 2, y + 12, w - 4, h - 12, Paint::Wall),
    ] + ridge(b, 10) + seq![
        bar(cx - 8, y + 14, 16, 14, Paint::Glass),
        bar(cx - 10, y + 28, 20, 5, Paint::Dark),
        bar(x + 4, y + 20, 10, 4, Paint::Roof),
        bar(x + w - 14, y + 20, 10, 4, Paint::Roof),
    ]
}

fn put_merge(b: &BuildingDef, out: &mut Vec<Stroke>)
    requires
        sound(*b),
        all_drawable(old(out)@),
    ensures
        final(out)@ == old(out)@ + merge(*b),
        all_drawable(final(out)@),
{
    let ghost start = out@;
    let x: i32 = b.x;
    let y: i32 = b.y;
    let w: i32 = b.w;
    let h: i32 = b.h;
    let cx: i32 = b.x + b.w / 2;
    put_bar(out, x + 2, y + 12, w - 4, h - 12, Paint::Wall);
    put_ridge(b, out);
    put_bar(out, cx - 8, y + 14, 16, 14, Paint::Glass);
    put_bar(out, cx - 10, y + 28, 20, 5, Paint::Dark);
    put_bar(out, x + 4, y + 20, 10, 4, Paint::Roof);
    put_bar(out, x + w - 14, y + 20, 10, 4, Paint::Roof);
    assert(out@ =~= start + merge(*b));
}

/// The strokes of the house of conflicts.
pub open spec fn conflict(b: BuildingDef) -> Seq<Stroke> {
    let x = b.x as int;
    let y = b.y as int;
    let w = b.w as int;
    let h = b.h as int;
    let cx = middle(b);
    seq![
        bar(x + 2, y + 16, w - 4, h - 16, Paint::Wall),
    ] + gable(b, 10, 10) + seq![
        bar(cx, y + 6, 1, 1, Paint::Win),
        bar(cx, y + 10, 1, 1, Paint::Win),
        bar(cx, y + 14, 1, 1, Paint::Win),
        bar(x + 8, y + 26, 8, 6, Paint::Win),
        bar(x + w - 16, y + 26, 8, 6, Paint::Win),
    ]
}

fn put_conflict(b: &BuildingDef, out: &mut Vec<Stroke>)
    requires
        sound(*b),
        all_drawable(old(out)@),
    ensures
        final(out)@ == old(out)@ + conflict(*b),
        all_drawable(final(out)@),
{
    let ghost start = out@;
    let x: i32 = b.x;
    let y: i32 = b.y;
    let w: i32 = b.w;
    let h: i32 = b.h;
    let cx: i32 = b.x + b.w / 2;
    put_bar(out, x + 2, y + 16, w - 4, h - 16, Paint::Wall);
    put_gable(b, 10, out);
    put_bar(out, cx, y + 6, 1, 1, Paint::Win);
    put_bar(out, cx, y + 10, 1, 1, Paint::Win);
    put_bar(out, cx, y + 14, 1, 1, Paint::Win);
    put_bar(out, x + 8, y + 26, 8, 6, Paint::Win);
    put_bar(out, x + w - 16, y + 26, 8, 6, Paint::Win);
    assert(out@ =~= start + conflict(*b));
}

/// The strokes of the arch of the done.
pub open spec fn done(b: BuildingDef) -> Seq<Stroke> {
    let x = b.x as int;
    let y = b.y as int;
    let w = b.w as int;
    let h = b.h as int;
    let cx = middle(b);
    seq![
        bar(x + 2, y + 12, 10, h - 12, Paint::Wall),
        bar(x + w - 12, y + 12, 10, h - 12, Paint::Wall),
        bar(x + 2, y + 12, w - 4, 12, Paint::Roof),
        disc(cx, y + 12, w / 2 - 2, 7, Paint::Roof),
        disc(cx, y + 18, w / 2 - 14, 6, Paint::Wall),
        bar(cx - 7, y + 26, 14, h - 28, Paint::Wall),
    ]
}

fn put_done(b: &BuildingDef, out: &mut Vec<Stroke>)
    requires
        sound(*b),
        all_drawable(old(out)@),
    ensures
        final(out)@ == old(out)@ + done(*b),
        all_drawable(final(out)@),
{
    let ghost start = out@;
    let x: i32 = b.x;
    let y: i32 = b.y;
    let w: i32 = b.w;
    let h: i32 = b.h;
    let cx: i32 = b.x + b.w / 2;
    put_bar(out, x + 2, y + 12, 10, h - 12, Paint::Wall);
    put_bar(out, x + w - 12, y + 12, 10, h - 12, Paint::Wall);
    put_bar(out, x + 2, y + 12, w - 4, 12, Paint::Roof);
    put_disc(out, cx, y + 12, w / 2 - 2, 7, Paint::Roof);
    put_disc(out, cx, y + 18, w / 2 - 14, 6, Paint::Wall);
    put_bar(out, cx - 7, y + 26, 14, h - 28, Paint::Wall);
    assert(out@ =~= start + done(*b));
}

/// The strokes of the workshop.
pub open spec fn working(b: BuildingDef) -> Seq<Stroke> {
    let x = b.x as int;
    let y = b.y as int;
    let w = b.w as int;
    let h = b.h as int;
    let cx = middle(b);
    seq![
        bar(x + 4, y + 12, w - 8, h - 12, Paint::Wall),
        disc(cx, y + 8, rounded(w, 1, 4), 6, Paint::Roof),
        disc(cx, y + 25, rounded(w, 1, 4) - 1, 8, Paint::Gold),
        disc(cx, y + 25, 3, 4, Paint::Wall),
        bar(cx - 7, y + 25, 1, 1, Paint::Gold),
        bar(cx + 7, y + 25, 1, 1, Paint::Gold),
        bar(cx, y + 18, 1, 1, Paint::Gold),
        bar(cx, y + 32, 1, 1, Paint::Gold),
    ]
}

fn put_working(b: &BuildingDef, out: &mut Vec<Stroke>)
    requires
        sound(*b),
        all_drawable(old(out)@),
    ensures
        final(out)@ == old(out)@ + working(*b),
        all_drawable(final(out)@),
{
    let ghost start = out@;
    let x: i32 = b.x;
    let y: i32 = b.y;
    let w: i32 = b.w;
    let h: i32 = b.h;
    let cx: i32 = b.x + b.w / 2;
    put_bar(out, x + 4, y + 12, w - 8, h - 12, Paint::Wall);
    put_disc(out, cx, y + 8, round_of(w, 1, 4), 6, Paint::Roof);
    put_disc(out, cx, y + 25, round_of(w, 1, 4) - 1, 8, Paint::Gold);
    put_disc(out, cx, y + 25, 3, 4, Paint::Wall);
    put_bar(out, cx - 7, y + 25, 1, 1, Paint::Gold);
    put_bar(out, cx + 7, y + 25, 1, 1, Paint::Gold);
    put_bar(out, cx, y + 18, 1, 1, Paint::Gold);
    put_bar(out, cx, y + 32, 1, 1, Paint::Gold);
    assert(out@ =~= start + working(*b));
}

/// The strokes of the fence.
pub open spec fn blocked(b: BuildingDef) -> Seq<Stroke> {
    let x = b.x as int;
    let y = b.y as int;
    let w = b.w as int;
    let h = b.h as int;
    posts(b, (w - 4 + 9) / 10) + seq![
        bar(x + 2, y + 4, w - 4, 2, Paint::RoofDark),
        bar(x + 2, y + h - 6, w - 4, 2, Paint::RoofDark),
    ] + lamps(b, (w - 4 + 5) / 6)
}

fn put_blocked(b: &BuildingDef, out: &mut Vec<Stroke>)
    requires
        sound(*b),
        all_drawable(old(out)@),
    ensures
        final(out)@ == old(out)@ + blocked(*b),
        all_drawable(final(out)@),
{
    let ghost start = out@;
    let x: i32 = b.x;
    let y: i32 = b.y;
    let w: i32 = b.w;
    let h: i32 = b.h;
    put_posts(b, out);
    put_bar(out, x + 2, y + 4, w - 4, 2, Paint::RoofDark);
    put_bar(out, x + 2, y + h - 6, w - 4, 2, Paint::RoofDark);
    put_lamps(b, out);
    assert(out@ =~= start + blocked(*b));
}

/// The strokes of a building that has no look of its own.
pub open spec fn plain_house(b: BuildingDef) -> Seq<Stroke> {
    seq![
        bar(b.x as int, b.y as int, b.w as int, b.h as int, Paint::Wall),
        bar(b.x + 2, b.y + 2, b.w - 4, 12, Paint::Roof),
        bar(b.x + 2, b.y + 14, b.w - 4, 3, Paint::RoofDark),
    ]
}

fn put_plain_house(b: &BuildingDef, out: &mut Vec<Stroke>)
    requires
        sound(*b),
        all_drawable(old(out)@),
    ensures
        final(out)@ == old(out)@ + plain_house(*b),
        all_drawable(final(out)@),
{
    let ghost start = out@;
    put_bar(out, b.x, b.y, b.w, b.h, Paint::Wall);
    put_bar(out, b.x + 2, b.y + 2, b.w - 4, 12, Paint::Roof);
    put_bar(out, b.x + 2, b.y + 14, b.w - 4, 3, Paint::RoofDark);
    assert(out@ =~= start + plain_house(*b));
}

/// The strokes of a building's body, by its key.
pub open spec fn body(b: BuildingDef) -> Seq<Stroke> {
    if b.key@ == "refining"@ {
        refining(b)
    } else if b.key@ == "planning"@ {
        planning(b)
    } else if b.key@ == "plan-review"@ {
        plan_review(b)
    } else if b.key@ == "design"@ {
        design(b)
    } else if b.key@ == "conventions"@ {
        conventions(b)
    } else if b.key@ == "knowledge"@ {
        knowledge(b)
    } else if b.key@ == "priority"@ {
        priority(b)
    } else if b.key@ == "pm"@ {
        pm(b)
    } else if b.key@ == "split"@ {
        split(b)
    } else if b.key@ == "closed"@ {
        closed(b)
    } else if b.key@ == "ready"@ {
        ready(b)
    } else if b.key@ == "audit"@ {
        audit(b)
    } else if b.key@ == "needs-grilling"@ {
        needs_grilling(b)
    } else if b.key@ == "idle"@ {
        idle(b)
    } else if b.key@ == "implementing"@ {
        implementing(b)
    } else if b.key@ == "review"@ {
        review(b)
    } else if b.key@ == "merge"@ {
        merge(b)
    } else if b.key@ == "conflict"@ {
        conflict(b)
    } else if b.key@ == "done"@ {
        done(b)
    } else if b.key@ == "working"@ {
        working(b)
    } else if b.key@ == "blocked"@ {
        blocked(b)
    } else {
        plain_house(b)
    }
}

fn put_body(b: &BuildingDef, out: &mut Vec<Stroke>)
    requires
        sound(*b),
        all_drawable(old(out)@),
    ensures
        final(out)@ == old(out)@ + body(*b),
        all_drawable(final(out)@),
{
    if same(b.key, "refining") {
        put_refining(b, out);
    } else if same(b.key, "planning") {
        put_planning(b, out);
    } else if same(b.key, "plan-review") {
        put_plan_review(b, out);
    } else if same(b.key, "design") {
        put_design(b, out);
    } else if same(b.key, "conventions") {
        put_conventions(b, out);
    } else if same(b.key, "knowledge") {
        put_knowledge(b, out);
    } else if same(b.key, "priority") {
        put_priority(b, out);
    } else if same(b.key, "pm") {
        put_pm(b, out);
    } else if same(b.key, "split") {
        put_split(b, out);
    } else if same(b.key, "closed") {
        put_closed(b, out);
    } else if same(b.key, "ready") {
        put_ready(b, out);
    } else if same(b.key, "audit") {
        put_audit(b, out);
    } else if same(b.key, "needs-grilling") {
        put_needs_grilling(b, out);
    } else if same(b.key, "idle") {
        put_idle(b, out);
    } else if same(b.key, "implementing") {
        put_implementing(b, out);
    } else if same(b.key, "review") {
        put_review(b, out);
    } else if same(b.key, "merge") {
        put_merge(b, out);
    } else if same(b.key, "conflict") {
        put_conflict(b, out);
    } else if same(b.key, "done") {
        put_done(b, out);
    } else if same(b.key, "working") {
        put_working(b, out);
    } else if same(b.key, "blocked") {
        put_blocked(b, out);
    } else {
        put_plain_house(b, out);
    }
}

/// The door of a building.
pub open spec fn doorway(b: BuildingDef) -> Stroke {
    match b.door {
        Door::South => bar(middle(b) - 5, b.y + b.h - 13, 10, 12, Paint::Door),
        Door::North => bar(middle(b) - 5, b.y + 1, 10, 12, Paint::Door),
        Door::East => bar(b.x + b.w - 12, b.y + b.h / 2 - 5, 11, 10, Paint::Door),
        Door::West => bar(b.x + 1, b.y + b.h / 2 - 5, 11, 10, Paint::Door),
    }
}

/// The strokes of a building: its body, then its door. The fence has none.
pub open spec fn strokes_of(b: BuildingDef) -> Seq<Stroke> {
    if b.key@ == "blocked"@ {
        body(b)
    } else {
        body(b).push(doorway(b))
    }
}

/// The strokes of a building.
pub fn building_strokes(b: &BuildingDef) -> (r: Vec<Stroke>)
    requires
        sound(*b),
    ensures
        r@ == strokes_of(*b),
        all_drawable(r@),
{
    let mut out: Vec<Stroke> = Vec::new();
    put_body(b, &mut out);
    assert(out@ =~= body(*b));
    if !same(b.key, "blocked") {
        let cx: i32 = b.x + b.w / 2;
        match b.door {
            Door::South => put_bar(&mut out, cx - 5, b.y + b.h - 13, 10, 12, Paint::Door),
            Door::North => put_bar(&mut out, cx - 5, b.y + 1, 10, 12, Paint::Door),
            Door::East => put_bar(&mut out, b.x + b.w - 12, b.y + b.h / 2 - 5, 11, 10, Paint::Door),
            Door::West => put_bar(&mut out, b.x + 1, b.y + b.h / 2 - 5, 11, 10, Paint::Door),
        }
    }
    out
}

/// Where the shadow of a building falls, and its colour.
#[derive(Debug, Clone, Copy, PartialEq, Eq, Structural)]
pub struct Shade {
    pub x: i32,
    pub y: i32,
    pub colour: u32,
}

/// Draws a building over its shadow.
pub fn draw_building(b: &mut Vec<u32>, bd: &BuildingDef, colours: &Colours, shade: Shade)
    requires
        old(b)@.len() == PIXELS,
        sound(*bd),
    ensures
        final(b)@ == with_strokes(
            with_rect(
                old(b)@,
                shade.x as int,
                shade.y as int,
                bd.w - 6,
                12,
                shade.colour,
            ),
            strokes_of(*bd),
            *colours,
        ),
        final(b)@.len() == PIXELS,
{
    rect(b, shade.x, shade.y, bd.w - 6, 12, shade.colour);
    let strokes = building_strokes(bd);
    draw(b, &strokes, colours);
}

/// Every building of the town has the size that its strokes are made for.
pub proof fn law_buildings_are_sound(i: int)
    requires
        0 <= i < BUILDINGS,
    ensures
        sound(building(i)),
{
}

} // verus!
