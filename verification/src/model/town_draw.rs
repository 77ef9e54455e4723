//! Drawing on the picture of the town: pixels, rectangles and sprites.

use vstd::prelude::*;

use crate::model::town_grid::TOWN_W;
use crate::text::chars_of;

verus! {

/// Number of pixels of the picture.
pub const PIXELS: usize = 518_400;

/// Colour of a sprite's outline, for the letters that have no colour.
pub const OUTLINE: u32 = 0xff1a_1c2c;

/// Whether a pixel lies in the picture.
pub open spec fn visible(x: int, y: int) -> bool {
    0 <= x < 960 && 0 <= y < 540
}

/// The picture with one pixel set, where it lies in the picture.
pub open spec fn with_pixel(b: Seq<u32>, x: int, y: int, c: u32) -> Seq<u32> {
    if visible(x, y) {
        b.update(y * 960 + x, c)
    } else {
        b
    }
}

/// Sets one pixel; one outside of the picture is passed over.
pub fn px(b: &mut Vec<u32>, x: i32, y: i32, c: u32)
    requires
        old(b)@.len() == PIXELS,
    ensures
        final(b)@ == with_pixel(old(b)@, x as int, y as int, c),
        final(b)@.len() == PIXELS,
{
    if x >= 0 && x < 960 && y >= 0 && y < 540 {
        b.set(y as usize * TOWN_W + x as usize, c);
    }
}

/// The picture with a rectangle filled.
pub open spec fn with_rect(b: Seq<u32>, x: int, y: int, w: int, h: int, c: u32) -> Seq<u32> {
    Seq::new(
        b.len(),
        |k: int|
            if x <= k % 960 < x + w && y <= k / 960 < y + h {
                c
            } else {
                b[k]
            },
    )
}

/// The place from 0 to `size` that is nearest to `v`.
pub open spec fn within(v: int, size: int) -> int {
    if v < 0 {
        0
    } else if v > size {
        size
    } else {
        v
    }
}

/// The part of a span that lies in a picture's side.
fn span(from: i32, len: i32, size: i64) -> (r: (usize, usize))
    requires
        0 < size <= 960,
    ensures
        r.0 <= size,
        r.1 <= size,
        r.0 == within(from as int, size as int),
        r.1 == within(from + len, size as int),
{
    let a: i64 = from as i64;
    let z: i64 = from as i64 + len as i64;
    let lo: i64 = if a < 0 {
        0
    } else if a > size {
        size
    } else {
        a
    };
    let hi: i64 = if z < 0 {
        0
    } else if z > size {
        size
    } else {
        z
    };
    (lo as usize, hi as usize)
}

/// Fills a rectangle; what lies outside of the picture is passed over.
pub fn rect(b: &mut Vec<u32>, x: i32, y: i32, w: i32, h: i32, c: u32)
    requires
        old(b)@.len() == PIXELS,
    ensures
        final(b)@ == with_rect(old(b)@, x as int, y as int, w as int, h as int, c),
        final(b)@.len() == PIXELS,
{
    let ghost before = b@;
    let (x0, x1) = span(x, w, 960);
    let (y0, y1) = span(y, h, 540);
    let mut j: usize = y0;
    while j < y1
        invariant
            y0 <= j,
            j <= y1 || y1 < y0,
            x0 <= 960,
            x1 <= 960,
            y1 <= 540,
            b@.len() == 518_400,
            before.len() == 518_400,
            forall|k: int|
                0 <= k < 518_400 ==> #[trigger] b@[k] == if x0 <= k % 960 < x1 && y0 <= k / 960
                    < y1 && k / 960 < j {
                    c
                } else {
                    before[k]
                },
        decreases y1 - j,
    {
        let mut i: usize = x0;
        while i < x1
            invariant
                x0 <= i,
                i <= x1 || x1 < x0,
                x1 <= 960,
                y0 <= j < y1,
                y1 <= 540,
                b@.len() == 518_400,
                before.len() == 518_400,
                forall|k: int|
                    0 <= k < 518_400 ==> #[trigger] b@[k] == if x0 <= k % 960 < x1 && y0 <= k
                        / 960 < y1 && (k / 960 < j || (k / 960 == j && k % 960 < i)) {
                        c
                    } else {
                        before[k]
                    },
            decreases x1 - i,
        {
            let ghost earlier = b@;
            let k: usize = j * 960 + i;
            assert(k as int % 960 == i && k as int / 960 == j);
            b.set(k, c);
            i = i + 1;
            assert forall|n: int| 0 <= n < 518_400 implies #[trigger] b@[n] == if x0 <= n % 960
                < x1 && y0 <= n / 960 < y1 && (n / 960 < j || (n / 960 == j && n % 960 < i)) {
                c
            } else {
                before[n]
            } by {
                if n != k {
                    assert(b@[n] == earlier[n]);
                    assert(n == 960 * (n / 960) + n % 960);
                }
            }
        }
        j = j + 1;
    }
    assert forall|k: int| 0 <= k < 518_400 implies #[trigger] b@[k] == with_rect(
        before,
        x as int,
        y as int,
        w as int,
        h as int,
        c,
    )[k] by {
        assert(0 <= k % 960 < 960 && 0 <= k / 960 < 540);
    }
    assert(b@ =~= with_rect(before, x as int, y as int, w as int, h as int, c));
}

/// Colour of a letter: that of its first entry, the outline's where it has none.
pub open spec fn colour_of(colors: Seq<(char, u32)>, ch: char) -> u32
    decreases colors.len(),
{
    if colors.len() == 0 {
        OUTLINE
    } else if colors[0].0 == ch {
        colors[0].1
    } else {
        colour_of(colors.skip(1), ch)
    }
}

fn colour(colors: &Vec<(char, u32)>, ch: char) -> (r: u32)
    ensures
        r == colour_of(colors@, ch),
{
    let mut i: usize = 0;
    assert(colors@.skip(0) =~= colors@);
    while i < colors.len()
        invariant
            i <= colors@.len(),
            colour_of(colors@.skip(i as int), ch) == colour_of(colors@, ch),
        decreases colors@.len() - i,
    {
        if colors[i].0 == ch {
            return colors[i].1;
        }
        assert(colors@.skip(i as int).skip(1) =~= colors@.skip(i + 1));
        i = i + 1;
    }
    OUTLINE
}

/// Letters of a sprite that leave the picture as it is.
pub open spec fn clear(ch: char) -> bool {
    ch == '.' || ch == ' '
}

/// Whether a text holds ASCII characters alone.
pub open spec fn ascii(s: Seq<char>) -> bool {
    forall|i: int| 0 <= i < s.len() ==> (#[trigger] s[i] as int) < 128
}

/// Column at which a letter of a row is drawn.
pub open spec fn column(x: int, w: int, i: int, flip: bool) -> int {
    if flip {
        x + (w - 1 - i)
    } else {
        x + i
    }
}

/// The picture after the first `i` letters of a row.
pub open spec fn with_letters(
    b: Seq<u32>,
    row: Seq<char>,
    i: nat,
    w: int,
    x: int,
    y: int,
    colors: Seq<(char, u32)>,
    flip: bool,
) -> Seq<u32>
    decreases i,
{
    if i == 0 {
        b
    } else {
        let before = with_letters(b, row, (i - 1) as nat, w, x, y, colors, flip);
        let ch = row[i - 1];
        if clear(ch) {
            before
        } else {
            with_pixel(before, column(x, w, i - 1, flip), y, colour_of(colors, ch))
        }
    }
}

/// Width of a sprite: that of its first row.
pub open spec fn sprite_width(rows: Seq<&str>) -> int {
    if rows.len() == 0 {
        0
    } else {
        rows[0]@.len() as int
    }
}

/// The picture after the first `j` rows of a sprite.
pub open spec fn with_rows(
    b: Seq<u32>,
    rows: Seq<&str>,
    j: nat,
    x: int,
    y: int,
    colors: Seq<(char, u32)>,
    flip: bool,
) -> Seq<u32>
    decreases j,
{
    if j == 0 {
        b
    } else {
        with_letters(
            with_rows(b, rows, (j - 1) as nat, x, y, colors, flip),
            rows[j - 1]@,
            rows[j - 1]@.len(),
            sprite_width(rows),
            x,
            y + (j - 1),
            colors,
            flip,
        )
    }
}

/// Whether the coordinates of `n` pixels from `x` on are numbers of 32 bits.
pub open spec fn fits(x: int, n: int) -> bool {
    n <= i32::MAX && x + n - 1 <= i32::MAX
}

/// Draws a sprite: each letter is a pixel in the colour of that letter, blanks
/// and dots are clear. Its rows are of ASCII letters. A flipped sprite is
/// mirrored in the width of its first row, which no row may exceed.
pub fn spr(b: &mut Vec<u32>, rows: &Vec<&str>, x: i32, y: i32, colors: &Vec<(char, u32)>, flip: bool)
    requires
        old(b)@.len() == PIXELS,
        fits(y as int, rows@.len() as int),
        forall|j: int|
            0 <= j < rows@.len() ==> fits(x as int, (#[trigger] rows@[j])@.len() as int),
        forall|j: int| 0 <= j < rows@.len() ==> ascii((#[trigger] rows@[j])@),
        flip ==> forall|j: int|
            0 <= j < rows@.len() ==> (#[trigger] rows@[j])@.len() <= sprite_width(rows@),
    ensures
        final(b)@ == with_rows(
            old(b)@,
            rows@,
            rows@.len(),
            x as int,
            y as int,
            colors@,
            flip,
        ),
        final(b)@.len() == PIXELS,
{
    let ghost before = b@;
    let w: usize = if rows.len() == 0 {
        0
    } else {
        chars_of(rows[0]).len()
    };
    let mut j: usize = 0;
    while j < rows.len()
        invariant
            j <= rows@.len(),
            fits(y as int, rows@.len() as int),
            w == sprite_width(rows@),
            rows@.len() > 0 ==> fits(x as int, w as int),
            forall|j: int|
                0 <= j < rows@.len() ==> fits(x as int, (#[trigger] rows@[j])@.len() as int),
            flip ==> forall|j: int|
                0 <= j < rows@.len() ==> (#[trigger] rows@[j])@.len() <= sprite_width(rows@),
            b@.len() == 518_400,
            b@ == with_rows(before, rows@, j as nat, x as int, y as int, colors@, flip),
        decreases rows@.len() - j,
    {
        let row = chars_of(rows[j]);
        let ghost base = b@;
        let mut i: usize = 0;
        while i < row.len()
            invariant
                i <= row@.len(),
                j < rows@.len(),
                fits(y as int, rows@.len() as int),
                fits(x as int, w as int),
                fits(x as int, row@.len() as int),
                flip ==> row@.len() <= w,
                b@.len() == 518_400,
                b@ == with_letters(
                    base,
                    row@,
                    i as nat,
                    w as int,
                    x as int,
                    y + j,
                    colors@,
                    flip,
                ),
            decreases row@.len() - i,
        {
            let ch = row[i];
            if ch != '.' && ch != ' ' {
                let c: u32 = colour(colors, ch);
                let at: i32 = if flip {
                    x + (w - 1 - i) as i32
                } else {
                    x + i as i32
                };
                px(b, at, y + j as i32, c);
            }
            i = i + 1;
        }
        j = j + 1;
    }
}

/// Value of a hexadecimal digit; 16 for another character.
pub open spec fn hex_digit(c: char) -> int {
    if '0' <= c <= '9' {
        c as int - 48
    } else if 'a' <= c <= 'f' {
        c as int - 87
    } else if 'A' <= c <= 'F' {
        c as int - 55
    } else {
        16
    }
}

/// Value of two characters as a hexadecimal number; a sign may stand first.
pub open spec fn hex_pair(a: char, b: char) -> int {
    if a == '+' {
        hex_digit(b)
    } else {
        hex_digit(a) * 16 + hex_digit(b)
    }
}

/// Whether two characters are a hexadecimal number.
pub open spec fn is_hex_pair(a: char, b: char) -> bool {
    hex_digit(b) < 16 && (a == '+' || hex_digit(a) < 16)
}

/// Whether a text names a colour: one character and three pairs of digits.
pub open spec fn is_colour(s: Seq<char>) -> bool {
    &&& s.len() >= 7
    &&& (s[0] as int) < 128
    &&& is_hex_pair(s[1], s[2])
    &&& is_hex_pair(s[3], s[4])
    &&& is_hex_pair(s[5], s[6])
}

fn hex_value(c: char) -> (r: u8)
    ensures
        r == hex_digit(c),
{
    if '0' <= c && c <= '9' {
        c as u8 - 48
    } else if 'a' <= c && c <= 'f' {
        c as u8 - 87
    } else if 'A' <= c && c <= 'F' {
        c as u8 - 55
    } else {
        16
    }
}

fn pair_value(a: char, b: char) -> (r: u8)
    requires
        is_hex_pair(a, b),
    ensures
        r == hex_pair(a, b),
{
    let lo: u8 = hex_value(b);
    if a == '+' {
        lo
    } else {
        hex_value(a) * 16 + lo
    }
}

/// Red, green and blue of a colour written as `#rrggbb`.
pub fn hex_rgb(hex: &str) -> (r: (u8, u8, u8))
    requires
        is_colour(hex@),
    ensures
        r.0 == hex_pair(hex@[1], hex@[2]),
        r.1 == hex_pair(hex@[3], hex@[4]),
        r.2 == hex_pair(hex@[5], hex@[6]),
{
    let cs = chars_of(hex);
    (pair_value(cs[1], cs[2]), pair_value(cs[3], cs[4]), pair_value(cs[5], cs[6]))
}

/// A pixel that is set has its colour, and every other stays.
pub proof fn law_pixels_are_set_alone(b: Seq<u32>, x: int, y: int, c: u32, u: int, v: int)
    requires
        b.len() == 518_400,
        0 <= u < 960,
        0 <= v < 540,
    ensures
        with_pixel(b, x, y, c).len() == b.len(),
        u == x && v == y ==> with_pixel(b, x, y, c)[v * 960 + u] == c,
        u != x || v != y ==> with_pixel(b, x, y, c)[v * 960 + u] == b[v * 960 + u],
{
    assert((v * 960 + u) / 960 == v && (v * 960 + u) % 960 == u);
    if visible(x, y) {
        assert((y * 960 + x) / 960 == y && (y * 960 + x) % 960 == x);
    }
}

/// A rectangle fills the pixels within its sides and no other.
pub proof fn law_rectangles_fill_their_sides(
    b: Seq<u32>,
    x: int,
    y: int,
    w: int,
    h: int,
    c: u32,
    u: int,
    v: int,
)
    requires
        b.len() == 518_400,
        0 <= u < 960,
        0 <= v < 540,
    ensures
        with_rect(b, x, y, w, h, c).len() == b.len(),
        x <= u < x + w && y <= v < y + h ==> with_rect(b, x, y, w, h, c)[v * 960 + u] == c,
        !(x <= u < x + w && y <= v < y + h) ==> with_rect(b, x, y, w, h, c)[v * 960 + u]
            == b[v * 960 + u],
{
    assert((v * 960 + u) / 960 == v && (v * 960 + u) % 960 == u);
}

/// A letter has the colour of the first entry for it, and that of the outline
/// where there is none.
pub proof fn law_first_entry_gives_the_colour(colors: Seq<(char, u32)>, ch: char, k: int)
    ensures
        0 <= k < colors.len() && colors[k].0 == ch && (forall|i: int|
            0 <= i < k ==> (#[trigger] colors[i]).0 != ch) ==> colour_of(colors, ch)
            == colors[k].1,
        (forall|i: int| 0 <= i < colors.len() ==> (#[trigger] colors[i]).0 != ch) ==> colour_of(
            colors,
            ch,
        ) == 0xff1a_1c2c,
    decreases colors.len(),
{
    if colors.len() > 0 {
        let rest = colors.skip(1);
        law_first_entry_gives_the_colour(rest, ch, k - 1);
        if 0 < k < colors.len() && colors[k].0 == ch && (forall|i: int|
            0 <= i < k ==> (#[trigger] colors[i]).0 != ch) {
            assert(colors[0].0 != ch);
            assert forall|i: int| 0 <= i < k - 1 implies (#[trigger] rest[i]).0 != ch by {
                assert(rest[i] == colors[i + 1]);
            }
            assert(rest[k - 1] == colors[k]);
        }
        if forall|i: int| 0 <= i < colors.len() ==> (#[trigger] colors[i]).0 != ch {
            assert(colors[0].0 != ch);
            assert forall|i: int| 0 <= i < rest.len() implies (#[trigger] rest[i]).0 != ch by {
                assert(rest[i] == colors[i + 1]);
            }
        }
    }
}

/// A flipped sprite has its letters in the columns of a plain one, the first
/// where the last would be.
pub proof fn law_flipped_sprites_are_mirrored(x: int, w: int, i: int)
    ensures
        column(x, w, i, false) == x + i,
        column(x, w, i, true) == column(x, w, w - 1 - i, false),
{
}

proof fn lemma_letters_len(
    b: Seq<u32>,
    row: Seq<char>,
    i: nat,
    w: int,
    x: int,
    y: int,
    colors: Seq<(char, u32)>,
    flip: bool,
)
    requires
        b.len() == 518_400,
    ensures
        with_letters(b, row, i, w, x, y, colors, flip).len() == b.len(),
    decreases i,
{
    if i > 0 {
        lemma_letters_len(b, row, (i - 1) as nat, w, x, y, colors, flip);
    }
}

/// A letter of a row is drawn in its column in its colour; a clear one leaves
/// what was there, and so does a row everywhere else.
pub proof fn law_letters_are_drawn_in_their_columns(
    b: Seq<u32>,
    row: Seq<char>,
    n: nat,
    w: int,
    x: int,
    y: int,
    colors: Seq<(char, u32)>,
    flip: bool,
    u: int,
    v: int,
)
    requires
        b.len() == 518_400,
        n <= row.len(),
        0 <= u < 960,
        0 <= v < 540,
    ensures
        ({
            let i = if flip {
                x + w - 1 - u
            } else {
                u - x
            };
            let new = with_letters(b, row, n, w, x, y, colors, flip)[v * 960 + u];
            if v == y && 0 <= i < n && row[i] != '.' && row[i] != ' ' {
                new == colour_of(colors, row[i])
            } else {
                new == b[v * 960 + u]
            }
        }),
    decreases n,
{
    if n > 0 {
        let m = (n - 1) as nat;
        lemma_letters_len(b, row, m, w, x, y, colors, flip);
        law_letters_are_drawn_in_their_columns(b, row, m, w, x, y, colors, flip, u, v);
        let before = with_letters(b, row, m, w, x, y, colors, flip);
        law_pixels_are_set_alone(
            before,
            column(x, w, n - 1, flip),
            y,
            colour_of(colors, row[n - 1]),
            u,
            v,
        );
    }
}

/// A hexadecimal digit has its value, letters of either case alike; two digits
/// are sixteen times the first and the second.
pub proof fn law_hexadecimal_digits_have_their_value(n: int, a: char, b: char)
    requires
        0 <= n < 16,
    ensures
        n < 10 ==> hex_digit(('0' as int + n) as char) == n,
        n >= 10 ==> hex_digit(('a' as int + n - 10) as char) == n,
        n >= 10 ==> hex_digit(('A' as int + n - 10) as char) == n,
        a != '+' ==> hex_pair(a, b) == 16 * hex_digit(a) + hex_digit(b),
        a == '+' ==> hex_pair(a, b) == hex_digit(b),
        is_hex_pair(a, b) ==> 0 <= hex_pair(a, b) < 256,
{
}

} // verus!
