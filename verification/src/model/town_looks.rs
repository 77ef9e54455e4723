//! How the town and its people are coloured: the paints of a season, the
//! clothes of villagers and agents, the coats of spirits.

use vstd::prelude::*;

use crate::model::agent_town::SeasonKind;
use crate::model::town_draw::is_colour;
use crate::model::town_life::PasserState;
use crate::text::same;

verus! {

/// The paints that a season gives: meadow, light, high, gold, leaf, trunk,
/// berry and petal.
#[derive(Debug, Clone, Copy, PartialEq, Eq)]
pub struct SeasonPaints {
    pub meadow: &'static str,
    pub light: &'static str,
    pub high: &'static str,
    pub gold: &'static str,
    pub leaf: &'static str,
    pub trunk: &'static str,
    pub berry: &'static str,
    pub petal: &'static str,
}

/// The paints of a season.
pub open spec fn paints_of(kind: SeasonKind) -> SeasonPaints {
    match kind {
        SeasonKind::Spring => SeasonPaints {
            meadow: "#48a848",
            light: "#7bc86a",
            high: "#e8c880",
            gold: "#ffd858",
            leaf: "#58b858",
            trunk: "#6b4423",
            berry: "#e85040",
            petal: "#f48fb0",
        },
        SeasonKind::Summer => SeasonPaints {
            meadow: "#3c9c40",
            light: "#78d05e",
            high: "#f0d080",
            gold: "#ffd24a",
            leaf: "#58b858",
            trunk: "#6b4423",
            berry: "#e85040",
            petal: "#f07098",
        },
        SeasonKind::Autumn => SeasonPaints {
            meadow: "#a08040",
            light: "#d0b058",
            high: "#e8c880",
            gold: "#e8a828",
            leaf: "#8a8a4a",
            trunk: "#6e4a1f",
            berry: "#d06040",
            petal: "#e09070",
        },
        SeasonKind::Winter => SeasonPaints {
            meadow: "#78a0a8",
            light: "#d0e0e8",
            high: "#f0e8e0",
            gold: "#f2c94c",
            leaf: "#8ab8c8",
            trunk: "#5d4a35",
            berry: "#b85048",
            petal: "#e0b0c0",
        },
    }
}

/// The paints of a season.
pub fn season_paints(kind: SeasonKind) -> (r: SeasonPaints)
    ensures
        r == paints_of(kind),
{
    match kind {
        SeasonKind::Spring => SeasonPaints {
            meadow: "#48a848",
            light: "#7bc86a",
            high: "#e8c880",
            gold: "#ffd858",
            leaf: "#58b858",
            trunk: "#6b4423",
            berry: "#e85040",
            petal: "#f48fb0",
        },
        SeasonKind::Summer => SeasonPaints {
            meadow: "#3c9c40",
            light: "#78d05e",
            high: "#f0d080",
            gold: "#ffd24a",
            leaf: "#58b858",
            trunk: "#6b4423",
            berry: "#e85040",
            petal: "#f07098",
        },
        SeasonKind::Autumn => SeasonPaints {
            meadow: "#a08040",
            light: "#d0b058",
            high: "#e8c880",
            gold: "#e8a828",
            leaf: "#8a8a4a",
            trunk: "#6e4a1f",
            berry: "#d06040",
            petal: "#e09070",
        },
        SeasonKind::Winter => SeasonPaints {
            meadow: "#78a0a8",
            light: "#d0e0e8",
            high: "#f0e8e0",
            gold: "#f2c94c",
            leaf: "#8ab8c8",
            trunk: "#5d4a35",
            berry: "#b85048",
            petal: "#e0b0c0",
        },
    }
}

/// Colour of a villager's clothes; the last where there are not so many.
pub open spec fn villager_color_named(i: int) -> Seq<char> {
    if i == 0 {
        "#e85d3a"@
    } else if i == 1 {
        "#f4a7b9"@
    } else if i == 2 {
        "#58a858"@
    } else if i == 3 {
        "#5c8af0"@
    } else if i == 4 {
        "#f0c858"@
    } else if i == 5 {
        "#b06ad0"@
    } else if i == 6 {
        "#4ad0b0"@
    } else if i == 7 {
        "#e07050"@
    } else if i == 8 {
        "#70c8e0"@
    } else {
        "#d080c0"@
    }
}

/// Colour of a villager's clothes; the last where there are not so many.
pub fn villager_color(i: usize) -> (r: &'static str)
    ensures
        r@ == villager_color_named(i as int),
{
    match i {
        0 => "#e85d3a",
        1 => "#f4a7b9",
        2 => "#58a858",
        3 => "#5c8af0",
        4 => "#f0c858",
        5 => "#b06ad0",
        6 => "#4ad0b0",
        7 => "#e07050",
        8 => "#70c8e0",
        _ => "#d080c0",
    }
}

/// Colour of a scarf or a hat; the last where there are not so many.
pub open spec fn scarf_color_named(i: int) -> Seq<char> {
    if i == 0 {
        "#e85d3a"@
    } else if i == 1 {
        "#4a8ee8"@
    } else if i == 2 {
        "#58b858"@
    } else if i == 3 {
        "#f0c858"@
    } else if i == 4 {
        "#d06ad0"@
    } else if i == 5 {
        "#e07050"@
    } else if i == 6 {
        "#70c8e0"@
    } else {
        "#d080c0"@
    }
}

/// Colour of a scarf or a hat; the last where there are not so many.
pub fn scarf_color(i: usize) -> (r: &'static str)
    ensures
        r@ == scarf_color_named(i as int),
{
    match i {
        0 => "#e85d3a",
        1 => "#4a8ee8",
        2 => "#58b858",
        3 => "#f0c858",
        4 => "#d06ad0",
        5 => "#e07050",
        6 => "#70c8e0",
        _ => "#d080c0",
    }
}

/// Colour of hair; the last where there are not so many.
pub open spec fn hair_color_named(i: int) -> Seq<char> {
    if i == 0 {
        "#5a3a26"@
    } else if i == 1 {
        "#2a2a3a"@
    } else if i == 2 {
        "#e0a050"@
    } else if i == 3 {
        "#000000"@
    } else {
        "#6a3a50"@
    }
}

/// Colour of hair; the last where there are not so many.
pub fn hair_color(i: usize) -> (r: &'static str)
    ensures
        r@ == hair_color_named(i as int),
{
    match i {
        0 => "#5a3a26",
        1 => "#2a2a3a",
        2 => "#e0a050",
        3 => "#000000",
        _ => "#6a3a50",
    }
}

/// Colour of trousers; the last where there are not so many.
pub open spec fn pants_color_named(i: int) -> Seq<char> {
    if i == 0 {
        "#2f3a4a"@
    } else if i == 1 {
        "#4a3a5a"@
    } else if i == 2 {
        "#3a5a3a"@
    } else if i == 3 {
        "#5a3a3a"@
    } else {
        "#3a3a6a"@
    }
}

/// Colour of trousers; the last where there are not so many.
pub fn pants_color(i: usize) -> (r: &'static str)
    ensures
        r@ == pants_color_named(i as int),
{
    match i {
        0 => "#2f3a4a",
        1 => "#4a3a5a",
        2 => "#3a5a3a",
        3 => "#5a3a3a",
        _ => "#3a3a6a",
    }
}

/// Colour of shoes; the last where there are not so many.
pub open spec fn shoe_color_named(i: int) -> Seq<char> {
    if i == 0 {
        "#20242b"@
    } else if i == 1 {
        "#402020"@
    } else if i == 2 {
        "#204020"@
    } else {
        "#202040"@
    }
}

/// Colour of shoes; the last where there are not so many.
pub fn shoe_color(i: usize) -> (r: &'static str)
    ensures
        r@ == shoe_color_named(i as int),
{
    match i {
        0 => "#20242b",
        1 => "#402020",
        2 => "#204020",
        _ => "#202040",
    }
}

/// The coat of a spirit, by the letters of its picture; any other spirit is a
/// cat.
pub open spec fn coat(name: Seq<char>) -> Seq<(char, u32)> {
    if name == "pokemon1"@ {
        seq![('Y', 0xfff0_d050u32), ('E', 0xff20_242b), ('R', 0xffc0_4040)]
    } else if name == "pokemon2"@ {
        seq![('B', 0xff58_a0e8), ('E', 0xff20_242b)]
    } else if name == "pokemon3"@ {
        seq![('G', 0xff58_c058), ('E', 0xff20_242b)]
    } else if name == "pokemon4"@ {
        seq![('G', 0xff88_c050), ('E', 0xff20_242b)]
    } else if name == "pokemon5"@ {
        seq![('R', 0xffe0_a0a0), ('E', 0xff20_242b)]
    } else if name == "pokemon6"@ {
        seq![('B', 0xff70_a8e0), ('E', 0xff20_242b)]
    } else {
        seq![('O', 0xffd0_8050), ('E', 0xff20_242b)]
    }
}

/// The coat of a spirit.
pub fn spirit_coat(name: &str) -> (r: Vec<(char, u32)>)
    ensures
        r@ == coat(name@),
{
    let mut out: Vec<(char, u32)> = Vec::new();
    if same(name, "pokemon1") {
        out.push(('Y', 0xfff0_d050));
        out.push(('E', 0xff20_242b));
        out.push(('R', 0xffc0_4040));
    } else if same(name, "pokemon2") {
        out.push(('B', 0xff58_a0e8));
        out.push(('E', 0xff20_242b));
    } else if same(name, "pokemon3") {
        out.push(('G', 0xff58_c058));
        out.push(('E', 0xff20_242b));
    } else if same(name, "pokemon4") {
        out.push(('G', 0xff88_c050));
        out.push(('E', 0xff20_242b));
    } else if same(name, "pokemon5") {
        out.push(('R', 0xffe0_a0a0));
        out.push(('E', 0xff20_242b));
    } else if same(name, "pokemon6") {
        out.push(('B', 0xff70_a8e0));
        out.push(('E', 0xff20_242b));
    } else {
        out.push(('O', 0xffd0_8050));
        out.push(('E', 0xff20_242b));
    }
    assert(out@ =~= coat(name@));
    out
}

/// How far a villager's picture is moved down: one who waves hops with the
/// beat, one who chats bends a little.
pub fn villager_lift(state: PasserState, beat: bool) -> (r: i32)
    ensures
        r == if state == PasserState::Wave && beat {
            -2int
        } else if state == PasserState::Chat {
            1
        } else {
            0
        },
{
    if state == PasserState::Wave && beat {
        -2
    } else if state == PasserState::Chat {
        1
    } else {
        0
    }
}

/// Every colour of the town's people and seasons can be read as a colour.
pub proof fn law_colours_can_be_read(i: int, kind: SeasonKind)
    ensures
        is_colour(villager_color_named(i)),
        is_colour(scarf_color_named(i)),
        is_colour(hair_color_named(i)),
        is_colour(pants_color_named(i)),
        is_colour(shoe_color_named(i)),
        is_colour(paints_of(kind).meadow@),
        is_colour(paints_of(kind).light@),
        is_colour(paints_of(kind).high@),
        is_colour(paints_of(kind).gold@),
        is_colour(paints_of(kind).leaf@),
        is_colour(paints_of(kind).trunk@),
        is_colour(paints_of(kind).berry@),
        is_colour(paints_of(kind).petal@),
{
    reveal_strlit("#000000");
    reveal_strlit("#202040");
    reveal_strlit("#20242b");
    reveal_strlit("#204020");
    reveal_strlit("#2a2a3a");
    reveal_strlit("#2f3a4a");
    reveal_strlit("#3a3a6a");
    reveal_strlit("#3a5a3a");
    reveal_strlit("#3c9c40");
    reveal_strlit("#402020");
    reveal_strlit("#48a848");
    reveal_strlit("#4a3a5a");
    reveal_strlit("#4a8ee8");
    reveal_strlit("#4ad0b0");
    reveal_strlit("#58a858");
    reveal_strlit("#58b858");
    reveal_strlit("#5a3a26");
    reveal_strlit("#5a3a3a");
    reveal_strlit("#5c8af0");
    reveal_strlit("#5d4a35");
    reveal_strlit("#6a3a50");
    reveal_strlit("#6b4423");
    reveal_strlit("#6e4a1f");
    reveal_strlit("#70c8e0");
    reveal_strlit("#78a0a8");
    reveal_strlit("#78d05e");
    reveal_strlit("#7bc86a");
    reveal_strlit("#8a8a4a");
    reveal_strlit("#8ab8c8");
    reveal_strlit("#a08040");
    reveal_strlit("#b06ad0");
    reveal_strlit("#b85048");
    reveal_strlit("#d06040");
    reveal_strlit("#d06ad0");
    reveal_strlit("#d080c0");
    reveal_strlit("#d0b058");
    reveal_strlit("#d0e0e8");
    reveal_strlit("#e07050");
    reveal_strlit("#e09070");
    reveal_strlit("#e0a050");
    reveal_strlit("#e0b0c0");
    reveal_strlit("#e85040");
    reveal_strlit("#e85d3a");
    reveal_strlit("#e8a828");
    reveal_strlit("#e8c880");
    reveal_strlit("#f07098");
    reveal_strlit("#f0c858");
    reveal_strlit("#f0d080");
    reveal_strlit("#f0e8e0");
    reveal_strlit("#f2c94c");
    reveal_strlit("#f48fb0");
    reveal_strlit("#f4a7b9");
    reveal_strlit("#ffd24a");
    reveal_strlit("#ffd858");
}

} // verus!
