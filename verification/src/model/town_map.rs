//! Plan of the town: its buildings, trees and ponds, and the ground that they
//! leave to walk on.

use vstd::prelude::*;

use crate::model::town_draw::is_colour;
use crate::model::town_grid::{Area, BuildingDef, Door, TILES, marked, mark_rect, touches};
use crate::text::same;

verus! {

/// Number of buildings.
pub const BUILDINGS: usize = 21;

/// Number of trees.
pub const TREES: usize = 35;

/// Number of ponds, fields and gardens.
pub const GARDENS: usize = 7;

/// The buildings by number.
pub open spec fn building(i: int) -> BuildingDef {
    if i == 0 {
        BuildingDef {
            key: "refining",
            x: 40,
            y: 62,
            w: 86,
            h: 60,
            roof: "#a78bfa",
            wall: "#f2edf8",
            door: Door::South,
        }
    } else if i == 1 {
        BuildingDef {
            key: "planning",
            x: 142,
            y: 62,
            w: 84,
            h: 60,
            roof: "#38bdf8",
            wall: "#e8f4fb",
            door: Door::South,
        }
    } else if i == 2 {
        BuildingDef {
            key: "plan-review",
            x: 242,
            y: 62,
            w: 82,
            h: 60,
            roof: "#facc15",
            wall: "#fbf5e2",
            door: Door::South,
        }
    } else if i == 3 {
        BuildingDef {
            key: "design",
            x: 342,
            y: 62,
            w: 80,
            h: 58,
            roof: "#c084fc",
            wall: "#f4ecf8",
            door: Door::South,
        }
    } else if i == 4 {
        BuildingDef {
            key: "conventions",
            x: 560,
            y: 62,
            w: 72,
            h: 58,
            roof: "#34d399",
            wall: "#eaf8f0",
            door: Door::South,
        }
    } else if i == 5 {
        BuildingDef {
            key: "knowledge",
            x: 650,
            y: 62,
            w: 82,
            h: 60,
            roof: "#60a5fa",
            wall: "#ecf3fb",
            door: Door::South,
        }
    } else if i == 6 {
        BuildingDef {
            key: "priority",
            x: 760,
            y: 62,
            w: 72,
            h: 58,
            roof: "#f87171",
            wall: "#fcecec",
            door: Door::South,
        }
    } else if i == 7 {
        BuildingDef {
            key: "pm",
            x: 860,
            y: 62,
            w: 70,
            h: 58,
            roof: "#f472b6",
            wall: "#fcedf5",
            door: Door::South,
        }
    } else if i == 8 {
        BuildingDef {
            key: "split",
            x: 580,
            y: 140,
            w: 70,
            h: 56,
            roof: "#14b8a6",
            wall: "#e8faf8",
            door: Door::West,
        }
    } else if i == 9 {
        BuildingDef {
            key: "closed",
            x: 680,
            y: 140,
            w: 70,
            h: 56,
            roof: "#64748b",
            wall: "#eef1f5",
            door: Door::West,
        }
    } else if i == 10 {
        BuildingDef {
            key: "ready",
            x: 640,
            y: 200,
            w: 56,
            h: 36,
            roof: "#94a3b8",
            wall: "#f1f4f8",
            door: Door::South,
        }
    } else if i == 11 {
        BuildingDef {
            key: "audit",
            x: 40,
            y: 300,
            w: 70,
            h: 78,
            roof: "#fb923c",
            wall: "#fdf1e7",
            door: Door::East,
        }
    } else if i == 12 {
        BuildingDef {
            key: "needs-grilling",
            x: 130,
            y: 330,
            w: 82,
            h: 60,
            roof: "#facc15",
            wall: "#fdf6e0",
            door: Door::North,
        }
    } else if i == 13 {
        BuildingDef {
            key: "idle",
            x: 40,
            y: 430,
            w: 90,
            h: 58,
            roof: "#84cc16",
            wall: "#f1faec",
            door: Door::North,
        }
    } else if i == 14 {
        BuildingDef {
            key: "implementing",
            x: 580,
            y: 310,
            w: 120,
            h: 88,
            roof: "#3b82f6",
            wall: "#e8eef7",
            door: Door::West,
        }
    } else if i == 15 {
        BuildingDef {
            key: "review",
            x: 710,
            y: 310,
            w: 84,
            h: 64,
            roof: "#4ade80",
            wall: "#ebfaeb",
            door: Door::West,
        }
    } else if i == 16 {
        BuildingDef {
            key: "merge",
            x: 820,
            y: 310,
            w: 72,
            h: 64,
            roof: "#06b6d4",
            wall: "#e8fafb",
            door: Door::West,
        }
    } else if i == 17 {
        BuildingDef {
            key: "conflict",
            x: 580,
            y: 430,
            w: 92,
            h: 64,
            roof: "#f43f5e",
            wall: "#fdecef",
            door: Door::North,
        }
    } else if i == 18 {
        BuildingDef {
            key: "done",
            x: 700,
            y: 430,
            w: 70,
            h: 44,
            roof: "#84cc16",
            wall: "#f1faec",
            door: Door::South,
        }
    } else if i == 19 {
        BuildingDef {
            key: "working",
            x: 810,
            y: 430,
            w: 56,
            h: 42,
            roof: "#94a3b8",
            wall: "#f1f4f8",
            door: Door::South,
        }
    } else {
        BuildingDef {
            key: "blocked",
            x: 520,
            y: 430,
            w: 56,
            h: 38,
            roof: "#ef4444",
            wall: "#fce9e9",
            door: Door::North,
        }
    }
}

/// The building with a number.
pub fn building_def(i: usize) -> (r: BuildingDef)
    requires
        i < BUILDINGS,
    ensures
        r == building(i as int),
{
    match i {
        0 => BuildingDef {
            key: "refining",
            x: 40,
            y: 62,
            w: 86,
            h: 60,
            roof: "#a78bfa",
            wall: "#f2edf8",
            door: Door::South,
        },
        1 => BuildingDef {
            key: "planning",
            x: 142,
            y: 62,
            w: 84,
            h: 60,
            roof: "#38bdf8",
            wall: "#e8f4fb",
            door: Door::South,
        },
        2 => BuildingDef {
            key: "plan-review",
            x: 242,
            y: 62,
            w: 82,
            h: 60,
            roof: "#facc15",
            wall: "#fbf5e2",
            door: Door::South,
        },
        3 => BuildingDef {
            key: "design",
            x: 342,
            y: 62,
            w: 80,
            h: 58,
            roof: "#c084fc",
            wall: "#f4ecf8",
            door: Door::South,
        },
        4 => BuildingDef {
            key: "conventions",
            x: 560,
            y: 62,
            w: 72,
            h: 58,
            roof: "#34d399",
            wall: "#eaf8f0",
            door: Door::South,
        },
        5 => BuildingDef {
            key: "knowledge",
            x: 650,
            y: 62,
            w: 82,
            h: 60,
            roof: "#60a5fa",
            wall: "#ecf3fb",
            door: Door::South,
        },
        6 => BuildingDef {
            key: "priority",
            x: 760,
            y: 62,
            w: 72,
            h: 58,
            roof: "#f87171",
            wall: "#fcecec",
            door: Door::South,
        },
        7 => BuildingDef {
            key: "pm",
            x: 860,
            y: 62,
            w: 70,
            h: 58,
            roof: "#f472b6",
            wall: "#fcedf5",
            door: Door::South,
        },
        8 => BuildingDef {
            key: "split",
            x: 580,
            y: 140,
            w: 70,
            h: 56,
            roof: "#14b8a6",
            wall: "#e8faf8",
            door: Door::West,
        },
        9 => BuildingDef {
            key: "closed",
            x: 680,
            y: 140,
            w: 70,
            h: 56,
            roof: "#64748b",
            wall: "#eef1f5",
            door: Door::West,
        },
        10 => BuildingDef {
            key: "ready",
            x: 640,
            y: 200,
            w: 56,
            h: 36,
            roof: "#94a3b8",
            wall: "#f1f4f8",
            door: Door::South,
        },
        11 => BuildingDef {
            key: "audit",
            x: 40,
            y: 300,
            w: 70,
            h: 78,
            roof: "#fb923c",
            wall: "#fdf1e7",
            door: Door::East,
        },
        12 => BuildingDef {
            key: "needs-grilling",
            x: 130,
            y: 330,
            w: 82,
            h: 60,
            roof: "#facc15",
            wall: "#fdf6e0",
            door: Door::North,
        },
        13 => BuildingDef {
            key: "idle",
            x: 40,
            y: 430,
            w: 90,
            h: 58,
            roof: "#84cc16",
            wall: "#f1faec",
            door: Door::North,
        },
        14 => BuildingDef {
            key: "implementing",
            x: 580,
            y: 310,
            w: 120,
            h: 88,
            roof: "#3b82f6",
            wall: "#e8eef7",
            door: Door::West,
        },
        15 => BuildingDef {
            key: "review",
            x: 710,
            y: 310,
            w: 84,
            h: 64,
            roof: "#4ade80",
            wall: "#ebfaeb",
            door: Door::West,
        },
        16 => BuildingDef {
            key: "merge",
            x: 820,
            y: 310,
            w: 72,
            h: 64,
            roof: "#06b6d4",
            wall: "#e8fafb",
            door: Door::West,
        },
        17 => BuildingDef {
            key: "conflict",
            x: 580,
            y: 430,
            w: 92,
            h: 64,
            roof: "#f43f5e",
            wall: "#fdecef",
            door: Door::North,
        },
        18 => BuildingDef {
            key: "done",
            x: 700,
            y: 430,
            w: 70,
            h: 44,
            roof: "#84cc16",
            wall: "#f1faec",
            door: Door::South,
        },
        19 => BuildingDef {
            key: "working",
            x: 810,
            y: 430,
            w: 56,
            h: 42,
            roof: "#94a3b8",
            wall: "#f1f4f8",
            door: Door::South,
        },
        _ => BuildingDef {
            key: "blocked",
            x: 520,
            y: 430,
            w: 56,
            h: 38,
            roof: "#ef4444",
            wall: "#fce9e9",
            door: Door::North,
        },
    }
}

/// The trees by number: the pixel at the foot of each.
pub open spec fn tree(i: int) -> (i32, i32) {
    if i == 0 {
        (28i32, 44i32)
    } else if i == 1 {
        (48i32, 36i32)
    } else if i == 2 {
        (66i32, 48i32)
    } else if i == 3 {
        (86i32, 30i32)
    } else if i == 4 {
        (106i32, 44i32)
    } else if i == 5 {
        (180i32, 34i32)
    } else if i == 6 {
        (200i32, 28i32)
    } else if i == 7 {
        (218i32, 44i32)
    } else if i == 8 {
        (300i32, 32i32)
    } else if i == 9 {
        (318i32, 42i32)
    } else if i == 10 {
        (520i32, 30i32)
    } else if i == 11 {
        (540i32, 42i32)
    } else if i == 12 {
        (560i32, 28i32)
    } else if i == 13 {
        (620i32, 34i32)
    } else if i == 14 {
        (642i32, 46i32)
    } else if i == 15 {
        (720i32, 32i32)
    } else if i == 16 {
        (740i32, 40i32)
    } else if i == 17 {
        (18i32, 160i32)
    } else if i == 18 {
        (36i32, 172i32)
    } else if i == 19 {
        (18i32, 220i32)
    } else if i == 20 {
        (38i32, 228i32)
    } else if i == 21 {
        (24i32, 380i32)
    } else if i == 22 {
        (44i32, 392i32)
    } else if i == 23 {
        (838i32, 218i32)
    } else if i == 24 {
        (858i32, 208i32)
    } else if i == 25 {
        (878i32, 226i32)
    } else if i == 26 {
        (898i32, 168i32)
    } else if i == 27 {
        (918i32, 178i32)
    } else if i == 28 {
        (900i32, 470i32)
    } else if i == 29 {
        (918i32, 482i32)
    } else if i == 30 {
        (230i32, 352i32)
    } else if i == 31 {
        (250i32, 344i32)
    } else if i == 32 {
        (268i32, 356i32)
    } else if i == 33 {
        (400i32, 392i32)
    } else {
        (420i32, 384i32)
    }
}

/// The tree with a number.
pub fn tree_spot(i: usize) -> (r: (i32, i32))
    requires
        i < TREES,
    ensures
        r == tree(i as int),
{
    match i {
        0 => (28i32, 44i32),
        1 => (48i32, 36i32),
        2 => (66i32, 48i32),
        3 => (86i32, 30i32),
        4 => (106i32, 44i32),
        5 => (180i32, 34i32),
        6 => (200i32, 28i32),
        7 => (218i32, 44i32),
        8 => (300i32, 32i32),
        9 => (318i32, 42i32),
        10 => (520i32, 30i32),
        11 => (540i32, 42i32),
        12 => (560i32, 28i32),
        13 => (620i32, 34i32),
        14 => (642i32, 46i32),
        15 => (720i32, 32i32),
        16 => (740i32, 40i32),
        17 => (18i32, 160i32),
        18 => (36i32, 172i32),
        19 => (18i32, 220i32),
        20 => (38i32, 228i32),
        21 => (24i32, 380i32),
        22 => (44i32, 392i32),
        23 => (838i32, 218i32),
        24 => (858i32, 208i32),
        25 => (878i32, 226i32),
        26 => (898i32, 168i32),
        27 => (918i32, 178i32),
        28 => (900i32, 470i32),
        29 => (918i32, 482i32),
        30 => (230i32, 352i32),
        31 => (250i32, 344i32),
        32 => (268i32, 356i32),
        33 => (400i32, 392i32),
        _ => (420i32, 384i32),
    }
}

/// The ponds, fields and gardens by number.
pub open spec fn garden(i: int) -> Area {
    if i == 0 {
        Area { x: 160, y: 460, w: 130, h: 52 }
    } else if i == 1 {
        Area { x: 850, y: 8, w: 86, h: 44 }
    } else if i == 2 {
        Area { x: 220, y: 390, w: 120, h: 44 }
    } else if i == 3 {
        Area { x: 300, y: 300, w: 76, h: 40 }
    } else if i == 4 {
        Area { x: 790, y: 150, w: 76, h: 44 }
    } else if i == 5 {
        Area { x: 360, y: 420, w: 90, h: 46 }
    } else {
        Area { x: 460, y: 248, w: 40, h: 40 }
    }
}

/// The pond, field or garden with a number.
pub fn nature_rect(i: usize) -> (r: Area)
    requires
        i < GARDENS,
    ensures
        r == garden(i as int),
{
    match i {
        0 => Area { x: 160, y: 460, w: 130, h: 52 },
        1 => Area { x: 850, y: 8, w: 86, h: 44 },
        2 => Area { x: 220, y: 390, w: 120, h: 44 },
        3 => Area { x: 300, y: 300, w: 76, h: 40 },
        4 => Area { x: 790, y: 150, w: 76, h: 44 },
        5 => Area { x: 360, y: 420, w: 90, h: 46 },
        _ => Area { x: 460, y: 248, w: 40, h: 40 },
    }
}

/// Pixel in front of which a building is entered: the middle of the side with
/// the door, two pixels inside.
pub open spec fn door_of(bd: BuildingDef) -> (int, int) {
    match bd.door {
        Door::South => (bd.x + bd.w / 2, bd.y + bd.h - 2),
        Door::North => (bd.x + bd.w / 2, bd.y + 2),
        Door::East => (bd.x + bd.w - 2, bd.y + bd.h / 2),
        Door::West => (bd.x + 2, bd.y + bd.h / 2),
    }
}

/// Whether a building lies inside the town with room on every side.
pub open spec fn fits(bd: BuildingDef) -> bool {
    &&& 20 <= bd.x && 20 <= bd.y
    &&& 20 <= bd.w && 20 <= bd.h
    &&& bd.x + bd.w <= 940
    &&& bd.y + bd.h <= 520
}

/// Pixel at the door of a building.
pub fn building_door(bd: &BuildingDef) -> (r: (i32, i32))
    requires
        fits(*bd),
    ensures
        (r.0 as int, r.1 as int) == door_of(*bd),
{
    let cx: i32 = bd.x + bd.w / 2;
    let cy: i32 = bd.y + bd.h / 2;
    match bd.door {
        Door::South => (cx, bd.y + bd.h - 2),
        Door::North => (cx, bd.y + 2),
        Door::East => (bd.x + bd.w - 2, cy),
        Door::West => (bd.x + 2, cy),
    }
}

/// Every building lies inside the town with room on every side.
pub proof fn law_buildings_fit(i: int)
    requires
        0 <= i < 21,
    ensures
        fits(building(i)),
{
}

/// Number of the first building from `i` on that stands for a stage; the
/// common workplace where none does.
pub open spec fn station_from(key: Seq<char>, i: int) -> int
    decreases 21 - i,
{
    if i >= 21 {
        19
    } else if building(i).key@ == key {
        i
    } else {
        station_from(key, i + 1)
    }
}

/// Door at which the work of a stage is done; that of the common workplace for
/// a stage without a building.
pub fn station_pos(key: &str) -> (r: (i32, i32))
    ensures
        (r.0 as int, r.1 as int) == door_of(building(station_from(key@, 0))),
{
    let mut i: usize = 0;
    while i < BUILDINGS
        invariant
            i <= 21,
            station_from(key@, 0) == station_from(key@, i as int),
        decreases 21 - i,
    {
        let bd = building_def(i);
        if same(bd.key, key) {
            proof {
                law_buildings_fit(i as int);
            }
            return building_door(&bd);
        }
        i = i + 1;
    }
    proof {
        law_buildings_fit(19);
    }
    building_door(&building_def(19))
}

/// Ground that a building covers, with a margin.
pub open spec fn footprint(bd: BuildingDef) -> Area {
    Area {
        x: (bd.x - 3) as i32,
        y: (bd.y - 3) as i32,
        w: (bd.w + 6) as i32,
        h: (bd.h + 6) as i32,
    }
}

/// Ground in front of the door of a building.
pub open spec fn apron(bd: BuildingDef) -> Area {
    let d = door_of(bd);
    match bd.door {
        Door::South => Area { x: (d.0 - 7) as i32, y: (d.1 + 1) as i32, w: 14, h: 8 },
        Door::North => Area { x: (d.0 - 7) as i32, y: (d.1 - 9) as i32, w: 14, h: 8 },
        Door::East => Area { x: (d.0 + 1) as i32, y: (d.1 - 7) as i32, w: 8, h: 14 },
        Door::West => Area { x: (d.0 - 9) as i32, y: (d.1 - 7) as i32, w: 8, h: 14 },
    }
}

/// The grid after the first `n` buildings: each blocks its footprint and
/// opens the ground in front of its door.
pub open spec fn with_buildings(grid: Seq<u8>, n: nat) -> Seq<u8>
    decreases n,
{
    if n == 0 {
        grid
    } else {
        let bd = building(n - 1);
        marked(marked(with_buildings(grid, (n - 1) as nat), footprint(bd), 0), apron(bd), 1)
    }
}

/// Marks the ground of every building.
pub fn build_station_map(grid: &mut Vec<u8>)
    requires
        old(grid)@.len() == TILES,
    ensures
        final(grid)@ == with_buildings(old(grid)@, 21),
        final(grid)@.len() == TILES,
{
    let ghost before = grid@;
    let mut i: usize = 0;
    while i < BUILDINGS
        invariant
            i <= 21,
            grid@.len() == 3600,
            grid@ == with_buildings(before, i as nat),
        decreases 21 - i,
    {
        let bd = building_def(i);
        proof {
            law_buildings_fit(i as int);
        }
        let base = Area { x: bd.x - 3, y: bd.y - 3, w: bd.w + 6, h: bd.h + 6 };
        mark_rect(grid, base, 0);
        let d: (i32, i32) = building_door(&bd);
        let front = match bd.door {
            Door::South => Area { x: d.0 - 7, y: d.1 + 1, w: 14, h: 8 },
            Door::North => Area { x: d.0 - 7, y: d.1 - 9, w: 14, h: 8 },
            Door::East => Area { x: d.0 + 1, y: d.1 - 7, w: 8, h: 14 },
            Door::West => Area { x: d.0 - 9, y: d.1 - 7, w: 8, h: 14 },
        };
        assert(front == apron(bd));
        mark_rect(grid, front, 1);
        i = i + 1;
    }
}

/// The grid after the first `n` ponds, fields and gardens.
pub open spec fn with_gardens(grid: Seq<u8>, n: nat) -> Seq<u8>
    decreases n,
{
    if n == 0 {
        grid
    } else {
        let a = garden(n - 1);
        marked(
            with_gardens(grid, (n - 1) as nat),
            (Area {
                x: (a.x - 2) as i32,
                y: (a.y - 2) as i32,
                w: (a.w + 4) as i32,
                h: (a.h + 4) as i32,
            }),
            0,
        )
    }
}

/// The grid after the first `n` trees.
pub open spec fn with_trees(grid: Seq<u8>, n: nat) -> Seq<u8>
    decreases n,
{
    if n == 0 {
        grid
    } else {
        let t = tree(n - 1);
        marked(
            with_trees(grid, (n - 1) as nat),
            (Area { x: (t.0 - 9) as i32, y: (t.1 - 6) as i32, w: 18, h: 14 }),
            0,
        )
    }
}

/// Marks the ground of every pond, field, garden and tree.
pub fn build_nature_map(grid: &mut Vec<u8>)
    requires
        old(grid)@.len() == TILES,
    ensures
        final(grid)@ == with_trees(with_gardens(old(grid)@, 7), 35),
        final(grid)@.len() == TILES,
{
    let ghost before = grid@;
    let mut i: usize = 0;
    while i < GARDENS
        invariant
            i <= 7,
            grid@.len() == 3600,
            grid@ == with_gardens(before, i as nat),
        decreases 7 - i,
    {
        let a = nature_rect(i);
        mark_rect(grid, Area { x: a.x - 2, y: a.y - 2, w: a.w + 4, h: a.h + 4 }, 0);
        i = i + 1;
    }
    let ghost middle = grid@;
    let mut j: usize = 0;
    while j < TREES
        invariant
            j <= 35,
            grid@.len() == 3600,
            grid@ == with_trees(middle, j as nat),
        decreases 35 - j,
    {
        let t: (i32, i32) = tree_spot(j);
        mark_rect(grid, Area { x: t.0 - 9, y: t.1 - 6, w: 18, h: 14 }, 0);
        j = j + 1;
    }
}

/// The ground of the town before anything stands on it.
pub open spec fn bare_ground() -> Seq<u8> {
    Seq::new(3600, |i: int| 1u8)
}

/// The ground of the town.
pub fn town_ground() -> (r: Vec<u8>)
    ensures
        r@ == with_trees(with_gardens(with_buildings(bare_ground(), 21), 7), 35),
        r@.len() == TILES,
{
    let mut grid: Vec<u8> = Vec::new();
    let mut i: usize = 0;
    while i < TILES
        invariant
            i <= 3600,
            grid@.len() == i,
            forall|j: int| 0 <= j < i ==> #[trigger] grid@[j] == 1,
        decreases 3600 - i,
    {
        grid.push(1);
        i = i + 1;
    }
    assert(grid@ =~= bare_ground());
    build_station_map(&mut grid);
    build_nature_map(&mut grid);
    grid
}

/// No tree, pond or garden is ever walked on: its tiles are blocked whatever
/// was marked before.
pub proof fn law_nature_is_blocked(grid: Seq<u8>, n: nat, i: int, k: int)
    requires
        grid.len() == 3600,
        0 <= i < n,
        0 <= k < 3600,
        crate::model::town_grid::touches(
            (Area { x: (tree(i).0 - 9) as i32, y: (tree(i).1 - 6) as i32, w: 18, h: 14 }),
            k % 80,
            k / 80,
        ),
    ensures
        with_trees(grid, n).len() == 3600,
        with_trees(grid, n)[k] == 0,
    decreases n,
{
    lemma_trees_len(grid, (n - 1) as nat);
    if i < n - 1 {
        law_nature_is_blocked(grid, (n - 1) as nat, i, k);
    }
}

proof fn lemma_trees_len(grid: Seq<u8>, n: nat)
    ensures
        with_trees(grid, n).len() == grid.len(),
    decreases n,
{
    if n > 0 {
        lemma_trees_len(grid, (n - 1) as nat);
    }
}

/// Roofs and walls have colours that can be read.
pub proof fn law_building_colours_can_be_read(i: int)
    requires
        0 <= i < BUILDINGS,
    ensures
        is_colour(building(i).roof@),
        is_colour(building(i).wall@),
{
    reveal_strlit("#06b6d4");
    reveal_strlit("#14b8a6");
    reveal_strlit("#34d399");
    reveal_strlit("#38bdf8");
    reveal_strlit("#3b82f6");
    reveal_strlit("#4ade80");
    reveal_strlit("#60a5fa");
    reveal_strlit("#64748b");
    reveal_strlit("#84cc16");
    reveal_strlit("#94a3b8");
    reveal_strlit("#a78bfa");
    reveal_strlit("#c084fc");
    reveal_strlit("#e8eef7");
    reveal_strlit("#e8f4fb");
    reveal_strlit("#e8faf8");
    reveal_strlit("#e8fafb");
    reveal_strlit("#eaf8f0");
    reveal_strlit("#ebfaeb");
    reveal_strlit("#ecf3fb");
    reveal_strlit("#eef1f5");
    reveal_strlit("#ef4444");
    reveal_strlit("#f1f4f8");
    reveal_strlit("#f1faec");
    reveal_strlit("#f2edf8");
    reveal_strlit("#f43f5e");
    reveal_strlit("#f472b6");
    reveal_strlit("#f4ecf8");
    reveal_strlit("#f87171");
    reveal_strlit("#facc15");
    reveal_strlit("#fb923c");
    reveal_strlit("#fbf5e2");
    reveal_strlit("#fce9e9");
    reveal_strlit("#fcecec");
    reveal_strlit("#fcedf5");
    reveal_strlit("#fdecef");
    reveal_strlit("#fdf1e7");
    reveal_strlit("#fdf6e0");
}

/// A door is in the middle of its side, just inside of the building.
pub proof fn law_doors_are_on_their_side(bd: BuildingDef)
    requires
        fits(bd),
    ensures
        ({
            let d = door_of(bd);
            &&& bd.x < d.0 < bd.x + bd.w
            &&& bd.y < d.1 < bd.y + bd.h
            &&& bd.door == Door::South ==> d.1 == bd.y + bd.h - 2
            &&& bd.door == Door::North ==> d.1 == bd.y + 2
            &&& bd.door == Door::East ==> d.0 == bd.x + bd.w - 2
            &&& bd.door == Door::West ==> d.0 == bd.x + 2
            &&& bd.door == Door::South || bd.door == Door::North ==> -1 <= 2 * (d.0 - bd.x) - bd.w
                <= 1
            &&& bd.door == Door::East || bd.door == Door::West ==> -1 <= 2 * (d.1 - bd.y) - bd.h
                <= 1
        }),
{
}

proof fn lemma_station_from(key: Seq<char>, from: int, i: int)
    requires
        0 <= from <= i <= 21,
        forall|j: int| from <= j < i ==> (#[trigger] building(j)).key@ != key,
        i < 21 ==> building(i).key@ == key,
    ensures
        station_from(key, from) == if i < 21 {
            i
        } else {
            19
        },
    decreases i - from,
{
    if from < i {
        assert(building(from).key@ != key);
        lemma_station_from(key, from + 1, i);
    }
}

/// The work of a stage is done at the first building that stands for it, and at
/// the common workplace where none does.
pub proof fn law_stages_have_their_station(key: Seq<char>, i: int)
    ensures
        0 <= i < 21 && building(i).key@ == key && (forall|j: int|
            0 <= j < i ==> (#[trigger] building(j)).key@ != key) ==> station_from(key, 0) == i,
        (forall|j: int| 0 <= j < 21 ==> (#[trigger] building(j)).key@ != key) ==> station_from(
            key,
            0,
        ) == 19,
{
    if 0 <= i < 21 && building(i).key@ == key && (forall|j: int|
        0 <= j < i ==> (#[trigger] building(j)).key@ != key) {
        lemma_station_from(key, 0, i);
    }
    if forall|j: int| 0 <= j < 21 ==> (#[trigger] building(j)).key@ != key {
        lemma_station_from(key, 0, 21);
    }
}

/// A building covers its own ground and a margin around it, and the ground in
/// front of its door lies across the wall that the door is in.
pub proof fn law_buildings_cover_their_ground(bd: BuildingDef)
    requires
        fits(bd),
    ensures
        footprint(bd).x == bd.x - 3,
        footprint(bd).y == bd.y - 3,
        footprint(bd).x + footprint(bd).w == bd.x + bd.w + 3,
        footprint(bd).y + footprint(bd).h == bd.y + bd.h + 3,
        ({
            let a = apron(bd);
            let d = door_of(bd);
            &&& bd.door == Door::South ==> a.x <= d.0 < a.x + a.w && a.y <= bd.y + bd.h - 1 && bd.y
                + bd.h < a.y + a.h
            &&& bd.door == Door::North ==> a.x <= d.0 < a.x + a.w && a.y < bd.y && bd.y < a.y + a.h
            &&& bd.door == Door::East ==> a.y <= d.1 < a.y + a.h && a.x <= bd.x + bd.w - 1 && bd.x
                + bd.w < a.x + a.w
            &&& bd.door == Door::West ==> a.y <= d.1 < a.y + a.h && a.x < bd.x && bd.x < a.x + a.w
        }),
{
}

proof fn lemma_buildings_len(grid: Seq<u8>, n: nat)
    ensures
        with_buildings(grid, n).len() == grid.len(),
    decreases n,
{
    if n > 0 {
        lemma_buildings_len(grid, (n - 1) as nat);
    }
}

/// The ground of a building is blocked, unless it lies before a door.
pub proof fn law_buildings_are_blocked(grid: Seq<u8>, n: nat, i: int, k: int)
    requires
        0 <= k < grid.len(),
        0 <= i < n,
        touches(footprint(building(i)), k % 80, k / 80),
        forall|j: int|
            i <= j < n ==> !touches(apron(#[trigger] building(j)), k % 80, k / 80),
    ensures
        with_buildings(grid, n)[k] == 0,
    decreases n,
{
    lemma_buildings_len(grid, (n - 1) as nat);
    assert(!touches(apron(building(n - 1)), k % 80, k / 80));
    if i < n - 1 {
        law_buildings_are_blocked(grid, (n - 1) as nat, i, k);
    }
}

/// The ground before a door is open, unless a later building stands on it.
pub proof fn law_doors_are_open(grid: Seq<u8>, n: nat, i: int, k: int)
    requires
        0 <= k < grid.len(),
        0 <= i < n,
        touches(apron(building(i)), k % 80, k / 80),
        forall|j: int|
            i < j < n ==> !touches(footprint(#[trigger] building(j)), k % 80, k / 80),
    ensures
        with_buildings(grid, n)[k] == 1,
    decreases n,
{
    lemma_buildings_len(grid, (n - 1) as nat);
    if i < n - 1 {
        assert(!touches(footprint(building(n - 1)), k % 80, k / 80));
        law_doors_are_open(grid, (n - 1) as nat, i, k);
    }
}

/// Ground that no building is on or opens to stays as it was.
pub proof fn law_ground_between_buildings_stays(grid: Seq<u8>, n: nat, k: int)
    requires
        0 <= k < grid.len(),
        forall|j: int|
            0 <= j < n ==> !touches(footprint(#[trigger] building(j)), k % 80, k / 80)
                && !touches(apron(building(j)), k % 80, k / 80),
    ensures
        with_buildings(grid, n)[k] == grid[k],
    decreases n,
{
    if n > 0 {
        lemma_buildings_len(grid, (n - 1) as nat);
        assert(!touches(footprint(building(n - 1)), k % 80, k / 80));
        law_ground_between_buildings_stays(grid, (n - 1) as nat, k);
    }
}

/// The ground that a pond, field or garden takes, with a margin.
pub open spec fn garden_ground(i: int) -> Area {
    let a = garden(i);
    Area { x: (a.x - 2) as i32, y: (a.y - 2) as i32, w: (a.w + 4) as i32, h: (a.h + 4) as i32 }
}

/// Ponds, fields and gardens are blocked, and the ground that none of them
/// takes stays as it was.
pub proof fn law_gardens_are_blocked(grid: Seq<u8>, n: nat, i: int, k: int)
    requires
        0 <= k < grid.len(),
    ensures
        with_gardens(grid, n).len() == grid.len(),
        0 <= i < n && touches(garden_ground(i), k % 80, k / 80) ==> with_gardens(grid, n)[k] == 0,
        (forall|j: int| 0 <= j < n ==> !touches(#[trigger] garden_ground(j), k % 80, k / 80))
            ==> with_gardens(grid, n)[k] == grid[k],
    decreases n,
{
    if n > 0 {
        law_gardens_are_blocked(grid, (n - 1) as nat, i, k);
        let last = garden_ground(n - 1);
        assert(with_gardens(grid, n) == marked(with_gardens(grid, (n - 1) as nat), last, 0));
    }
}

/// The ground at the foot of a tree.
pub open spec fn tree_ground(i: int) -> Area {
    let t = tree(i);
    Area { x: (t.0 - 9) as i32, y: (t.1 - 6) as i32, w: 18, h: 14 }
}

/// The ground that no tree takes stays as it was.
pub proof fn law_ground_between_trees_stays(grid: Seq<u8>, n: nat, k: int)
    requires
        0 <= k < grid.len(),
        forall|j: int| 0 <= j < n ==> !touches(#[trigger] tree_ground(j), k % 80, k / 80),
    ensures
        with_trees(grid, n)[k] == grid[k],
    decreases n,
{
    if n > 0 {
        lemma_trees_len(grid, (n - 1) as nat);
        let last = tree_ground(n - 1);
        assert(with_trees(grid, n) == marked(with_trees(grid, (n - 1) as nat), last, 0));
        law_ground_between_trees_stays(grid, (n - 1) as nat, k);
    }
}

/// Before anything stands on it all ground is open.
pub proof fn law_bare_ground_is_open(k: int)
    requires
        0 <= k < 3600,
    ensures
        bare_ground().len() == 3600,
        bare_ground()[k] == 1,
{
}

} // verus!
