//! The town: its map, the ways through it, its people and its picture.

use dshtui::model::agent_roster::{AgentRosterEntry, AgentStatus, WireAgent};
use dshtui::model::agent_town::{
    phase_name, season_of_day, NpcState, ParticleKind, SeasonKind, TownScene,
};
use dshtui::model::town_buildings::{building_strokes, draw_building, Shade};
use dshtui::model::town_draw::{hex_rgb, px, rect, spr, OUTLINE, PIXELS};
use dshtui::model::town_grid::{is_walk_px, mark_rect, Area, GH, GW, TILE, TOWN_W};
use dshtui::model::town_life::{
    human_action, human_after, is_working, npc_action, npc_after, npc_pose, npc_seek_pause,
    resident_at, spirit_step, villager_sprite, HumanAction, HumanOutcome, NpcAction, NpcMind,
    PasserKind, PasserState, SpiritSense, RESIDENTS,
};
use dshtui::model::town_looks::{
    hair_color, pants_color, scarf_color, season_paints, shoe_color, spirit_coat, villager_color,
    villager_lift,
};
use dshtui::model::town_map::{
    build_nature_map, build_station_map, building_def, building_door, nature_rect, station_pos,
    town_ground, tree_spot, BUILDINGS, GARDENS, TREES,
};
use dshtui::model::town_paint::{colour, draw, fill_disc, Colours, Paint, Stroke};
use dshtui::model::town_path::{find_path, nearest_walkable, MIDDLE};
use dshtui::model::town_rng::Rng;
use dshtui::model::town_scene::{
    fountain_basin_strokes, fountain_jet_strokes, fountain_plinth_strokes, garden_strokes,
    ground_strokes, pond_at, pond_bed_strokes, pond_leaf_strokes, PONDS,
};
use dshtui::wire::SessionId;

fn gx(x: i32) -> i32 {
    x / TILE
}

fn town() -> Vec<u8> {
    let mut grid = vec![1u8; GW * GH];
    build_station_map(&mut grid);
    build_nature_map(&mut grid);
    grid
}

fn entry(sid: &str, task_status: &str, status: &str) -> AgentRosterEntry {
    AgentRosterEntry::from_wire(&WireAgent {
        session_id: sid.into(),
        phase: "".into(),
        task: "任务X".into(),
        project: "proj".into(),
        task_id: "TASK-1".into(),
        status: status.into(),
        task_status: task_status.into(),
        elapsed: 100,
        last_event_at: 0,
        seq: 1,
        label: "".into(),
        kind: "session".into(),
        parent_session_id: "".into(),
        delegation_depth: 0,
        provider: "p".into(),
        model: "m".into(),
    })
}

fn colours() -> Colours {
    Colours {
        roof: 1,
        wall: 2,
        dark: 3,
        roof_dark: 4,
        win: 5,
        door: 6,
        wood: 7,
        glass: 8,
        leaf: 9,
        light: 10,
        gold: 11,
        bark: 12,
        pith: 13,
        meadow: 14,
        high: 15,
        trunk: 16,
        berry: 17,
        petal: 18,
        shadow: 19,
        tree_top: 20,
        tree_dark: 21,
        grass_dark: 22,
        grass_light: 23,
        field_dark: 24,
        rose: 25,
        violet: 26,
        sky: 27,
        core_pale: 28,
        core_rust: 29,
        soil: 30,
        road: 31,
        road_dark: 32,
        sand: 33,
        foam: 34,
        deep: 35,
        water: 36,
        water_light: 37,
        lily: 38,
        stone: 39,
        stone_dark: 40,
        plinth: 41,
        rim: 42,
    }
}

#[test]
fn phase_name_boundaries() {
    assert_eq!(phase_name(329), "深夜");
    assert_eq!(phase_name(330), "清晨");
    assert_eq!(phase_name(450), "白天");
    assert_eq!(phase_name(1050), "黄昏");
    assert_eq!(phase_name(1170), "深夜");
}

#[test]
fn seasons_last_eight_days() {
    assert_eq!(season_of_day(0), SeasonKind::Spring);
    assert_eq!(season_of_day(7), SeasonKind::Spring);
    assert_eq!(season_of_day(8), SeasonKind::Summer);
    assert_eq!(season_of_day(24), SeasonKind::Winter);
    assert_eq!(season_of_day(32), SeasonKind::Spring);
    assert_eq!(SeasonKind::Winter.particle(), ParticleKind::Snow);
    assert!(!SeasonKind::Autumn.name().is_empty());
    assert!(!SeasonKind::Autumn.emoji().is_empty());
}

#[test]
fn static_scene_key_pixels_match_prototype_reference() {
    let grid = town();
    let c = colours();
    let mut b = vec![0u32; PIXELS];
    draw(&mut b, &ground_strokes(&grid), &c);
    draw(&mut b, &fountain_basin_strokes(), &c);
    draw(&mut b, &fountain_jet_strokes(), &c);
    draw(&mut b, &fountain_plinth_strokes(), &c);
    for i in 0..PONDS {
        draw(&mut b, &pond_bed_strokes(i), &c);
        draw(&mut b, &pond_leaf_strokes(i), &c);
    }
    let shades: Vec<(i32, i32)> = (0..TREES).map(|i| (tree_spot(i).0 - 8, tree_spot(i).1)).collect();
    draw(&mut b, &garden_strokes(&grid, &shades, false), &c);
    for i in 0..BUILDINGS {
        let bd = building_def(i);
        draw_building(&mut b, &bd, &c, Shade { x: bd.x, y: bd.y, colour: 99 });
    }

    assert_eq!(b[265 * TOWN_W + 100], c.road);
    assert_eq!(b[100 * TOWN_W + 480], c.road);
    assert_eq!(b[486 * TOWN_W + 288], c.deep);
    assert_eq!(b[360 * TOWN_W + 620], c.wall);
    assert!(!is_walk_px(&grid, 700, 360));
    assert!(is_walk_px(&grid, 100, 265));
}

#[test]
fn collision_grid_buildings_and_nature_are_blocked() {
    let grid = town();
    assert!(!is_walk_px(&grid, 83, 92));
    assert!(is_walk_px(&grid, 83, 122));
    assert!(!is_walk_px(&grid, 893, 30));
    assert!(!is_walk_px(&grid, 48, 36));
    assert!(!is_walk_px(&grid, 480, 268));
    assert_eq!(grid, town_ground());
}

#[test]
fn find_path_reaches_goal_and_avoids_obstacles() {
    let grid = town();
    let path = find_path(&grid, 480, 300, 578, 354);
    assert!(!path.is_empty());
    let last = *path.last().unwrap();
    assert_eq!((gx(last.0), gx(last.1)), (gx(578), gx(354)));
    for (x, y) in &path {
        assert!(is_walk_px(&grid, *x, *y));
    }
    let path2 = find_path(&grid, 480, 300, 83, 92);
    assert!(!path2.is_empty());
}

#[test]
fn find_path_same_cell_is_trivial() {
    let grid = vec![1u8; GW * GH];
    let path = find_path(&grid, 100, 100, 100, 100);
    assert_eq!(path.len(), 1);
    assert_eq!(path[0], (102, 102));
}

#[test]
fn walls_without_a_door_cannot_be_passed() {
    let mut grid = vec![1u8; GW * GH];
    for j in 0..GH {
        grid[j * GW + 40] = 0;
    }
    assert!(find_path(&grid, 6, 6, 900, 6).is_empty());
    grid[20 * GW + 40] = 1;
    assert!(!find_path(&grid, 6, 6, 900, 6).is_empty());
    let nothing = vec![0u8; GW * GH];
    assert_eq!(nearest_walkable(&nothing, 0), MIDDLE);
    grid[0] = 0;
    assert_eq!(nearest_walkable(&grid, 0), 1);
}

#[test]
fn station_pos_matches_building_doors() {
    assert_eq!(station_pos("refining"), (83, 120));
    assert_eq!(station_pos("implementing"), (582, 354));
    assert_eq!(station_pos("audit"), (108, 339));
    assert_eq!(station_pos("nope"), station_pos("working"));
}

#[test]
fn every_building_has_a_door_and_a_picture() {
    let grid = town();
    for i in 0..BUILDINGS {
        let bd = building_def(i);
        assert_eq!(station_pos(bd.key), building_door(&bd));
        assert!(!building_strokes(&bd).is_empty(), "{}", bd.key);
    }
    for i in 0..GARDENS {
        let a = nature_rect(i);
        assert!(!is_walk_px(&grid, a.x + a.w / 2, a.y + a.h / 2));
    }
    assert_eq!(pond_at(0).x, 225);
}

#[test]
fn areas_are_marked_tile_by_tile() {
    let mut grid = vec![1u8; GW * GH];
    mark_rect(&mut grid, Area { x: 24, y: 12, w: 12, h: 12 }, 0);
    assert!(!is_walk_px(&grid, 24, 12));
    assert!(is_walk_px(&grid, 11, 12));
}

#[test]
fn sync_agents_adds_updates_removes() {
    let mut scene = TownScene::new(7);
    assert!(!scene.has_agents());
    let e1 = entry("session-a", "implementing", "working");
    let e2 = entry("session-b", "", "idle");
    scene.sync_agents(&[e1.clone(), e2.clone()]);
    assert_eq!(scene.npcs.len(), 2);
    assert_eq!(scene.npcs[0].key, "implementing");
    scene.sync_agents(&[e1.clone(), e2.clone()]);
    assert_eq!(scene.npcs.len(), 2);
    let mut e1b = e1.clone();
    e1b.seq = 9;
    scene.sync_agents(&[e1b]);
    assert_eq!(scene.npcs[0].entry.seq, 9);
    assert_eq!(scene.npcs.len(), 1);
    scene.sync_agents(&[e1.clone(), e2.clone()]);
    assert_eq!(scene.npcs.len(), 2);
    let sid = SessionId("session-b".into());
    assert!(scene.npc(&sid).is_some());
    scene.npc_mut(&sid).unwrap().cheering = true;
    assert!(scene.npc(&sid).unwrap().cheering);
}

#[test]
fn draws_are_repeatable_and_in_range() {
    let mut a = Rng::new(5);
    let mut b = Rng::new(5);
    for n in 1..50usize {
        let x = a.usize(n);
        assert_eq!(x, b.usize(n));
        assert!(x < n);
    }
    assert_ne!(a.next_u64(), a.next_u64());
}

#[test]
fn workers_go_to_their_station_and_leave_it() {
    assert!(is_working(AgentStatus::Working, "implementing"));
    assert!(!is_working(AgentStatus::Idle, "implementing"));
    let new = NpcMind { working: true, assigned: false, state: NpcState::Idle };
    let a = npc_action(new, true, false);
    assert_eq!(a, NpcAction::PlanToStation);
    let going = npc_after(new, a, false);
    assert!(going.assigned);
    assert_eq!(going.state, NpcState::ToWork);
    let there = npc_after(going, npc_action(going, true, false), true);
    assert_eq!(there.state, NpcState::Working);
    let off = NpcMind { working: false, ..there };
    assert!(matches!(npc_action(off, true, false), NpcAction::LeaveWork(_)));
    assert!(npc_seek_pause(true).base > 0);
    assert!(!NpcState::Working.action_text().is_empty());
}

#[test]
fn residents_keep_to_their_own_ways() {
    let count = |kind: PasserKind, ptype: &str| {
        (0..RESIDENTS)
            .map(resident_at)
            .filter(|r| r.kind == kind && (ptype.is_empty() || r.ptype == ptype))
            .count()
    };
    assert_eq!(RESIDENTS, 18);
    assert_eq!(count(PasserKind::Human, "adult"), 5);
    assert_eq!(count(PasserKind::Human, "child"), 2);
    assert_eq!(count(PasserKind::Pokemon, ""), 8);
    assert_eq!(count(PasserKind::Pokemon, "cat"), 1);
    assert_eq!(count(PasserKind::Bird, ""), 3);
    let a = human_action(PasserState::Walk, true, false);
    assert!(matches!(a, HumanAction::EndWalk(_)));
    let (next, pause) =
        human_after(PasserState::Walk, a, HumanOutcome { path_empty: true, company: false });
    assert_eq!(next, PasserState::Idle);
    assert!(pause.is_some());
    let (spirit, _) = spirit_step(
        PasserState::Hop,
        SpiritSense { timer_done: false, hop_done: false, company: None },
    );
    assert_eq!(spirit, PasserState::Hop);
    assert_ne!(npc_pose(false, NpcState::Walk, false), npc_pose(false, NpcState::Walk, true));
    assert_ne!(
        villager_sprite(false, PasserState::Walk, false),
        villager_sprite(true, PasserState::Walk, false)
    );
}

#[test]
fn strokes_stay_inside_of_the_picture() {
    let mut b = vec![0u32; PIXELS];
    px(&mut b, -1, 0, 7);
    px(&mut b, 960, 0, 7);
    assert!(b.iter().all(|v| *v == 0));
    px(&mut b, 2, 1, 7);
    assert_eq!(b[TOWN_W + 2], 7);
    rect(&mut b, -2, -2, 4, 4, 8);
    assert_eq!((b[0], b[1], b[2]), (8, 8, 0));
    fill_disc(&mut b, 100, 100, 3, 2, 9);
    assert_eq!(b[100 * TOWN_W + 103], 9);
    assert_eq!(b[100 * TOWN_W + 104], 0);
    assert_eq!(b[98 * TOWN_W + 100], 9);
    let strokes = vec![Stroke::Rect { x: 200, y: 200, w: 1, h: 1, paint: Paint::Fixed(77) }];
    draw(&mut b, &strokes, &colours());
    assert_eq!(b[200 * TOWN_W + 200], 77);
    assert_eq!(colour(Paint::Road, &colours()), 31);
}

#[test]
fn sprites_are_flipped_and_outlined() {
    let mut b = vec![0u32; PIXELS];
    let rows = vec!["ab", ".K"];
    spr(&mut b, &rows, 10, 10, &vec![('a', 1), ('b', 2)], false);
    assert_eq!((b[10 * TOWN_W + 10], b[10 * TOWN_W + 11]), (1, 2));
    assert_eq!(b[11 * TOWN_W + 10], 0);
    let mut f = vec![0u32; PIXELS];
    spr(&mut f, &rows, 10, 10, &vec![('a', 1), ('b', 2)], true);
    assert_eq!((f[10 * TOWN_W + 10], f[10 * TOWN_W + 11]), (2, 1));
    assert_eq!(hex_rgb("#1a1c2c"), (0x1a, 0x1c, 0x2c));
    assert_eq!(OUTLINE, 0xff1a_1c2c);
}

#[test]
fn people_and_seasons_have_their_colours() {
    assert_eq!(villager_color(0), "#e85d3a");
    assert_eq!(villager_color(9), "#d080c0");
    assert_eq!(scarf_color(1), "#4a8ee8");
    assert_eq!(hair_color(3), "#000000");
    assert_eq!(pants_color(4), "#3a3a6a");
    assert_eq!(shoe_color(2), "#204020");
    assert_eq!(season_paints(SeasonKind::Winter).meadow, "#78a0a8");
    assert_eq!(spirit_coat("pokemon2"), vec![('B', 0xff58_a0e8), ('E', 0xff20_242b)]);
    assert_eq!(spirit_coat("cat")[0], ('O', 0xffd0_8050));
    assert_eq!(villager_lift(PasserState::Wave, true), -2);
    assert_eq!(villager_lift(PasserState::Wave, false), 0);
    assert_eq!(villager_lift(PasserState::Chat, true), 1);
    for i in 0..BUILDINGS {
        let bd = building_def(i);
        assert!(hex_rgb(bd.roof).0 > 0 || hex_rgb(bd.roof).1 > 0);
    }
}

#[test]
fn routes_are_short() {
    let grid = town();
    let open = vec![1u8; GW * GH];
    let cost = |path: &[(i32, i32)]| -> i32 {
        path.windows(2)
            .map(|w| if w[0].0 != w[1].0 && w[0].1 != w[1].1 { 1414 } else { 1000 })
            .sum()
    };
    let straight = find_path(&open, 6, 6, 126, 6);
    assert_eq!(cost(&straight), 10_000);
    let slanted = find_path(&open, 6, 6, 66, 66);
    assert_eq!(cost(&slanted), 5 * 1414);
    for (tx, ty) in [(578, 354), (902, 30), (30, 510), (700, 90)] {
        let free = find_path(&open, 480, 300, tx, ty);
        let (dx, dy) = ((gx(tx) - gx(480)).abs(), (gx(ty) - gx(300)).abs());
        let best = 1414 * dx.min(dy) + 1000 * (dx - dy).abs();
        assert!(1414 * cost(&free) <= 2000 * best);
    }
    let around = find_path(&grid, 480, 300, 578, 354);
    let free = find_path(&open, 480, 300, 578, 354);
    assert!(2000 * cost(&around) >= 1414 * cost(&free));
}

#[test]
fn sprites_may_lie_far_outside() {
    let mut b = vec![0u32; PIXELS];
    let before = b.clone();
    let rows = vec!["ab", "ba"];
    spr(&mut b, &rows, i32::MIN, i32::MAX - 1, &vec![('a', 1)], false);
    assert_eq!(b, before);
}
