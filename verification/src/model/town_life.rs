//! What the people of the town do next. Their places and clocks are kept
//! elsewhere; here stand the decisions, from what is known of a person to what
//! it does and what it is doing afterwards.

use vstd::prelude::*;

use crate::model::agent_roster::AgentStatus;
use crate::model::agent_town::NpcState;
use crate::text::same;

verus! {

/// A time to wait: a part that is fixed and a part that chance decides, in
/// milliseconds.
#[derive(Debug, Clone, Copy, PartialEq, Eq, Structural)]
pub struct Pause {
    pub base: u32,
    pub spread: u32,
}

/// Whether an agent is at work: it is not at rest, nor at the stage of rest.
pub fn is_working(status: AgentStatus, key: &str) -> (r: bool)
    ensures
        r == (status != AgentStatus::Idle && key@ != "idle"@),
{
    status != AgentStatus::Idle && !same(key, "idle")
}

/// What is known of an inhabitant before it acts.
#[derive(Debug, Clone, Copy, PartialEq, Eq, Structural)]
pub struct NpcMind {
    pub working: bool,
    pub assigned: bool,
    pub state: NpcState,
}

/// What an inhabitant does.
#[derive(Debug, Clone, Copy, PartialEq, Eq, Structural)]
pub enum NpcAction {
    /// Looks for the way to its station; it acts once more afterwards.
    PlanToStation,
    /// Goes on along the way to its station.
    GoToWork,
    /// Stays at its station.
    StayAtWork,
    /// Leaves its work and rests for a while.
    LeaveWork(Pause),
    /// Looks for a place to walk to.
    SeekPlace,
    /// Ends its walk and rests for a while.
    EndWalk(Pause),
    /// Rests on.
    Rest,
}

/// What an inhabitant does: one at work goes to its station and stays, one at
/// rest leaves work, rests, and now and then walks.
pub open spec fn npc_acts(m: NpcMind, path_empty: bool, timer_done: bool) -> NpcAction {
    if m.working {
        if !m.assigned {
            NpcAction::PlanToStation
        } else if m.state != NpcState::Working && !path_empty {
            NpcAction::GoToWork
        } else {
            NpcAction::StayAtWork
        }
    } else {
        match m.state {
            NpcState::ToWork => NpcAction::LeaveWork(Pause { base: 1000, spread: 2000 }),
            NpcState::Working => NpcAction::LeaveWork(Pause { base: 1000, spread: 2000 }),
            NpcState::Idle => if timer_done {
                NpcAction::SeekPlace
            } else {
                NpcAction::Rest
            },
            NpcState::Walk => NpcAction::EndWalk(Pause { base: 1500, spread: 3000 }),
        }
    }
}

/// What an inhabitant does.
pub fn npc_action(m: NpcMind, path_empty: bool, timer_done: bool) -> (r: NpcAction)
    ensures
        r == npc_acts(m, path_empty, timer_done),
{
    if m.working {
        if !m.assigned {
            NpcAction::PlanToStation
        } else if m.state != NpcState::Working && !path_empty {
            NpcAction::GoToWork
        } else {
            NpcAction::StayAtWork
        }
    } else {
        match m.state {
            NpcState::ToWork => NpcAction::LeaveWork(Pause { base: 1000, spread: 2000 }),
            NpcState::Working => NpcAction::LeaveWork(Pause { base: 1000, spread: 2000 }),
            NpcState::Idle => if timer_done {
                NpcAction::SeekPlace
            } else {
                NpcAction::Rest
            },
            NpcState::Walk => NpcAction::EndWalk(Pause { base: 1500, spread: 3000 }),
        }
    }
}

/// What an inhabitant is doing after an action that left it with or without a
/// way to go.
pub open spec fn npc_mind_after(m: NpcMind, a: NpcAction, path_empty: bool) -> NpcMind {
    match a {
        NpcAction::PlanToStation => NpcMind {
            assigned: true,
            state: if path_empty {
                NpcState::Working
            } else {
                NpcState::ToWork
            },
            ..m
        },
        NpcAction::GoToWork => NpcMind {
            state: if path_empty {
                NpcState::Working
            } else {
                m.state
            },
            ..m
        },
        NpcAction::StayAtWork => NpcMind { state: NpcState::Working, ..m },
        NpcAction::LeaveWork(_) => NpcMind { assigned: false, state: NpcState::Idle, ..m },
        NpcAction::SeekPlace => NpcMind {
            assigned: false,
            state: if path_empty {
                NpcState::Idle
            } else {
                NpcState::Walk
            },
            ..m
        },
        NpcAction::EndWalk(_) => NpcMind { assigned: false, state: NpcState::Idle, ..m },
        NpcAction::Rest => NpcMind { assigned: false, ..m },
    }
}

/// What an inhabitant is doing after an action.
pub fn npc_after(m: NpcMind, a: NpcAction, path_empty: bool) -> (r: NpcMind)
    ensures
        r == npc_mind_after(m, a, path_empty),
{
    match a {
        NpcAction::PlanToStation => NpcMind {
            working: m.working,
            assigned: true,
            state: if path_empty {
                NpcState::Working
            } else {
                NpcState::ToWork
            },
        },
        NpcAction::GoToWork => NpcMind {
            working: m.working,
            assigned: m.assigned,
            state: if path_empty {
                NpcState::Working
            } else {
                m.state
            },
        },
        NpcAction::StayAtWork => NpcMind {
            working: m.working,
            assigned: m.assigned,
            state: NpcState::Working,
        },
        NpcAction::LeaveWork(_) => NpcMind {
            working: m.working,
            assigned: false,
            state: NpcState::Idle,
        },
        NpcAction::SeekPlace => NpcMind {
            working: m.working,
            assigned: false,
            state: if path_empty {
                NpcState::Idle
            } else {
                NpcState::Walk
            },
        },
        NpcAction::EndWalk(_) => NpcMind {
            working: m.working,
            assigned: false,
            state: NpcState::Idle,
        },
        NpcAction::Rest => NpcMind { working: m.working, assigned: false, state: m.state },
    }
}

/// Time that an inhabitant takes after it looked for a place to walk to.
pub fn npc_seek_pause(path_empty: bool) -> (r: Pause)
    ensures
        r == if path_empty {
            Pause { base: 1000, spread: 2000 }
        } else {
            Pause { base: 5000, spread: 4000 }
        },
{
    if path_empty {
        Pause { base: 1000, spread: 2000 }
    } else {
        Pause { base: 5000, spread: 4000 }
    }
}

/// An agent at work is at its station or on the way there after every action,
/// once its way was planned.
pub proof fn law_workers_go_to_work(m: NpcMind, path_empty: bool, timer_done: bool, left: bool)
    requires
        m.working,
        m.assigned ==> m.state == NpcState::ToWork || m.state == NpcState::Working,
    ensures
        ({
            let after = npc_mind_after(m, npc_acts(m, path_empty, timer_done), left);
            after.working && after.assigned && (after.state == NpcState::ToWork || after.state
                == NpcState::Working)
        }),
{
}

/// An agent at rest is never at its station after an action, and will plan its
/// way anew when it works again.
pub proof fn law_resting_agents_leave_work(
    m: NpcMind,
    path_empty: bool,
    timer_done: bool,
    left: bool,
)
    requires
        !m.working,
    ensures
        ({
            let after = npc_mind_after(m, npc_acts(m, path_empty, timer_done), left);
            !after.assigned && after.state != NpcState::ToWork && after.state != NpcState::Working
        }),
{
}

/// What kind of passer-by someone is.
#[derive(Debug, Clone, Copy, PartialEq, Eq, Structural)]
pub enum PasserKind {
    Human,
    Pokemon,
    Bird,
}

/// What a passer-by is doing.
#[derive(Debug, Clone, Copy, PartialEq, Eq, Structural)]
pub enum PasserState {
    Idle,
    Walk,
    Chat,
    Wave,
    Hop,
    Follow,
    Sparkle,
    Fly,
}

/// What a villager does.
#[derive(Debug, Clone, Copy, PartialEq, Eq, Structural)]
pub enum HumanAction {
    /// Ends a walk that has no way left, and then looks for company.
    EndWalk(Pause),
    /// Goes on along its way.
    GoOn,
    /// Looks for a place to walk to.
    SeekPlace,
    /// Looks for company.
    LookForCompany,
    /// Ends a chat and rests for a while.
    EndChat(Pause),
    /// Ends a wave.
    EndWave,
    /// Goes on with what it is doing.
    Nothing,
}

/// What a villager does.
pub open spec fn human_acts(state: PasserState, path_empty: bool, timer_done: bool) -> HumanAction {
    match state {
        PasserState::Walk => if path_empty {
            HumanAction::EndWalk(Pause { base: 1500, spread: 3000 })
        } else {
            HumanAction::GoOn
        },
        PasserState::Idle => if timer_done {
            HumanAction::SeekPlace
        } else {
            HumanAction::LookForCompany
        },
        PasserState::Chat => if timer_done {
            HumanAction::EndChat(Pause { base: 1000, spread: 2000 })
        } else {
            HumanAction::Nothing
        },
        PasserState::Wave => if timer_done {
            HumanAction::EndWave
        } else {
            HumanAction::Nothing
        },
        _ => HumanAction::Nothing,
    }
}

/// What a villager does.
pub fn human_action(state: PasserState, path_empty: bool, timer_done: bool) -> (r: HumanAction)
    ensures
        r == human_acts(state, path_empty, timer_done),
{
    match state {
        PasserState::Walk => if path_empty {
            HumanAction::EndWalk(Pause { base: 1500, spread: 3000 })
        } else {
            HumanAction::GoOn
        },
        PasserState::Idle => if timer_done {
            HumanAction::SeekPlace
        } else {
            HumanAction::LookForCompany
        },
        PasserState::Chat => if timer_done {
            HumanAction::EndChat(Pause { base: 1000, spread: 2000 })
        } else {
            HumanAction::Nothing
        },
        PasserState::Wave => if timer_done {
            HumanAction::EndWave
        } else {
            HumanAction::Nothing
        },
        _ => HumanAction::Nothing,
    }
}

/// What came of a villager's action.
#[derive(Debug, Clone, Copy, PartialEq, Eq, Structural)]
pub struct HumanOutcome {
    /// Whether no way is left, after a step or a search.
    pub path_empty: bool,
    /// Whether the villager found company and chance let them talk.
    pub company: bool,
}

/// What a villager is doing after an action, and the time that it takes where
/// its clock starts anew.
pub open spec fn human_state_after(state: PasserState, a: HumanAction, o: HumanOutcome) -> (
    PasserState,
    Option<Pause>,
) {
    match a {
        HumanAction::EndWalk(p) => if o.company {
            (PasserState::Chat, Some(Pause { base: 1600, spread: 1200 }))
        } else {
            (PasserState::Idle, Some(p))
        },
        HumanAction::GoOn => if o.path_empty {
            (PasserState::Idle, Some(Pause { base: 1500, spread: 3000 }))
        } else {
            (state, None)
        },
        HumanAction::SeekPlace => if o.path_empty {
            (PasserState::Idle, Some(Pause { base: 1000, spread: 2000 }))
        } else {
            (PasserState::Walk, Some(Pause { base: 4000, spread: 5000 }))
        },
        HumanAction::LookForCompany => if o.company {
            (PasserState::Chat, Some(Pause { base: 1600, spread: 1200 }))
        } else {
            (state, None)
        },
        HumanAction::EndChat(p) => (PasserState::Idle, Some(p)),
        HumanAction::EndWave => (PasserState::Idle, None),
        HumanAction::Nothing => (state, None),
    }
}

/// What a villager is doing after an action, and the time that it takes where
/// its clock starts anew.
pub fn human_after(state: PasserState, a: HumanAction, o: HumanOutcome) -> (r: (
    PasserState,
    Option<Pause>,
))
    ensures
        r == human_state_after(state, a, o),
{
    match a {
        HumanAction::EndWalk(p) => if o.company {
            (PasserState::Chat, Some(Pause { base: 1600, spread: 1200 }))
        } else {
            (PasserState::Idle, Some(p))
        },
        HumanAction::GoOn => if o.path_empty {
            (PasserState::Idle, Some(Pause { base: 1500, spread: 3000 }))
        } else {
            (state, None)
        },
        HumanAction::SeekPlace => if o.path_empty {
            (PasserState::Idle, Some(Pause { base: 1000, spread: 2000 }))
        } else {
            (PasserState::Walk, Some(Pause { base: 4000, spread: 5000 }))
        },
        HumanAction::LookForCompany => if o.company {
            (PasserState::Chat, Some(Pause { base: 1600, spread: 1200 }))
        } else {
            (state, None)
        },
        HumanAction::EndChat(p) => (PasserState::Idle, Some(p)),
        HumanAction::EndWave => (PasserState::Idle, None),
        HumanAction::Nothing => (state, None),
    }
}

/// A villager walks, rests, chats or waves, and nothing else.
pub proof fn law_villagers_stay_villagers(
    state: PasserState,
    path_empty: bool,
    timer_done: bool,
    o: HumanOutcome,
)
    requires
        state == PasserState::Idle || state == PasserState::Walk || state == PasserState::Chat
            || state == PasserState::Wave,
    ensures
        ({
            let after = human_state_after(
                state,
                human_acts(state, path_empty, timer_done),
                o,
            ).0;
            after == PasserState::Idle || after == PasserState::Walk || after == PasserState::Chat
                || after == PasserState::Wave
        }),
{
}

/// What is known of a spirit before it acts.
#[derive(Debug, Clone, Copy, PartialEq, Eq, Structural)]
pub struct SpiritSense {
    /// Whether the clock of what it is doing has run out.
    pub timer_done: bool,
    /// Whether its hop is over.
    pub hop_done: bool,
    /// Whether someone is near, and if so, whether still too far to rest.
    pub company: Option<bool>,
}

/// What a spirit is doing next, and whether it starts to hop, for which its
/// clock starts anew.
pub open spec fn spirit_next(state: PasserState, s: SpiritSense) -> (PasserState, Option<Pause>) {
    if state == PasserState::Sparkle {
        if s.timer_done {
            (PasserState::Idle, None)
        } else {
            (PasserState::Sparkle, None)
        }
    } else {
        match s.company {
            Some(far) => if far {
                (PasserState::Follow, None)
            } else {
                (PasserState::Idle, None)
            },
            None => if s.timer_done {
                (PasserState::Hop, Some(Pause { base: 1000, spread: 2000 }))
            } else if state == PasserState::Hop && s.hop_done {
                (PasserState::Idle, None)
            } else {
                (state, None)
            },
        }
    }
}

/// What a spirit is doing next, and whether it starts to hop.
pub fn spirit_step(state: PasserState, s: SpiritSense) -> (r: (PasserState, Option<Pause>))
    ensures
        r == spirit_next(state, s),
{
    if state == PasserState::Sparkle {
        if s.timer_done {
            (PasserState::Idle, None)
        } else {
            (PasserState::Sparkle, None)
        }
    } else {
        match s.company {
            Some(far) => if far {
                (PasserState::Follow, None)
            } else {
                (PasserState::Idle, None)
            },
            None => if s.timer_done {
                (PasserState::Hop, Some(Pause { base: 1000, spread: 2000 }))
            } else if state == PasserState::Hop && s.hop_done {
                (PasserState::Idle, None)
            } else {
                (state, None)
            },
        }
    }
}

/// Name of the sprite of an inhabitant.
pub fn npc_pose(cheering: bool, state: NpcState, odd_frame: bool) -> (r: &'static str)
    ensures
        r@ == if cheering {
            "cheer"@
        } else if state == NpcState::Walk || state == NpcState::ToWork {
            if odd_frame {
                "walk1"@
            } else {
                "walk2"@
            }
        } else {
            "stand"@
        },
{
    if cheering {
        "cheer"
    } else if state == NpcState::Walk || state == NpcState::ToWork {
        if odd_frame {
            "walk1"
        } else {
            "walk2"
        }
    } else {
        "stand"
    }
}

/// Name of the sprite of a villager.
pub fn villager_sprite(child: bool, state: PasserState, odd_frame: bool) -> (r: &'static str)
    ensures
        r@ == if child {
            if state != PasserState::Walk {
                "child_stand"@
            } else if odd_frame {
                "child_walk1"@
            } else {
                "child_walk2"@
            }
        } else {
            if state != PasserState::Walk {
                "adult_stand"@
            } else if odd_frame {
                "adult_walk1"@
            } else {
                "adult_walk2"@
            }
        },
{
    if child {
        if state != PasserState::Walk {
            "child_stand"
        } else if odd_frame {
            "child_walk1"
        } else {
            "child_walk2"
        }
    } else {
        if state != PasserState::Walk {
            "adult_stand"
        } else if odd_frame {
            "adult_walk1"
        } else {
            "adult_walk2"
        }
    }
}

/// Someone who passes through the town.
#[derive(Debug, Clone, Copy, PartialEq, Eq)]
pub struct Resident {
    pub kind: PasserKind,
    pub ptype: &'static str,
    pub name: &'static str,
    /// Pixels in a second.
    pub speed: u32,
    pub state: PasserState,
}

/// Number of residents: five grown villagers, two children, seven spirits, a
/// cat and three birds.
pub const RESIDENTS: usize = 18;

/// A villager at rest.
pub open spec fn villager(ptype: &'static str, name: &'static str, speed: u32) -> Resident {
    Resident { kind: PasserKind::Human, ptype, name, speed, state: PasserState::Idle }
}

/// A spirit at rest.
pub open spec fn spirit(ptype: &'static str, name: &'static str) -> Resident {
    Resident { kind: PasserKind::Pokemon, ptype, name, speed: 26, state: PasserState::Idle }
}

/// The residents by number.
pub open spec fn resident(i: int) -> Resident {
    if i == 0 {
        villager("adult", "木匠阿良", 26)
    } else if i == 1 {
        villager("adult", "花匠小满", 24)
    } else if i == 2 {
        villager("adult", "铁匠大锤", 23)
    } else if i == 3 {
        villager("adult", "渔夫老黄", 27)
    } else if i == 4 {
        villager("adult", "药师小铃", 25)
    } else if i == 5 {
        villager("child", "豆豆", 30)
    } else if i == 6 {
        villager("child", "米粒", 28)
    } else if i == 7 {
        spirit("pokemon1", "皮皮")
    } else if i == 8 {
        spirit("pokemon2", "水灵")
    } else if i == 9 {
        spirit("pokemon3", "草芽")
    } else if i == 10 {
        spirit("pokemon4", "虫虫")
    } else if i == 11 {
        spirit("pokemon5", "雪球")
    } else if i == 12 {
        spirit("pokemon6", "啾啾")
    } else if i == 13 {
        spirit("pokemon3", "团团")
    } else if i == 14 {
        spirit("cat", "橘猫")
    } else {
        Resident {
            kind: PasserKind::Bird,
            ptype: "bird",
            name: "小鸟",
            speed: 50,
            state: PasserState::Fly,
        }
    }
}

fn new_villager(ptype: &'static str, name: &'static str, speed: u32) -> (r: Resident)
    ensures
        r == villager(ptype, name, speed),
{
    Resident { kind: PasserKind::Human, ptype, name, speed, state: PasserState::Idle }
}

fn new_spirit(ptype: &'static str, name: &'static str) -> (r: Resident)
    ensures
        r == spirit(ptype, name),
{
    Resident { kind: PasserKind::Pokemon, ptype, name, speed: 26, state: PasserState::Idle }
}

/// The resident with a number.
pub fn resident_at(i: usize) -> (r: Resident)
    requires
        i < RESIDENTS,
    ensures
        r == resident(i as int),
{
    match i {
        0 => new_villager("adult", "木匠阿良", 26),
        1 => new_villager("adult", "花匠小满", 24),
        2 => new_villager("adult", "铁匠大锤", 23),
        3 => new_villager("adult", "渔夫老黄", 27),
        4 => new_villager("adult", "药师小铃", 25),
        5 => new_villager("child", "豆豆", 30),
        6 => new_villager("child", "米粒", 28),
        7 => new_spirit("pokemon1", "皮皮"),
        8 => new_spirit("pokemon2", "水灵"),
        9 => new_spirit("pokemon3", "草芽"),
        10 => new_spirit("pokemon4", "虫虫"),
        11 => new_spirit("pokemon5", "雪球"),
        12 => new_spirit("pokemon6", "啾啾"),
        13 => new_spirit("pokemon3", "团团"),
        14 => new_spirit("cat", "橘猫"),
        _ => Resident {
            kind: PasserKind::Bird,
            ptype: "bird",
            name: "小鸟",
            speed: 50,
            state: PasserState::Fly,
        },
    }
}

/// Who the residents are: five grown villagers, two children, seven spirits, a
/// cat and three birds, in this order, each on foot at rest and each bird in
/// the air.
pub proof fn law_who_the_residents_are(i: int)
    requires
        0 <= i < RESIDENTS,
    ensures
        ({
            let r = resident(i);
            &&& (i < 5 <==> r.kind == PasserKind::Human && r.ptype@ == "adult"@)
            &&& (5 <= i < 7 <==> r.kind == PasserKind::Human && r.ptype@ == "child"@)
            &&& (7 <= i < 14 <==> r.kind == PasserKind::Pokemon && r.ptype@ != "cat"@)
            &&& (i == 14 <==> r.kind == PasserKind::Pokemon && r.ptype@ == "cat"@)
            &&& (15 <= i <==> r.kind == PasserKind::Bird)
            &&& r.state == if r.kind == PasserKind::Bird {
                PasserState::Fly
            } else {
                PasserState::Idle
            }
        }),
{
    reveal_strlit("adult");
    reveal_strlit("child");
    reveal_strlit("cat");
    reveal_strlit("pokemon1");
    reveal_strlit("pokemon2");
    reveal_strlit("pokemon3");
    reveal_strlit("pokemon4");
    reveal_strlit("pokemon5");
    reveal_strlit("pokemon6");
    assert("adult"@[0] == 'a' && "child"@[0] == 'c');
    assert("cat"@.len() == 3 && "pokemon1"@.len() == 8 && "pokemon2"@.len() == 8
        && "pokemon3"@.len() == 8 && "pokemon4"@.len() == 8 && "pokemon5"@.len() == 8
        && "pokemon6"@.len() == 8);
}

/// An agent at work plans its way once, follows it and stays; it never walks
/// about.
pub proof fn law_workers_plan_go_and_stay(m: NpcMind, path_empty: bool, timer_done: bool)
    requires
        m.working,
    ensures
        npc_acts(m, path_empty, timer_done) is PlanToStation <==> !m.assigned,
        npc_acts(m, path_empty, timer_done) is GoToWork <==> m.assigned && m.state
            != NpcState::Working && !path_empty,
        npc_acts(m, path_empty, timer_done) is StayAtWork <==> m.assigned && (m.state
            == NpcState::Working || path_empty),
        npc_mind_after(m, NpcAction::PlanToStation, path_empty).state == if path_empty {
            NpcState::Working
        } else {
            NpcState::ToWork
        },
        npc_mind_after(m, NpcAction::PlanToStation, path_empty).assigned,
        path_empty ==> npc_mind_after(m, NpcAction::GoToWork, path_empty).state
            == NpcState::Working,
        !path_empty ==> npc_mind_after(m, NpcAction::GoToWork, path_empty) == m,
        npc_mind_after(m, NpcAction::StayAtWork, path_empty).state == NpcState::Working,
{
}

/// An agent at rest leaves its work, ends its walk, and walks again when it has
/// rested.
pub proof fn law_resting_agents_walk_when_rested(m: NpcMind, path_empty: bool, timer_done: bool)
    requires
        !m.working,
    ensures
        npc_acts(m, path_empty, timer_done) is LeaveWork <==> m.state == NpcState::ToWork
            || m.state == NpcState::Working,
        npc_acts(m, path_empty, timer_done) is EndWalk <==> m.state == NpcState::Walk,
        npc_acts(m, path_empty, timer_done) is SeekPlace <==> m.state == NpcState::Idle
            && timer_done,
        npc_acts(m, path_empty, timer_done) is Rest <==> m.state == NpcState::Idle && !timer_done,
        npc_mind_after(m, NpcAction::SeekPlace, path_empty).state == if path_empty {
            NpcState::Idle
        } else {
            NpcState::Walk
        },
        npc_mind_after(m, NpcAction::Rest, path_empty).state == m.state,
{
}

/// Whatever an inhabitant does, only a poll changes whether it is at work.
pub proof fn law_actions_do_not_hire(m: NpcMind, a: NpcAction, path_empty: bool)
    ensures
        npc_mind_after(m, a, path_empty).working == m.working,
{
}

/// A villager walks to the end of its way, walks on when it has rested, looks
/// for company while it rests, and ends a chat or a wave when its time is over.
pub proof fn law_villagers_act_by_their_state(
    state: PasserState,
    path_empty: bool,
    timer_done: bool,
)
    ensures
        human_acts(state, path_empty, timer_done) is EndWalk <==> state == PasserState::Walk
            && path_empty,
        human_acts(state, path_empty, timer_done) is GoOn <==> state == PasserState::Walk
            && !path_empty,
        human_acts(state, path_empty, timer_done) is SeekPlace <==> state == PasserState::Idle
            && timer_done,
        human_acts(state, path_empty, timer_done) is LookForCompany <==> state
            == PasserState::Idle && !timer_done,
        human_acts(state, path_empty, timer_done) is EndChat <==> state == PasserState::Chat
            && timer_done,
        human_acts(state, path_empty, timer_done) is EndWave <==> state == PasserState::Wave
            && timer_done,
{
}

/// A villager chats exactly where it found company on looking for it, walks
/// exactly where it found a place or has way left, and a clock starts anew
/// whenever it begins something that takes time.
pub proof fn law_villagers_chat_in_company(state: PasserState, a: HumanAction, o: HumanOutcome)
    ensures
        (a is EndWalk || a is LookForCompany) && o.company ==> human_state_after(state, a, o).0
            == PasserState::Chat && human_state_after(state, a, o).1 is Some,
        a is EndWalk && !o.company ==> human_state_after(state, a, o) == (
            PasserState::Idle,
            Some(a->EndWalk_0),
        ),
        a is LookForCompany && !o.company ==> human_state_after(state, a, o) == (
            state,
            None::<Pause>,
        ),
        a is SeekPlace ==> (human_state_after(state, a, o).0 == PasserState::Walk
            <==> !o.path_empty) && human_state_after(state, a, o).1 is Some,
        a is SeekPlace && o.path_empty ==> human_state_after(state, a, o).0 == PasserState::Idle,
        a is GoOn && !o.path_empty ==> human_state_after(state, a, o) == (state, None::<Pause>),
        a is GoOn && o.path_empty ==> human_state_after(state, a, o).0 == PasserState::Idle
            && human_state_after(state, a, o).1 is Some,
        a is EndChat ==> human_state_after(state, a, o) == (
            PasserState::Idle,
            Some(a->EndChat_0),
        ),
        a is EndWave ==> human_state_after(state, a, o) == (PasserState::Idle, None::<Pause>),
        a is Nothing ==> human_state_after(state, a, o) == (state, None::<Pause>),
{
}

/// A spirit that sparkles does so until its time is over; any other follows
/// company that is far and rests by company that is near; alone it hops when
/// its time is over, and rests when the hop is.
pub proof fn law_spirits_follow_company(state: PasserState, s: SpiritSense)
    ensures
        state == PasserState::Sparkle ==> (spirit_next(state, s).0 == PasserState::Sparkle
            <==> !s.timer_done) && spirit_next(state, s).1 is None,
        state == PasserState::Sparkle && s.timer_done ==> spirit_next(state, s).0
            == PasserState::Idle,
        state != PasserState::Sparkle && s.company == Some(true) ==> spirit_next(state, s) == (
            PasserState::Follow,
            None::<Pause>,
        ),
        state != PasserState::Sparkle && s.company == Some(false) ==> spirit_next(state, s) == (
            PasserState::Idle,
            None::<Pause>,
        ),
        state != PasserState::Sparkle && s.company is None && s.timer_done ==> spirit_next(
            state,
            s,
        ).0 == PasserState::Hop && spirit_next(state, s).1 is Some,
        state == PasserState::Hop && s.company is None && !s.timer_done && s.hop_done
            ==> spirit_next(state, s) == (PasserState::Idle, None::<Pause>),
        state != PasserState::Sparkle && s.company is None && !s.timer_done && !(state
            == PasserState::Hop && s.hop_done) ==> spirit_next(state, s) == (state, None::<Pause>),
{
}

} // verus!
