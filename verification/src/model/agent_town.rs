//! The people of the agent town: the agents of the roster as inhabitants, and
//! what inhabitants and passers-by decide to do next.

use vstd::prelude::*;

use crate::model::agent_roster::{AgentRosterEntry, EntryView, entry_views};
use crate::model::town_grid::TILES;
use crate::model::town_map::{
    bare_ground, town_ground, with_buildings, with_gardens, with_trees,
};
use crate::model::town_rng::{Rng, next_draw};
use crate::text::same;
use crate::wire::SessionId;

verus! {

/// A season of the town.
#[derive(Debug, Clone, Copy, PartialEq, Eq, Structural)]
pub enum SeasonKind {
    Spring,
    Summer,
    Autumn,
    Winter,
}

/// What falls from the sky.
#[derive(Debug, Clone, Copy, PartialEq, Eq, Structural)]
pub enum ParticleKind {
    Petal,
    Rain,
    Leaf,
    Snow,
}

impl SeasonKind {
    /// Name of the season.
    pub fn name(&self) -> (r: &'static str)
        ensures
            r@ == match *self {
                SeasonKind::Spring => "春"@,
                SeasonKind::Summer => "夏"@,
                SeasonKind::Autumn => "秋"@,
                SeasonKind::Winter => "冬"@,
            },
    {
        match self {
            SeasonKind::Spring => "春",
            SeasonKind::Summer => "夏",
            SeasonKind::Autumn => "秋",
            SeasonKind::Winter => "冬",
        }
    }

    /// Sign of the season.
    pub fn emoji(&self) -> (r: &'static str)
        ensures
            r@ == match *self {
                SeasonKind::Spring => "🌸"@,
                SeasonKind::Summer => "☀️"@,
                SeasonKind::Autumn => "🍂"@,
                SeasonKind::Winter => "❄️"@,
            },
    {
        match self {
            SeasonKind::Spring => "🌸",
            SeasonKind::Summer => "☀️",
            SeasonKind::Autumn => "🍂",
            SeasonKind::Winter => "❄️",
        }
    }

    /// What falls from the sky in the season.
    pub fn particle(&self) -> (r: ParticleKind)
        ensures
            r == match *self {
                SeasonKind::Spring => ParticleKind::Petal,
                SeasonKind::Summer => ParticleKind::Rain,
                SeasonKind::Autumn => ParticleKind::Leaf,
                SeasonKind::Winter => ParticleKind::Snow,
            },
    {
        match self {
            SeasonKind::Spring => ParticleKind::Petal,
            SeasonKind::Summer => ParticleKind::Rain,
            SeasonKind::Autumn => ParticleKind::Leaf,
            SeasonKind::Winter => ParticleKind::Snow,
        }
    }
}

/// The season with a number, counted from spring.
pub open spec fn season_number(n: int) -> SeasonKind {
    if n % 4 == 0 {
        SeasonKind::Spring
    } else if n % 4 == 1 {
        SeasonKind::Summer
    } else if n % 4 == 2 {
        SeasonKind::Autumn
    } else {
        SeasonKind::Winter
    }
}

/// Season of a day: each lasts eight days; days before the first are spring.
pub fn season_of_day(day: i64) -> (r: SeasonKind)
    ensures
        r == if day < 0 {
            SeasonKind::Spring
        } else {
            season_number(day as int / 8)
        },
{
    if day < 0 {
        return SeasonKind::Spring;
    }
    let n: i64 = (day / 8) % 4;
    if n == 0 {
        SeasonKind::Spring
    } else if n == 1 {
        SeasonKind::Summer
    } else if n == 2 {
        SeasonKind::Autumn
    } else {
        SeasonKind::Winter
    }
}

/// Name of the part of a day, by the minutes since midnight.
pub fn phase_name(min: i64) -> (r: &'static str)
    ensures
        r@ == if min < 330 || min >= 1170 {
            "深夜"@
        } else if min < 450 {
            "清晨"@
        } else if min < 1050 {
            "白天"@
        } else {
            "黄昏"@
        },
{
    if min < 330 || min >= 1170 {
        "深夜"
    } else if min < 450 {
        "清晨"
    } else if min < 1050 {
        "白天"
    } else {
        "黄昏"
    }
}

/// Number of colours of clothes.
pub const PALETTE_COUNT: usize = 10;

/// Number of colours of scarves and hats.
pub const SCARF_COUNT: usize = 8;

/// Number of colours of hair.
pub const HAIR_COUNT: usize = 5;

/// Number of colours of trousers.
pub const PANTS_COUNT: usize = 5;

/// Number of colours of shoes.
pub const SHOE_COUNT: usize = 4;

/// What an inhabitant is doing.
#[derive(Debug, Clone, Copy, PartialEq, Eq, Structural)]
pub enum NpcState {
    Idle,
    Walk,
    ToWork,
    Working,
}

impl NpcState {
    /// The words for what an inhabitant is doing.
    pub fn action_text(&self) -> (r: &'static str)
        ensures
            r@ == match *self {
                NpcState::Working => "正在工位"@,
                NpcState::ToWork => "前往工位"@,
                NpcState::Walk => "小镇游走"@,
                NpcState::Idle => "空闲"@,
            },
    {
        match self {
            NpcState::Working => "正在工位",
            NpcState::ToWork => "前往工位",
            NpcState::Walk => "小镇游走",
            NpcState::Idle => "空闲",
        }
    }
}

/// How an inhabitant looks, as numbers of colours.
#[derive(Debug, Clone, Copy, PartialEq, Eq, Structural)]
pub struct Looks {
    pub palette: usize,
    pub hat_style: usize,
    pub scarf_color: usize,
    pub hat_color: usize,
    pub hair_color: usize,
    pub pants_color: usize,
    pub shoe_color: usize,
}

/// An agent as an inhabitant of the town.
#[derive(Debug)]
pub struct TownNpc {
    pub sid: SessionId,
    /// Stage of the agent's work.
    pub key: String,
    pub entry: AgentRosterEntry,
    pub working: bool,
    pub cheering: bool,
    /// Whether the way to the agent's station was planned.
    pub assigned: bool,
    pub state: NpcState,
    pub looks: Looks,
}

/// An inhabitant, with texts as characters.
#[verifier::ext_equal]
pub struct NpcView {
    pub sid: Seq<char>,
    pub key: Seq<char>,
    pub entry: EntryView,
    pub working: bool,
    pub cheering: bool,
    pub assigned: bool,
    pub state: NpcState,
    pub looks: Looks,
}

impl View for TownNpc {
    type V = NpcView;

    open spec fn view(&self) -> NpcView {
        NpcView {
            sid: self.sid@,
            key: self.key@,
            entry: self.entry@,
            working: self.working,
            cheering: self.cheering,
            assigned: self.assigned,
            state: self.state,
            looks: self.looks,
        }
    }
}

impl Clone for TownNpc {
    fn clone(&self) -> (r: Self)
        ensures
            r@ == self@,
    {
        TownNpc {
            sid: self.sid.clone(),
            key: self.key.clone(),
            entry: self.entry.clone(),
            working: self.working,
            cheering: self.cheering,
            assigned: self.assigned,
            state: self.state,
            looks: self.looks,
        }
    }
}

/// The views of a list of inhabitants.
pub open spec fn npc_views(v: Seq<TownNpc>) -> Seq<NpcView> {
    v.map_values(|n: TownNpc| n@)
}

/// `n` draws after `x`.
pub open spec fn draw(x: u64, n: nat) -> u64
    decreases n,
{
    if n == 0 {
        x
    } else {
        next_draw(draw(x, (n - 1) as nat))
    }
}

/// The looks that seven draws after `x` give.
pub open spec fn looks_after(x: u64) -> Looks {
    Looks {
        palette: (draw(x, 1) % 10) as usize,
        hat_style: (draw(x, 2) % 3) as usize,
        scarf_color: (draw(x, 3) % 8) as usize,
        hat_color: (draw(x, 4) % 8) as usize,
        hair_color: (draw(x, 5) % 5) as usize,
        pants_color: (draw(x, 6) % 5) as usize,
        shoe_color: (draw(x, 7) % 4) as usize,
    }
}

/// Draws the looks of an inhabitant.
fn draw_looks(rng: &mut Rng) -> (r: Looks)
    ensures
        r == looks_after(old(rng).0),
        final(rng).0 == draw(old(rng).0, 7),
{
    proof {
        reveal_with_fuel(draw, 8);
    }
    let palette: usize = rng.usize(PALETTE_COUNT);
    let hat_style: usize = rng.usize(3);
    let scarf_color: usize = rng.usize(SCARF_COUNT);
    let hat_color: usize = rng.usize(SCARF_COUNT);
    let hair_color: usize = rng.usize(HAIR_COUNT);
    let pants_color: usize = rng.usize(PANTS_COUNT);
    let shoe_color: usize = rng.usize(SHOE_COUNT);
    Looks { palette, hat_style, scarf_color, hat_color, hair_color, pants_color, shoe_color }
}

/// Place of the first inhabitant of a session; the length where there is none.
pub open spec fn npc_index(v: Seq<NpcView>, sid: Seq<char>) -> nat
    decreases v.len(),
{
    if v.len() == 0 || v[0].sid == sid {
        0
    } else {
        1 + npc_index(v.skip(1), sid)
    }
}

proof fn lemma_npc_index(v: Seq<NpcView>, sid: Seq<char>, i: int)
    requires
        0 <= i <= v.len(),
        forall|j: int| 0 <= j < i ==> #[trigger] v[j].sid != sid,
        i < v.len() ==> v[i].sid == sid,
    ensures
        npc_index(v, sid) == i,
    decreases v.len(),
{
    if i > 0 {
        assert(v[0].sid != sid);
        assert forall|j: int| 0 <= j < i - 1 implies #[trigger] v.skip(1)[j].sid != sid by {
            assert(v[j + 1].sid != sid);
        }
        lemma_npc_index(v.skip(1), sid, i - 1);
    }
}

proof fn lemma_npc_found(v: Seq<NpcView>, sid: Seq<char>)
    ensures
        npc_index(v, sid) <= v.len(),
        npc_index(v, sid) < v.len() ==> v[npc_index(v, sid) as int].sid == sid,
        forall|j: int| 0 <= j < npc_index(v, sid) ==> #[trigger] v[j].sid != sid,
    decreases v.len(),
{
    if v.len() > 0 && v[0].sid != sid {
        let rest = v.skip(1);
        lemma_npc_found(rest, sid);
        assert forall|j: int| 0 <= j < npc_index(v, sid) implies #[trigger] v[j].sid != sid by {
            if j > 0 {
                assert(rest[j - 1].sid != sid);
            }
        }
    }
}

/// An agent that comes to town.
pub open spec fn newcomer(e: EntryView, looks: Looks) -> NpcView {
    NpcView {
        sid: e.session_id,
        key: e.stage_key(),
        entry: e,
        working: false,
        cheering: false,
        assigned: false,
        state: NpcState::Idle,
        looks,
    }
}

/// An inhabitant after a report on it: a new stage asks for a new way to work.
pub open spec fn reported(n: NpcView, e: EntryView) -> NpcView {
    NpcView {
        key: e.stage_key(),
        assigned: n.assigned && n.key == e.stage_key(),
        entry: e,
        ..n
    }
}

/// The inhabitants and the random source after the first `n` reports.
pub open spec fn synced(v: Seq<NpcView>, rng: u64, es: Seq<EntryView>, n: nat) -> (
    Seq<NpcView>,
    u64,
)
    decreases n,
{
    if n == 0 {
        (v, rng)
    } else {
        let before = synced(v, rng, es, (n - 1) as nat);
        let e = es[n - 1];
        let i = npc_index(before.0, e.session_id);
        if i < before.0.len() {
            (before.0.update(i as int, reported(before.0[i as int], e)), before.1)
        } else {
            (before.0.push(newcomer(e, looks_after(before.1))), draw(before.1, 7))
        }
    }
}

/// Whether a session is among the reports.
pub open spec fn reports_on(es: Seq<EntryView>, sid: Seq<char>) -> bool {
    exists|i: int| 0 <= i < es.len() && (#[trigger] es[i]).session_id == sid
}

/// The inhabitants after a poll: those that are gone have left.
pub open spec fn after_sync(v: Seq<NpcView>, rng: u64, es: Seq<EntryView>) -> Seq<NpcView> {
    synced(v, rng, es, es.len()).0.filter(|n: NpcView| reports_on(es, n.sid))
}

/// Whether no session has two inhabitants.
pub open spec fn one_each(v: Seq<NpcView>) -> bool {
    forall|i: int, j: int|
        0 <= i < j < v.len() ==> (#[trigger] v[i]).sid != (#[trigger] v[j]).sid
}

/// The town: its ground, its inhabitants and its random source.
#[derive(Debug)]
pub struct TownScene {
    pub walk_grid: Vec<u8>,
    pub npcs: Vec<TownNpc>,
    pub rng: Rng,
}

impl TownScene {
    /// A town without inhabitants.
    pub fn new(seed: u64) -> (r: TownScene)
        ensures
            r.walk_grid@ == with_trees(
                with_gardens(with_buildings(bare_ground(), 21), 7),
                35,
            ),
            r.walk_grid@.len() == TILES,
            r.npcs@.len() == 0,
            r.rng.0 == if seed == 0 {
                1
            } else {
                seed
            },
    {
        TownScene { walk_grid: town_ground(), npcs: Vec::new(), rng: Rng::new(seed) }
    }

    fn position(&self, sid: &str) -> (r: usize)
        ensures
            r == npc_index(npc_views(self.npcs@), sid@),
            r <= self.npcs@.len(),
    {
        let ghost v = npc_views(self.npcs@);
        let mut i: usize = 0;
        while i < self.npcs.len()
            invariant
                i <= self.npcs@.len(),
                v == npc_views(self.npcs@),
                forall|j: int| 0 <= j < i ==> #[trigger] v[j].sid != sid@,
            decreases self.npcs@.len() - i,
        {
            if same(self.npcs[i].sid.0.as_str(), sid) {
                proof {
                    lemma_npc_index(v, sid@, i as int);
                }
                return i;
            }
            assert(v[i as int].sid != sid@);
            i = i + 1;
        }
        proof {
            lemma_npc_index(v, sid@, i as int);
        }
        i
    }

    /// Brings the inhabitants in line with a poll of the roster: a new session
    /// comes to town, a known one is updated in its place, one that is gone
    /// leaves.
    pub fn sync_agents(&mut self, entries: &[AgentRosterEntry])
        ensures
            npc_views(final(self).npcs@) == after_sync(
                npc_views(old(self).npcs@),
                old(self).rng.0,
                entry_views(entries@),
            ),
            final(self).rng.0 == synced(
                npc_views(old(self).npcs@),
                old(self).rng.0,
                entry_views(entries@),
                entries@.len(),
            ).1,
            final(self).walk_grid == old(self).walk_grid,
    {
        let ghost v = npc_views(self.npcs@);
        let ghost x = self.rng.0;
        let ghost es = entry_views(entries@);
        let mut i: usize = 0;
        while i < entries.len()
            invariant
                i <= entries@.len(),
                es == entry_views(entries@),
                self.walk_grid == old(self).walk_grid,
                (npc_views(self.npcs@), self.rng.0) == synced(v, x, es, i as nat),
            decreases entries@.len() - i,
        {
            let ghost before = npc_views(self.npcs@);
            let e = &entries[i];
            assert(es[i as int] == e@);
            let at: usize = self.position(e.session_id.0.as_str());
            let key = e.stage_key();
            if at < self.npcs.len() {
                let mut npc = self.npcs[at].clone();
                if !same(npc.key.as_str(), key) {
                    npc.key = key.to_owned();
                    npc.assigned = false;
                }
                npc.entry = e.clone();
                assert(npc@ =~= reported(before[at as int], e@));
                let ghost now = npc@;
                self.npcs.set(at, npc);
                assert(npc_views(self.npcs@) =~= before.update(at as int, now));
            } else {
                let looks = draw_looks(&mut self.rng);
                let npc = TownNpc {
                    sid: e.session_id.clone(),
                    key: key.to_owned(),
                    entry: e.clone(),
                    working: false,
                    cheering: false,
                    assigned: false,
                    state: NpcState::Idle,
                    looks,
                };
                assert(npc@ =~= newcomer(e@, looks));
                let ghost now = npc@;
                self.npcs.push(npc);
                assert(npc_views(self.npcs@) =~= before.push(now));
            }
            i = i + 1;
        }
        let ghost all = npc_views(self.npcs@);
        let ghost p = |n: NpcView| reports_on(es, n.sid);
        let mut kept: Vec<TownNpc> = Vec::new();
        let mut k: usize = 0;
        while k < self.npcs.len()
            invariant
                k <= self.npcs@.len(),
                es == entry_views(entries@),
                all == npc_views(self.npcs@),
                self.walk_grid == old(self).walk_grid,
                self.rng.0 == synced(v, x, es, es.len()).1,
                p == (|n: NpcView| reports_on(es, n.sid)),
                npc_views(kept@) == all.take(k as int).filter(p),
            decreases self.npcs@.len() - k,
        {
            reveal(Seq::filter);
            assert(all.take(k + 1).drop_last() =~= all.take(k as int));
            let ghost before = npc_views(kept@);
            if is_reported(entries, self.npcs[k].sid.0.as_str()) {
                let n = self.npcs[k].clone();
                kept.push(n);
                assert(npc_views(kept@) =~= before.push(all[k as int]));
            }
            k = k + 1;
        }
        assert(all.take(k as int) =~= all);
        self.npcs = kept;
    }

    /// The inhabitant of a session.
    pub fn npc(&self, sid: &SessionId) -> (r: Option<&TownNpc>)
        ensures
            match r {
                Some(n) => npc_index(npc_views(self.npcs@), sid@) < self.npcs@.len() && *n
                    == self.npcs@[npc_index(npc_views(self.npcs@), sid@) as int],
                None => npc_index(npc_views(self.npcs@), sid@) >= self.npcs@.len(),
            },
    {
        let i: usize = self.position(sid.0.as_str());
        if i < self.npcs.len() {
            Some(&self.npcs[i])
        } else {
            None
        }
    }

    /// The inhabitant of a session, to change it.
    pub fn npc_mut(&mut self, sid: &SessionId) -> (r: Option<&mut TownNpc>)
        ensures
            ({
                let k = npc_index(npc_views(old(self).npcs@), sid@);
                match r {
                    Some(n) => {
                        &&& k < old(self).npcs@.len()
                        &&& *n == old(self).npcs@[k as int]
                        &&& final(self).npcs@ == old(self).npcs@.update(k as int, *final(n))
                        &&& final(self).walk_grid == old(self).walk_grid
                        &&& final(self).rng == old(self).rng
                    },
                    None => k >= old(self).npcs@.len() && *final(self) == *old(self),
                }
            }),
    {
        let i: usize = self.position(sid.0.as_str());
        if i < self.npcs.len() {
            let n = &mut self.npcs[i];
            Some(n)
        } else {
            None
        }
    }

    /// Whether any agent lives in the town.
    pub fn has_agents(&self) -> (r: bool)
        ensures
            r == (self.npcs@.len() > 0),
    {
        self.npcs.len() > 0
    }
}

fn is_reported(entries: &[AgentRosterEntry], sid: &str) -> (r: bool)
    ensures
        r == reports_on(entry_views(entries@), sid@),
{
    let ghost es = entry_views(entries@);
    let mut i: usize = 0;
    while i < entries.len()
        invariant
            i <= entries@.len(),
            es == entry_views(entries@),
            forall|j: int| 0 <= j < i ==> (#[trigger] es[j]).session_id != sid@,
        decreases entries@.len() - i,
    {
        if same(entries[i].session_id.0.as_str(), sid) {
            assert(es[i as int].session_id == sid@);
            return true;
        }
        assert(es[i as int].session_id != sid@);
        i = i + 1;
    }
    false
}

/// Reports keep one inhabitant for each session.
proof fn lemma_synced_one_each(v: Seq<NpcView>, rng: u64, es: Seq<EntryView>, n: nat)
    requires
        one_each(v),
        n <= es.len(),
    ensures
        one_each(synced(v, rng, es, n).0),
    decreases n,
{
    if n > 0 {
        lemma_synced_one_each(v, rng, es, (n - 1) as nat);
        lemma_npc_found(synced(v, rng, es, (n - 1) as nat).0, es[n - 1].session_id);
    }
}

proof fn lemma_filter_one_each(v: Seq<NpcView>, p: spec_fn(NpcView) -> bool)
    requires
        one_each(v),
    ensures
        one_each(v.filter(p)),
        forall|i: int| 0 <= i < v.filter(p).len() ==> v.contains(#[trigger] v.filter(p)[i]),
        forall|i: int| 0 <= i < v.len() && p(#[trigger] v[i]) ==> v.filter(p).contains(v[i]),
        forall|i: int| 0 <= i < v.filter(p).len() ==> p(#[trigger] v.filter(p)[i]),
    decreases v.len(),
{
    reveal(Seq::filter);
    if v.len() > 0 {
        let r = v.drop_last();
        let fr = r.filter(p);
        let f = v.filter(p);
        assert forall|i: int, j: int| 0 <= i < j < r.len() implies (#[trigger] r[i]).sid != (
        #[trigger] r[j]).sid by {
            assert(v[i].sid != v[j].sid);
        }
        lemma_filter_one_each(r, p);
        assert forall|i: int| 0 <= i < f.len() implies v.contains(#[trigger] f[i]) by {
            if i < fr.len() {
                assert(r.contains(fr[i]));
                let k = choose|k: int| 0 <= k < r.len() && r[k] == fr[i];
                assert(v[k] == f[i]);
            } else {
                assert(v[v.len() - 1] == f[i]);
            }
        }
        assert forall|i: int| 0 <= i < v.len() && p(#[trigger] v[i]) implies f.contains(v[i]) by {
            if i < r.len() {
                assert(r[i] == v[i]);
                assert(fr.contains(r[i]));
                let k = choose|k: int| 0 <= k < fr.len() && fr[k] == r[i];
                assert(f[k] == v[i]);
            } else {
                assert(f[f.len() - 1] == v[i]);
            }
        }
        assert forall|i: int, j: int| 0 <= i < j < f.len() implies (#[trigger] f[i]).sid != (
        #[trigger] f[j]).sid by {
            if j < fr.len() {
                assert(fr[i].sid != fr[j].sid);
            } else {
                assert(r.contains(fr[i]));
                let k = choose|k: int| 0 <= k < r.len() && r[k] == fr[i];
                assert(v[k].sid != v[v.len() - 1].sid);
            }
        }
    }
}

proof fn lemma_reported_present(v: Seq<NpcView>, rng: u64, es: Seq<EntryView>, n: nat, i: int)
    requires
        0 <= i < n <= es.len(),
    ensures
        exists|k: int|
            0 <= k < synced(v, rng, es, n).0.len() && (#[trigger] synced(v, rng, es, n).0[k]).sid
                == es[i].session_id,
    decreases n,
{
    let before = synced(v, rng, es, (n - 1) as nat).0;
    let after = synced(v, rng, es, n).0;
    lemma_npc_found(before, es[n - 1].session_id);
    let at = npc_index(before, es[n - 1].session_id);
    if i < n - 1 {
        lemma_reported_present(v, rng, es, (n - 1) as nat, i);
        let k = choose|k: int|
            0 <= k < before.len() && (#[trigger] before[k]).sid == es[i].session_id;
        assert(after[k].sid == es[i].session_id);
    } else {
        assert(after[at as int].sid == es[i].session_id);
    }
}

/// After a poll the town has exactly one inhabitant for each reported session
/// and none besides.
pub proof fn law_town_mirrors_roster(v: Seq<NpcView>, rng: u64, es: Seq<EntryView>, sid: Seq<char>)
    requires
        one_each(v),
    ensures
        one_each(after_sync(v, rng, es)),
        reports_on(es, sid) <==> exists|k: int|
            0 <= k < after_sync(v, rng, es).len() && (#[trigger] after_sync(v, rng, es)[k]).sid
                == sid,
{
    let all = synced(v, rng, es, es.len()).0;
    let p = |n: NpcView| reports_on(es, n.sid);
    lemma_synced_one_each(v, rng, es, es.len());
    lemma_filter_one_each(all, p);
    if reports_on(es, sid) {
        let i = choose|i: int| 0 <= i < es.len() && (#[trigger] es[i]).session_id == sid;
        lemma_reported_present(v, rng, es, es.len(), i);
        let k = choose|k: int| 0 <= k < all.len() && (#[trigger] all[k]).sid == sid;
        assert(p(all[k]));
        assert(all.filter(p).contains(all[k]));
    }
}

/// Reports on agents that all live in the town draw nothing and move nobody
/// in or out.
pub proof fn law_known_agents_stay(v: Seq<NpcView>, rng: u64, es: Seq<EntryView>, n: nat)
    requires
        n <= es.len(),
        forall|i: int|
            0 <= i < es.len() ==> npc_index(v, (#[trigger] es[i]).session_id) < v.len(),
    ensures
        synced(v, rng, es, n).1 == rng,
        synced(v, rng, es, n).0.len() == v.len(),
        forall|k: int|
            0 <= k < v.len() ==> (#[trigger] synced(v, rng, es, n).0[k]).sid == v[k].sid && synced(
                v,
                rng,
                es,
                n,
            ).0[k].looks == v[k].looks,
    decreases n,
{
    if n > 0 {
        law_known_agents_stay(v, rng, es, (n - 1) as nat);
        let before = synced(v, rng, es, (n - 1) as nat).0;
        let sid = es[n - 1].session_id;
        lemma_npc_found(v, sid);
        lemma_npc_found(before, sid);
        let k = npc_index(v, sid);
        assert(before[k as int].sid == sid);
        assert(npc_index(before, sid) < before.len());
    }
}

/// The seasons follow each other from spring on, and begin anew after winter.
pub proof fn law_seasons_follow_each_other(n: int)
    ensures
        season_number(n) == SeasonKind::Spring ==> season_number(n + 1) == SeasonKind::Summer,
        season_number(n) == SeasonKind::Summer ==> season_number(n + 1) == SeasonKind::Autumn,
        season_number(n) == SeasonKind::Autumn ==> season_number(n + 1) == SeasonKind::Winter,
        season_number(n) == SeasonKind::Winter ==> season_number(n + 1) == SeasonKind::Spring,
        season_number(4 * n) == SeasonKind::Spring,
{
}

/// Looks are numbers of colours that there are, each from a draw of its own.
pub proof fn law_looks_are_among_the_colours(x: u64)
    ensures
        looks_after(x).palette < PALETTE_COUNT,
        looks_after(x).hat_style < 3,
        looks_after(x).scarf_color < SCARF_COUNT,
        looks_after(x).hat_color < SCARF_COUNT,
        looks_after(x).hair_color < HAIR_COUNT,
        looks_after(x).pants_color < PANTS_COUNT,
        looks_after(x).shoe_color < SHOE_COUNT,
        looks_after(x).palette == draw(x, 1) % 10,
        looks_after(x).hat_style == draw(x, 2) % 3,
        looks_after(x).scarf_color == draw(x, 3) % 8,
        looks_after(x).hat_color == draw(x, 4) % 8,
        looks_after(x).hair_color == draw(x, 5) % 5,
        looks_after(x).pants_color == draw(x, 6) % 5,
        looks_after(x).shoe_color == draw(x, 7) % 4,
{
}

/// Draws follow each other: more draws go on from where fewer end.
pub proof fn law_draws_follow_each_other(x: u64, m: nat, n: nat)
    ensures
        draw(x, 0) == x,
        draw(x, 1) == next_draw(x),
        draw(x, m + n) == draw(draw(x, m), n),
    decreases n,
{
    assert(draw(x, 1) == next_draw(draw(x, 0)));
    if n > 0 {
        law_draws_follow_each_other(x, m, (n - 1) as nat);
        assert((m + n - 1) as nat == m + (n - 1) as nat);
    }
}

/// The inhabitant of a session is the first that has it; where none has, there
/// is none.
pub proof fn law_inhabitants_are_found_by_session(v: Seq<NpcView>, sid: Seq<char>, i: int)
    ensures
        0 <= i < v.len() && v[i].sid == sid && (forall|j: int|
            0 <= j < i ==> #[trigger] v[j].sid != sid) ==> npc_index(v, sid) == i,
        (forall|j: int| 0 <= j < v.len() ==> #[trigger] v[j].sid != sid) ==> npc_index(v, sid)
            == v.len(),
{
    if 0 <= i < v.len() && v[i].sid == sid && (forall|j: int|
        0 <= j < i ==> #[trigger] v[j].sid != sid) {
        lemma_npc_index(v, sid, i);
    }
    if forall|j: int| 0 <= j < v.len() ==> #[trigger] v[j].sid != sid {
        lemma_npc_index(v, sid, v.len() as int);
    }
}

/// A report renews what is known of an inhabitant and nothing of its person; a
/// new stage asks for a new way to work. A newcomer is at rest.
pub proof fn law_reports_renew_what_is_known(n: NpcView, e: EntryView, looks: Looks)
    ensures
        reported(n, e).entry == e,
        reported(n, e).key == e.stage_key(),
        reported(n, e).sid == n.sid,
        reported(n, e).looks == n.looks,
        reported(n, e).state == n.state,
        reported(n, e).working == n.working,
        reported(n, e).cheering == n.cheering,
        reported(n, e).assigned <==> n.assigned && n.key == e.stage_key(),
        newcomer(e, looks).sid == e.session_id,
        newcomer(e, looks).key == e.stage_key(),
        newcomer(e, looks).entry == e,
        newcomer(e, looks).looks == looks,
        newcomer(e, looks).state == NpcState::Idle,
        !newcomer(e, looks).working,
        !newcomer(e, looks).cheering,
        !newcomer(e, looks).assigned,
{
}

proof fn lemma_last_report(v: Seq<NpcView>, rng: u64, es: Seq<EntryView>, n: nat, i: int, k: int)
    requires
        one_each(v),
        0 <= i < n <= es.len(),
        forall|j: int| i < j < n ==> (#[trigger] es[j]).session_id != es[i].session_id,
        0 <= k < synced(v, rng, es, n).0.len(),
        synced(v, rng, es, n).0[k].sid == es[i].session_id,
    ensures
        synced(v, rng, es, n).0[k].entry == es[i],
        synced(v, rng, es, n).0[k].key == es[i].stage_key(),
    decreases n,
{
    let before = synced(v, rng, es, (n - 1) as nat).0;
    let e = es[n - 1];
    lemma_synced_one_each(v, rng, es, n);
    lemma_npc_found(before, e.session_id);
    let at = npc_index(before, e.session_id) as int;
    let now = synced(v, rng, es, n).0;
    if i == n - 1 {
        if at < before.len() {
            assert(now[at].sid == e.session_id);
            assert(k == at);
        } else {
            assert(k == before.len()) by {
                if k < before.len() {
                    assert(before[k].sid != e.session_id);
                }
            }
        }
    } else {
        assert(e.session_id != es[i].session_id);
        assert(k != at);
        assert(now[k] == before[k]);
        lemma_last_report(v, rng, es, (n - 1) as nat, i, k);
    }
}

/// After a poll every inhabitant is known by the last report on its session.
pub proof fn law_last_report_counts(
    v: Seq<NpcView>,
    rng: u64,
    es: Seq<EntryView>,
    i: int,
    k: int,
)
    requires
        one_each(v),
        0 <= i < es.len(),
        forall|j: int| i < j < es.len() ==> (#[trigger] es[j]).session_id != es[i].session_id,
        0 <= k < after_sync(v, rng, es).len(),
        after_sync(v, rng, es)[k].sid == es[i].session_id,
    ensures
        after_sync(v, rng, es)[k].entry == es[i],
        after_sync(v, rng, es)[k].key == es[i].stage_key(),
{
    let all = synced(v, rng, es, es.len()).0;
    lemma_synced_one_each(v, rng, es, es.len());
    lemma_filter_one_each(all, |n: NpcView| reports_on(es, n.sid));
    assert(all.contains(after_sync(v, rng, es)[k]));
    let j = choose|j: int| 0 <= j < all.len() && all[j] == after_sync(v, rng, es)[k];
    lemma_last_report(v, rng, es, es.len(), i, j);
}

} // verus!
