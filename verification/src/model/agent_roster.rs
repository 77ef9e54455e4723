//! The roster of agents: what a poll of the server says of each, and how one
//! poll is merged into the last.

use vstd::prelude::*;

use crate::text::{
    before, before_char, cat, chars_of, copy_opt, dec, decimal, has_prefix, matches_at, opt_text,
    same, same_opt, text_of, trim, trimmed, whitespace,
};
use crate::text_laws::law_parts_of_texts;
use crate::wire::SessionId;

verus! {

/// Whether an agent rests or works.
#[derive(Debug, Clone, Copy, PartialEq, Eq, Structural)]
pub enum AgentStatus {
    Idle,
    Working,
}

impl AgentStatus {
    /// Reads the word of the server; any word but `idle` is work.
    pub fn from_wire(v: &str) -> (r: AgentStatus)
        ensures
            r == status_of(v@),
    {
        if same(v, "idle") {
            AgentStatus::Idle
        } else {
            AgentStatus::Working
        }
    }

    /// The word for a status.
    pub fn as_str(&self) -> (r: &'static str)
        ensures
            r@ == match *self {
                AgentStatus::Idle => "idle"@,
                AgentStatus::Working => "working"@,
            },
    {
        match self {
            AgentStatus::Idle => "idle",
            AgentStatus::Working => "working",
        }
    }
}

/// The status that a word stands for.
pub open spec fn status_of(v: Seq<char>) -> AgentStatus {
    if v == "idle"@ {
        AgentStatus::Idle
    } else {
        AgentStatus::Working
    }
}

/// What an agent is; an unknown word counts as a session.
#[derive(Debug, Clone, Copy, PartialEq, Eq, Structural)]
pub enum AgentKind {
    Subagent,
    Task,
    Session,
}

/// The kind that a word stands for.
pub open spec fn kind_of(v: Seq<char>) -> AgentKind {
    if v == "subagent"@ {
        AgentKind::Subagent
    } else if v == "task"@ {
        AgentKind::Task
    } else {
        AgentKind::Session
    }
}

impl AgentKind {
    /// Reads the word of the server.
    pub fn from_wire(v: &str) -> (r: AgentKind)
        ensures
            r == kind_of(v@),
    {
        if same(v, "subagent") {
            AgentKind::Subagent
        } else if same(v, "task") {
            AgentKind::Task
        } else {
            AgentKind::Session
        }
    }
}

/// An agent as the server reports it.
#[derive(Debug, Clone)]
pub struct WireAgent {
    pub session_id: String,
    pub phase: String,
    pub task: String,
    pub project: String,
    pub task_id: String,
    pub status: String,
    pub task_status: String,
    pub elapsed: i64,
    pub last_event_at: i64,
    pub seq: i64,
    pub label: String,
    pub kind: String,
    pub parent_session_id: String,
    pub delegation_depth: i32,
    pub provider: String,
    pub model: String,
}

/// An agent of the roster.
#[derive(Debug)]
pub struct AgentRosterEntry {
    pub session_id: SessionId,
    pub phase: String,
    /// What the agent works on; its first line is shown.
    pub task: String,
    pub project: String,
    pub task_id: String,
    pub status: AgentStatus,
    /// Status of the task, which decides the stage first; may be empty.
    pub task_status: String,
    pub elapsed_sec: u64,
    pub last_event_at_ms: i64,
    pub seq: i64,
    pub label: String,
    pub kind: AgentKind,
    pub parent_session_id: Option<String>,
    pub delegation_depth: u32,
    pub provider: String,
    pub model: String,
}

/// An agent of the roster, with texts as characters.
#[verifier::ext_equal]
pub struct EntryView {
    pub session_id: Seq<char>,
    pub phase: Seq<char>,
    pub task: Seq<char>,
    pub project: Seq<char>,
    pub task_id: Seq<char>,
    pub status: AgentStatus,
    pub task_status: Seq<char>,
    pub elapsed_sec: u64,
    pub last_event_at_ms: i64,
    pub seq: i64,
    pub label: Seq<char>,
    pub kind: AgentKind,
    pub parent_session_id: Option<Seq<char>>,
    pub delegation_depth: u32,
    pub provider: Seq<char>,
    pub model: Seq<char>,
}

impl View for AgentRosterEntry {
    type V = EntryView;

    open spec fn view(&self) -> EntryView {
        EntryView {
            session_id: self.session_id@,
            phase: self.phase@,
            task: self.task@,
            project: self.project@,
            task_id: self.task_id@,
            status: self.status,
            task_status: self.task_status@,
            elapsed_sec: self.elapsed_sec,
            last_event_at_ms: self.last_event_at_ms,
            seq: self.seq,
            label: self.label@,
            kind: self.kind,
            parent_session_id: opt_text(self.parent_session_id),
            delegation_depth: self.delegation_depth,
            provider: self.provider@,
            model: self.model@,
        }
    }
}

/// The entry that a report stands for: negative durations and depths count as
/// zero, an empty parent as none.
pub open spec fn entry_of(w: WireAgent) -> EntryView {
    EntryView {
        session_id: w.session_id@,
        phase: w.phase@,
        task: w.task@,
        project: w.project@,
        task_id: w.task_id@,
        status: status_of(w.status@),
        task_status: w.task_status@,
        elapsed_sec: if w.elapsed < 0 {
            0
        } else {
            w.elapsed as u64
        },
        last_event_at_ms: w.last_event_at,
        seq: w.seq,
        label: w.label@,
        kind: kind_of(w.kind@),
        parent_session_id: if w.parent_session_id@.len() == 0 {
            None
        } else {
            Some(w.parent_session_id@)
        },
        delegation_depth: if w.delegation_depth < 0 {
            0
        } else {
            w.delegation_depth as u32
        },
        provider: w.provider@,
        model: w.model@,
    }
}

impl Clone for AgentRosterEntry {
    fn clone(&self) -> (r: Self)
        ensures
            r@ == self@,
    {
        AgentRosterEntry {
            session_id: self.session_id.clone(),
            phase: self.phase.clone(),
            task: self.task.clone(),
            project: self.project.clone(),
            task_id: self.task_id.clone(),
            status: self.status,
            task_status: self.task_status.clone(),
            elapsed_sec: self.elapsed_sec,
            last_event_at_ms: self.last_event_at_ms,
            seq: self.seq,
            label: self.label.clone(),
            kind: self.kind,
            parent_session_id: copy_opt(&self.parent_session_id),
            delegation_depth: self.delegation_depth,
            provider: self.provider.clone(),
            model: self.model.clone(),
        }
    }
}

/// The first line of a text, without the blanks around it.
pub open spec fn first_line(s: Seq<char>) -> Seq<char> {
    trimmed(before_char(s, '\n'))
}

/// The first line of a text, without the blanks around it.
pub fn first_line_of(s: &str) -> (r: String)
    ensures
        r@ == first_line(s@),
{
    let cs = chars_of(s);
    let line = before(&cs, '\n');
    let text = text_of(&line, 0, line.len());
    assert(line@.subrange(0, line@.len() as int) =~= line@);
    trim(text.as_str())
}

/// A text cut to its first `n` characters, with an ellipsis where it was cut.
pub open spec fn clipped(s: Seq<char>, n: int) -> Seq<char> {
    if s.len() > n {
        s.take(n) + "…"@
    } else {
        s
    }
}

/// The short form of a session's identity.
pub open spec fn short_id(sid: Seq<char>) -> Seq<char> {
    if sid.len() == 0 {
        "agent"@
    } else if has_prefix(sid, "session-"@) {
        head(sid.skip("session-"@.len() as int), 6)
    } else {
        head(sid, 6)
    }
}

/// The first `n` characters of a text, all of a shorter one.
pub open spec fn head(s: Seq<char>, n: int) -> Seq<char> {
    if s.len() > n {
        s.take(n)
    } else {
        s
    }
}

/// The short form of a session's identity: six characters behind `session-`.
pub fn short_session(sid: &str) -> (r: String)
    ensures
        r@ == short_id(sid@),
{
    let cs = chars_of(sid);
    if cs.len() == 0 {
        return "agent".to_owned();
    }
    let p = chars_of("session-");
    let from: usize = if matches_at(&cs, &p, 0) {
        p.len()
    } else {
        0
    };
    let left: usize = cs.len() - from;
    let to: usize = if left > 6 {
        from + 6
    } else {
        cs.len()
    };
    assert(cs@.subrange(from as int, to as int) =~= head(cs@.skip(from as int), 6));
    assert(cs@.skip(0) =~= cs@);
    text_of(&cs, from, to)
}

impl EntryView {
    /// The name under which an agent is shown: its label, else the first line
    /// of its task, else the short form of its session.
    pub open spec fn display_name(self) -> Seq<char> {
        if trimmed(self.label).len() > 0 {
            trimmed(self.label)
        } else if first_line(self.task).len() > 0 {
            clipped(first_line(self.task), 26)
        } else {
            short_id(self.session_id)
        }
    }

    /// Stage of the agent's work.
    pub open spec fn stage_key(self) -> Seq<char> {
        stage_key_of(self.task_status, self.phase, self.status)
    }
}

impl AgentRosterEntry {
    /// The entry for a report.
    pub fn from_wire(w: &WireAgent) -> (r: AgentRosterEntry)
        ensures
            r@ == entry_of(*w),
    {
        AgentRosterEntry {
            session_id: SessionId::new(w.session_id.clone()),
            phase: w.phase.clone(),
            task: w.task.clone(),
            project: w.project.clone(),
            task_id: w.task_id.clone(),
            status: AgentStatus::from_wire(w.status.as_str()),
            task_status: w.task_status.clone(),
            elapsed_sec: if w.elapsed < 0 {
                0
            } else {
                w.elapsed as u64
            },
            last_event_at_ms: w.last_event_at,
            seq: w.seq,
            label: w.label.clone(),
            kind: AgentKind::from_wire(w.kind.as_str()),
            parent_session_id: if w.parent_session_id.as_str().is_empty() {
                None
            } else {
                Some(w.parent_session_id.clone())
            },
            delegation_depth: if w.delegation_depth < 0 {
                0
            } else {
                w.delegation_depth as u32
            },
            provider: w.provider.clone(),
            model: w.model.clone(),
        }
    }

    /// The name under which the agent is shown.
    pub fn display_name(&self) -> (r: String)
        ensures
            r@ == self@.display_name(),
    {
        let label = trim(self.label.as_str());
        if !label.as_str().is_empty() {
            return label;
        }
        let task = first_line_of(self.task.as_str());
        if !task.as_str().is_empty() {
            let cs = chars_of(task.as_str());
            if cs.len() > 26 {
                let cut = text_of(&cs, 0, 26);
                assert(cs@.subrange(0, 26) =~= cs@.take(26));
                return cat(cut.as_str(), "…");
            }
            return task;
        }
        short_session(self.session_id.0.as_str())
    }

    /// The first line of the agent's task.
    pub fn task_first_line(&self) -> (r: String)
        ensures
            r@ == first_line(self@.task),
    {
        first_line_of(self.task.as_str())
    }

    /// Stage of the agent's work.
    pub fn stage_key(&self) -> (r: &'static str)
        ensures
            r@ == self@.stage_key(),
    {
        stage_key(self.task_status.as_str(), self.phase.as_str(), self.status)
    }

    /// Whether two entries hold the same.
    pub fn same_as(&self, other: &AgentRosterEntry) -> (r: bool)
        ensures
            r == (self@ == other@),
    {
        let a = same(self.session_id.0.as_str(), other.session_id.0.as_str()) && same(
            self.phase.as_str(),
            other.phase.as_str(),
        ) && same(self.task.as_str(), other.task.as_str()) && same(
            self.project.as_str(),
            other.project.as_str(),
        ) && same(self.task_id.as_str(), other.task_id.as_str()) && self.status == other.status;
        let b = same(self.task_status.as_str(), other.task_status.as_str()) && self.elapsed_sec
            == other.elapsed_sec && self.last_event_at_ms == other.last_event_at_ms && self.seq
            == other.seq && same(self.label.as_str(), other.label.as_str()) && self.kind
            == other.kind;
        let c = same_opt(&self.parent_session_id, &other.parent_session_id)
            && self.delegation_depth == other.delegation_depth && same(
            self.provider.as_str(),
            other.provider.as_str(),
        ) && same(self.model.as_str(), other.model.as_str());
        assert((a && b && c) ==> self@ =~= other@);
        a && b && c
    }
}

/// A stage of work, as it is shown.
#[derive(Debug, Clone, Copy, PartialEq, Eq)]
pub struct StageMeta {
    pub key: &'static str,
    pub label: &'static str,
    pub occupation: &'static str,
    pub building: &'static str,
    pub zone: &'static str,
    pub color: &'static str,
    pub emoji: &'static str,
    pub symbol: &'static str,
    pub action: &'static str,
    pub bubble: &'static str,
}

/// Number of stages.
pub const STAGE_COUNT: usize = 21;

/// The stages by number.
pub open spec fn stage(i: int) -> StageMeta {
    if i == 0 {
        StageMeta {
            key: "refining",
            label: "需求精炼",
            occupation: "需求精炼师",
            building: "需求精炼坊",
            zone: "北文职区",
            color: "#a78bfa",
            emoji: "📖",
            symbol: "📚",
            action: "研读需求",
            bubble: "提炼需求…",
        }
    } else if i == 1 {
        StageMeta {
            key: "planning",
            label: "方案规划",
            occupation: "规划设计师",
            building: "规划院",
            zone: "北文职区",
            color: "#38bdf8",
            emoji: "🧭",
            symbol: "🗺️",
            action: "绘制路线",
            bubble: "推演方案…",
        }
    } else if i == 2 {
        StageMeta {
            key: "plan-review",
            label: "计划评审",
            occupation: "评审官",
            building: "评审厅",
            zone: "北文职区",
            color: "#facc15",
            emoji: "⚖️",
            symbol: "⚖️",
            action: "核对计划",
            bubble: "查漏洞…",
        }
    } else if i == 3 {
        StageMeta {
            key: "implementing",
            label: "实现建造",
            occupation: "开发工程师",
            building: "开发工厂",
            zone: "东工业区",
            color: "#3b82f6",
            emoji: "🏭",
            symbol: "🔨",
            action: "敲码建造",
            bubble: "动手实现…",
        }
    } else if i == 4 {
        StageMeta {
            key: "review",
            label: "验收检查",
            occupation: "验收工程师",
            building: "验收场",
            zone: "东工业区",
            color: "#4ade80",
            emoji: "🎯",
            symbol: "🛡️",
            action: "逐条验收",
            bubble: "核对 AC…",
        }
    } else if i == 5 {
        StageMeta {
            key: "merge",
            label: "合并交付",
            occupation: "发布工程师",
            building: "合并发布站",
            zone: "东工业区",
            color: "#06b6d4",
            emoji: "🛰️",
            symbol: "🔀",
            action: "合并发布",
            bubble: "打包发布…",
        }
    } else if i == 6 {
        StageMeta {
            key: "audit",
            label: "独立审计",
            occupation: "审计师",
            building: "审计塔",
            zone: "西知识区",
            color: "#fb923c",
            emoji: "🔍",
            symbol: "📜",
            action: "独立复核",
            bubble: "独立复核…",
        }
    } else if i == 7 {
        StageMeta {
            key: "priority",
            label: "优先级",
            occupation: "优先级评估师",
            building: "优先级塔",
            zone: "北文职区",
            color: "#f87171",
            emoji: "🚩",
            symbol: "🚩",
            action: "排定优先级",
            bubble: "该先做…",
        }
    } else if i == 8 {
        StageMeta {
            key: "pm",
            label: "统筹问答",
            occupation: "统筹 PM",
            building: "统筹议事厅",
            zone: "中央广场",
            color: "#f472b6",
            emoji: "🏛️",
            symbol: "🗣️",
            action: "访谈统筹",
            bubble: "聊聊决策…",
        }
    } else if i == 9 {
        StageMeta {
            key: "design",
            label: "设计蓝图",
            occupation: "架构设计师",
            building: "设计工坊",
            zone: "北文职区",
            color: "#c084fc",
            emoji: "🎨",
            symbol: "📐",
            action: "绘制蓝图",
            bubble: "画架构…",
        }
    } else if i == 10 {
        StageMeta {
            key: "split",
            label: "任务拆分",
            occupation: "任务拆分师",
            building: "拆分工作台",
            zone: "东北区",
            color: "#14b8a6",
            emoji: "🧩",
            symbol: "🧩",
            action: "拆分任务",
            bubble: "拆小块…",
        }
    } else if i == 11 {
        StageMeta {
            key: "conflict",
            label: "冲突处理",
            occupation: "仲裁员",
            building: "仲裁庭",
            zone: "东工业区",
            color: "#f43f5e",
            emoji: "⚔️",
            symbol: "🛠️",
            action: "解决冲突",
            bubble: "要仲裁…",
        }
    } else if i == 12 {
        StageMeta {
            key: "blocked",
            label: "阻塞等待",
            occupation: "阻塞等待者",
            building: "阻塞等待亭",
            zone: "中央广场",
            color: "#ef4444",
            emoji: "🚧",
            symbol: "⛔",
            action: "等待解除",
            bubble: "卡住了…",
        }
    } else if i == 13 {
        StageMeta {
            key: "needs-grilling",
            label: "待访谈",
            occupation: "待访谈者",
            building: "访谈茶馆",
            zone: "南自然区",
            color: "#facc15",
            emoji: "💬",
            symbol: "❓",
            action: "等待访谈",
            bubble: "不清楚…",
        }
    } else if i == 14 {
        StageMeta {
            key: "done",
            label: "已完成",
            occupation: "交付庆祝者",
            building: "凯旋广场",
            zone: "中央广场",
            color: "#84cc16",
            emoji: "🏆",
            symbol: "✅",
            action: "交付庆祝",
            bubble: "完成！",
        }
    } else if i == 15 {
        StageMeta {
            key: "closed",
            label: "已关闭",
            occupation: "归档管理员",
            building: "归档小馆",
            zone: "西知识区",
            color: "#64748b",
            emoji: "🗄️",
            symbol: "🔒",
            action: "归档封存",
            bubble: "已归档…",
        }
    } else if i == 16 {
        StageMeta {
            key: "ready",
            label: "待命出发",
            occupation: "待命者",
            building: "待命驿站",
            zone: "中央广场",
            color: "#94a3b8",
            emoji: "⏳",
            symbol: "🕐",
            action: "等待派发",
            bubble: "随时出发…",
        }
    } else if i == 17 {
        StageMeta {
            key: "conventions",
            label: "规范审查",
            occupation: "规范审查员",
            building: "规范文书房",
            zone: "北文职区",
            color: "#34d399",
            emoji: "📏",
            symbol: "📏",
            action: "检查规范",
            bubble: "对规范…",
        }
    } else if i == 18 {
        StageMeta {
            key: "knowledge",
            label: "知识归档",
            occupation: "知识管理员",
            building: "知识树馆",
            zone: "西知识区",
            color: "#60a5fa",
            emoji: "🌳",
            symbol: "📚",
            action: "提炼知识",
            bubble: "沉淀知识…",
        }
    } else if i == 19 {
        StageMeta {
            key: "idle",
            label: "休息",
            occupation: "休息居民",
            building: "休息草坪",
            zone: "南自然区",
            color: "#64748b",
            emoji: "🍃",
            symbol: "☕",
            action: "恢复体力",
            bubble: "休息中…",
        }
    } else {
        StageMeta {
            key: "working",
            label: "工作中",
            occupation: "综合工作者",
            building: "综合工位",
            zone: "中央广场",
            color: "#94a3b8",
            emoji: "⚙️",
            symbol: "⚙️",
            action: "执行中",
            bubble: "忙碌中…",
        }
    }
}

/// The stage with a number.
pub fn stage_at(i: usize) -> (r: StageMeta)
    requires
        i < STAGE_COUNT,
    ensures
        r == stage(i as int),
{
    match i {
        0 => StageMeta {
            key: "refining",
            label: "需求精炼",
            occupation: "需求精炼师",
            building: "需求精炼坊",
            zone: "北文职区",
            color: "#a78bfa",
            emoji: "📖",
            symbol: "📚",
            action: "研读需求",
            bubble: "提炼需求…",
        },
        1 => StageMeta {
            key: "planning",
            label: "方案规划",
            occupation: "规划设计师",
            building: "规划院",
            zone: "北文职区",
            color: "#38bdf8",
            emoji: "🧭",
            symbol: "🗺️",
            action: "绘制路线",
            bubble: "推演方案…",
        },
        2 => StageMeta {
            key: "plan-review",
            label: "计划评审",
            occupation: "评审官",
            building: "评审厅",
            zone: "北文职区",
            color: "#facc15",
            emoji: "⚖️",
            symbol: "⚖️",
            action: "核对计划",
            bubble: "查漏洞…",
        },
        3 => StageMeta {
            key: "implementing",
            label: "实现建造",
            occupation: "开发工程师",
            building: "开发工厂",
            zone: "东工业区",
            color: "#3b82f6",
            emoji: "🏭",
            symbol: "🔨",
            action: "敲码建造",
            bubble: "动手实现…",
        },
        4 => StageMeta {
            key: "review",
            label: "验收检查",
            occupation: "验收工程师",
            building: "验收场",
            zone: "东工业区",
            color: "#4ade80",
            emoji: "🎯",
            symbol: "🛡️",
            action: "逐条验收",
            bubble: "核对 AC…",
        },
        5 => StageMeta {
            key: "merge",
            label: "合并交付",
            occupation: "发布工程师",
            building: "合并发布站",
            zone: "东工业区",
            color: "#06b6d4",
            emoji: "🛰️",
            symbol: "🔀",
            action: "合并发布",
            bubble: "打包发布…",
        },
        6 => StageMeta {
            key: "audit",
            label: "独立审计",
            occupation: "审计师",
            building: "审计塔",
            zone: "西知识区",
            color: "#fb923c",
            emoji: "🔍",
            symbol: "📜",
            action: "独立复核",
            bubble: "独立复核…",
        },
        7 => StageMeta {
            key: "priority",
            label: "优先级",
            occupation: "优先级评估师",
            building: "优先级塔",
            zone: "北文职区",
            color: "#f87171",
            emoji: "🚩",
            symbol: "🚩",
            action: "排定优先级",
            bubble: "该先做…",
        },
        8 => StageMeta {
            key: "pm",
            label: "统筹问答",
            occupation: "统筹 PM",
            building: "统筹议事厅",
            zone: "中央广场",
            color: "#f472b6",
            emoji: "🏛️",
            symbol: "🗣️",
            action: "访谈统筹",
            bubble: "聊聊决策…",
        },
        9 => StageMeta {
            key: "design",
            label: "设计蓝图",
            occupation: "架构设计师",
            building: "设计工坊",
            zone: "北文职区",
            color: "#c084fc",
            emoji: "🎨",
            symbol: "📐",
            action: "绘制蓝图",
            bubble: "画架构…",
        },
        10 => StageMeta {
            key: "split",
            label: "任务拆分",
            occupation: "任务拆分师",
            building: "拆分工作台",
            zone: "东北区",
            color: "#14b8a6",
            emoji: "🧩",
            symbol: "🧩",
            action: "拆分任务",
            bubble: "拆小块…",
        },
        11 => StageMeta {
            key: "conflict",
            label: "冲突处理",
            occupation: "仲裁员",
            building: "仲裁庭",
            zone: "东工业区",
            color: "#f43f5e",
            emoji: "⚔️",
            symbol: "🛠️",
            action: "解决冲突",
            bubble: "要仲裁…",
        },
        12 => StageMeta {
            key: "blocked",
            label: "阻塞等待",
            occupation: "阻塞等待者",
            building: "阻塞等待亭",
            zone: "中央广场",
            color: "#ef4444",
            emoji: "🚧",
            symbol: "⛔",
            action: "等待解除",
            bubble: "卡住了…",
        },
        13 => StageMeta {
            key: "needs-grilling",
            label: "待访谈",
            occupation: "待访谈者",
            building: "访谈茶馆",
            zone: "南自然区",
            color: "#facc15",
            emoji: "💬",
            symbol: "❓",
            action: "等待访谈",
            bubble: "不清楚…",
        },
        14 => StageMeta {
            key: "done",
            label: "已完成",
            occupation: "交付庆祝者",
            building: "凯旋广场",
            zone: "中央广场",
            color: "#84cc16",
            emoji: "🏆",
            symbol: "✅",
            action: "交付庆祝",
            bubble: "完成！",
        },
        15 => StageMeta {
            key: "closed",
            label: "已关闭",
            occupation: "归档管理员",
            building: "归档小馆",
            zone: "西知识区",
            color: "#64748b",
            emoji: "🗄️",
            symbol: "🔒",
            action: "归档封存",
            bubble: "已归档…",
        },
        16 => StageMeta {
            key: "ready",
            label: "待命出发",
            occupation: "待命者",
            building: "待命驿站",
            zone: "中央广场",
            color: "#94a3b8",
            emoji: "⏳",
            symbol: "🕐",
            action: "等待派发",
            bubble: "随时出发…",
        },
        17 => StageMeta {
            key: "conventions",
            label: "规范审查",
            occupation: "规范审查员",
            building: "规范文书房",
            zone: "北文职区",
            color: "#34d399",
            emoji: "📏",
            symbol: "📏",
            action: "检查规范",
            bubble: "对规范…",
        },
        18 => StageMeta {
            key: "knowledge",
            label: "知识归档",
            occupation: "知识管理员",
            building: "知识树馆",
            zone: "西知识区",
            color: "#60a5fa",
            emoji: "🌳",
            symbol: "📚",
            action: "提炼知识",
            bubble: "沉淀知识…",
        },
        19 => StageMeta {
            key: "idle",
            label: "休息",
            occupation: "休息居民",
            building: "休息草坪",
            zone: "南自然区",
            color: "#64748b",
            emoji: "🍃",
            symbol: "☕",
            action: "恢复体力",
            bubble: "休息中…",
        },
        _ => StageMeta {
            key: "working",
            label: "工作中",
            occupation: "综合工作者",
            building: "综合工位",
            zone: "中央广场",
            color: "#94a3b8",
            emoji: "⚙️",
            symbol: "⚙️",
            action: "执行中",
            bubble: "忙碌中…",
        },
    }
}

/// Every stage, in order.
pub fn stages() -> (r: Vec<StageMeta>)
    ensures
        r@ == Seq::new(21, |i: int| stage(i)),
{
    let mut r: Vec<StageMeta> = Vec::new();
    let mut i: usize = 0;
    while i < STAGE_COUNT
        invariant
            i <= 21,
            r@.len() == i,
            forall|k: int| 0 <= k < i ==> #[trigger] r@[k] == stage(k),
        decreases 21 - i,
    {
        r.push(stage_at(i));
        i = i + 1;
    }
    assert(r@ =~= Seq::new(21, |i: int| stage(i)));
    r
}

/// Number of the first stage from `i` on with a key; 21 where there is none.
pub open spec fn stage_from(key: Seq<char>, i: int) -> int
    decreases 21 - i,
{
    if i >= 21 {
        21
    } else if stage(i).key@ == key {
        i
    } else {
        stage_from(key, i + 1)
    }
}

/// Number of the stage with a key; 21 where there is none.
fn stage_index(key: &str) -> (r: usize)
    ensures
        r == stage_from(key@, 0),
        r <= 21,
{
    let mut i: usize = 0;
    while i < STAGE_COUNT
        invariant
            i <= 21,
            stage_from(key@, 0) == stage_from(key@, i as int),
        decreases 21 - i,
    {
        if same(stage_at(i).key, key) {
            return i;
        }
        i = i + 1;
    }
    i
}

/// The stage with a key; common work for an unknown one.
pub fn stage_meta(key: &str) -> (r: StageMeta)
    ensures
        r == stage(if stage_from(key@, 0) < 21 {
            stage_from(key@, 0)
        } else {
            20
        }),
{
    let i: usize = stage_index(key);
    if i < STAGE_COUNT {
        stage_at(i)
    } else {
        stage_at(20)
    }
}

/// The stage that a word names: rounds are planning and building, and the
/// keys of the stages name themselves.
pub open spec fn mapped(v: Seq<char>) -> Option<Seq<char>> {
    if v == "round1"@ {
        Some("planning"@)
    } else if v == "round2"@ {
        Some("implementing"@)
    } else if v == "plan_review"@ {
        Some("plan-review"@)
    } else if stage_from(v, 0) < 21 {
        Some(v)
    } else {
        None
    }
}

/// The stage of an agent: that of its task, else that of its phase, else
/// rest or work as its status says.
pub open spec fn stage_key_of(task_status: Seq<char>, phase: Seq<char>, status: AgentStatus) -> Seq<
    char,
> {
    if mapped(trimmed(task_status)) is Some {
        mapped(trimmed(task_status))->0
    } else if mapped(trimmed(phase)) is Some {
        mapped(trimmed(phase))->0
    } else {
        match status {
            AgentStatus::Idle => "idle"@,
            AgentStatus::Working => "working"@,
        }
    }
}

fn map_stage(v: &str) -> (r: Option<&'static str>)
    ensures
        match r {
            Some(k) => mapped(v@) == Some(k@),
            None => mapped(v@) is None,
        },
{
    if same(v, "round1") {
        Some("planning")
    } else if same(v, "round2") {
        Some("implementing")
    } else if same(v, "plan_review") {
        Some("plan-review")
    } else {
        let i: usize = stage_index(v);
        if i < STAGE_COUNT {
            proof {
                lemma_stage_from(v@, 0);
            }
            Some(stage_at(i).key)
        } else {
            None
        }
    }
}

proof fn lemma_stage_from(key: Seq<char>, i: int)
    requires
        0 <= i,
        stage_from(key, i) < 21,
    ensures
        i <= stage_from(key, i),
        stage(stage_from(key, i)).key@ == key,
    decreases 21 - i,
{
    if i < 21 && stage(i).key@ != key {
        lemma_stage_from(key, i + 1);
    }
}

/// No stage has an empty key, nor one of the words that stand for another, nor
/// one with whitespace at an end.
proof fn lemma_stage_keys(i: int)
    requires
        0 <= i < 21,
    ensures
        stage(i).key@.len() > 0,
        !whitespace(stage(i).key@[0]),
        !whitespace(stage(i).key@.last()),
        stage(i).key@ != "round1"@,
        stage(i).key@ != "round2"@,
        stage(i).key@ != "plan_review"@,
{
    reveal_strlit("refining");
    reveal_strlit("planning");
    reveal_strlit("plan-review");
    reveal_strlit("implementing");
    reveal_strlit("review");
    reveal_strlit("merge");
    reveal_strlit("audit");
    reveal_strlit("priority");
    reveal_strlit("pm");
    reveal_strlit("design");
    reveal_strlit("split");
    reveal_strlit("conflict");
    reveal_strlit("blocked");
    reveal_strlit("needs-grilling");
    reveal_strlit("done");
    reveal_strlit("closed");
    reveal_strlit("ready");
    reveal_strlit("conventions");
    reveal_strlit("knowledge");
    reveal_strlit("idle");
    reveal_strlit("working");
    reveal_strlit("round1");
    reveal_strlit("round2");
    reveal_strlit("plan_review");
    assert("round1"@.len() == 6 && "round1"@[5] == '1');
    assert("round2"@.len() == 6 && "round2"@[5] == '2');
    assert("plan_review"@.len() == 11 && "plan_review"@[4] == '_');
    assert("refining"@.len() == 8 && "refining"@[5] == 'i' && "refining"@[4] == 'n');
    assert("planning"@.len() == 8 && "planning"@[5] == 'i' && "planning"@[4] == 'n');
    assert("plan-review"@.len() == 11 && "plan-review"@[5] == 'r' && "plan-review"@[4] == '-');
    assert("implementing"@.len() == 12 && "implementing"@[5] == 'm' && "implementing"@[4] == 'e');
    assert("review"@.len() == 6 && "review"@[5] == 'w' && "review"@[4] == 'e');
    assert("merge"@.len() == 5 && "merge"@[4] == 'e');
    assert("audit"@.len() == 5 && "audit"@[4] == 't');
    assert("priority"@.len() == 8 && "priority"@[5] == 'i' && "priority"@[4] == 'r');
    assert("pm"@.len() == 2);
    assert("design"@.len() == 6 && "design"@[5] == 'n' && "design"@[4] == 'g');
    assert("split"@.len() == 5 && "split"@[4] == 't');
    assert("conflict"@.len() == 8 && "conflict"@[5] == 'i' && "conflict"@[4] == 'l');
    assert("blocked"@.len() == 7 && "blocked"@[5] == 'e' && "blocked"@[4] == 'k');
    assert("needs-grilling"@.len() == 14 && "needs-grilling"@[5] == '-' && "needs-grilling"@[4] == 's');
    assert("done"@.len() == 4);
    assert("closed"@.len() == 6 && "closed"@[5] == 'd' && "closed"@[4] == 'e');
    assert("ready"@.len() == 5 && "ready"@[4] == 'y');
    assert("conventions"@.len() == 11 && "conventions"@[5] == 'n' && "conventions"@[4] == 'e');
    assert("knowledge"@.len() == 9 && "knowledge"@[5] == 'e' && "knowledge"@[4] == 'l');
    assert("idle"@.len() == 4);
    assert("working"@.len() == 7 && "working"@[5] == 'n' && "working"@[4] == 'i');
}

/// No stage is named by an empty word.
proof fn lemma_empty_names_nothing()
    ensures
        mapped(Seq::<char>::empty()) is None,
{
    let e = Seq::<char>::empty();
    reveal_strlit("round1");
    reveal_strlit("round2");
    reveal_strlit("plan_review");
    assert("round1"@.len() == 6);
    assert("round2"@.len() == 6);
    assert("plan_review"@.len() == 11);
    if stage_from(e, 0) < 21 {
        lemma_stage_from(e, 0);
        lemma_stage_keys(stage_from(e, 0));
    }
}

/// The stage of an agent.
pub fn stage_key(task_status: &str, phase: &str, status: AgentStatus) -> (r: &'static str)
    ensures
        r@ == stage_key_of(task_status@, phase@, status),
{
    proof {
        lemma_empty_names_nothing();
        assert forall|s: Seq<char>| s.len() == 0 implies mapped(s) is None by {
            assert(s =~= Seq::<char>::empty());
        }
    }
    let ts = trim(task_status);
    if !ts.as_str().is_empty() {
        let k = map_stage(ts.as_str());
        if let Some(k) = k {
            return k;
        }
    }
    let ph = trim(phase);
    if !ph.as_str().is_empty() {
        let k = map_stage(ph.as_str());
        if let Some(k) = k {
            return k;
        }
    }
    match status {
        AgentStatus::Idle => "idle",
        AgentStatus::Working => "working",
    }
}

/// Whatever the server says, the stage of an agent is one of the stages.
pub proof fn law_stage_key_is_a_stage(task_status: Seq<char>, phase: Seq<char>, status: AgentStatus)
    ensures
        exists|i: int|
            0 <= i < 21 && #[trigger] stage(i).key@ == stage_key_of(task_status, phase, status),
{
    let k = stage_key_of(task_status, phase, status);
    if mapped(trimmed(task_status)) is Some {
        lemma_mapped_is_a_stage(trimmed(task_status));
    } else if mapped(trimmed(phase)) is Some {
        lemma_mapped_is_a_stage(trimmed(phase));
    } else {
        assert(stage(19).key@ == "idle"@);
        assert(stage(20).key@ == "working"@);
    }
}

proof fn lemma_mapped_is_a_stage(v: Seq<char>)
    requires
        mapped(v) is Some,
    ensures
        exists|i: int| 0 <= i < 21 && #[trigger] stage(i).key@ == mapped(v)->0,
{
    assert(stage(1).key@ == "planning"@);
    assert(stage(3).key@ == "implementing"@);
    assert(stage(2).key@ == "plan-review"@);
    if stage_from(v, 0) < 21 {
        lemma_stage_from(v, 0);
    }
}

/// A task whose status is the key of a stage is at that stage, whatever its
/// phase and the state of its agent.
pub proof fn law_stage_keys_name_themselves(i: int, phase: Seq<char>, status: AgentStatus)
    requires
        0 <= i < 21,
    ensures
        stage_key_of(stage(i).key@, phase, status) == stage(i).key@,
{
    lemma_stage_keys(i);
    law_whitespace_round_a_stage_key_is_ignored(i, stage(i).key@, phase, status);
}

/// Whitespace round the key of a stage does not change the stage.
pub proof fn law_whitespace_round_a_stage_key_is_ignored(
    i: int,
    task_status: Seq<char>,
    phase: Seq<char>,
    status: AgentStatus,
)
    requires
        0 <= i < 21,
        trimmed(task_status) == stage(i).key@,
    ensures
        stage_key_of(task_status, phase, status) == stage(i).key@,
{
    lemma_stage_keys(i);
    lemma_own_index(i, 0);
}

/// Where one of the two words is missing, the other says the stage, whichever
/// of the two it is.
pub proof fn law_a_lone_word_says_the_stage(word: Seq<char>, status: AgentStatus)
    ensures
        stage_key_of(""@, word, status) == stage_key_of(word, ""@, status),
{
    reveal_strlit("");
    assert(""@ =~= Seq::<char>::empty());
    lemma_empty_names_nothing();
}

proof fn lemma_own_index(i: int, from: int)
    requires
        0 <= from <= i < 21,
    ensures
        stage_from(stage(i).key@, from) < 21,
    decreases i - from,
{
    if from < i && stage(from).key@ != stage(i).key@ {
        lemma_own_index(i, from + 1);
    }
}

/// A duration in hours and minutes, minutes and seconds, or seconds.
pub open spec fn elapsed_text(sec: int) -> Seq<char> {
    let h = sec / 3600;
    let m = (sec % 3600) / 60;
    let s = sec % 60;
    if h > 0 {
        decimal(h as nat) + "h"@ + decimal(m as nat) + "m"@
    } else if m > 0 {
        decimal(m as nat) + "m"@ + decimal(s as nat) + "s"@
    } else {
        decimal(s as nat) + "s"@
    }
}

/// A duration in hours and minutes, minutes and seconds, or seconds.
pub fn fmt_elapsed(sec: u64) -> (r: String)
    ensures
        r@ == elapsed_text(sec as int),
{
    let h: u64 = sec / 3600;
    let m: u64 = (sec % 3600) / 60;
    let s: u64 = sec % 60;
    if h > 0 {
        let mut r = cat(dec(h).as_str(), "h");
        r.append(dec(m).as_str());
        r.append("m");
        r
    } else if m > 0 {
        let mut r = cat(dec(m).as_str(), "m");
        r.append(dec(s).as_str());
        r.append("s");
        r
    } else {
        cat(dec(s).as_str(), "s")
    }
}

/// The escape of a character that markup would read.
pub open spec fn escaped_char(c: char) -> Seq<char> {
    if c == '&' {
        "&amp;"@
    } else if c == '<' {
        "&lt;"@
    } else if c == '>' {
        "&gt;"@
    } else if c == '"' {
        "&quot;"@
    } else if c == '\'' {
        "&#39;"@
    } else {
        seq![c]
    }
}

/// A text with each character that markup would read escaped.
pub open spec fn escaped(s: Seq<char>) -> Seq<char>
    decreases s.len(),
{
    if s.len() == 0 {
        Seq::empty()
    } else {
        escaped(s.drop_last()) + escaped_char(s.last())
    }
}

/// A text with each character that markup would read escaped.
pub fn esc(s: &str) -> (r: String)
    ensures
        r@ == escaped(s@),
{
    let cs = chars_of(s);
    let mut r = String::new();
    let mut i: usize = 0;
    while i < cs.len()
        invariant
            i <= cs@.len(),
            r@ == escaped(cs@.take(i as int)),
        decreases cs@.len() - i,
    {
        let c = cs[i];
        assert(cs@.take(i + 1).drop_last() =~= cs@.take(i as int));
        if c == '&' {
            r.append("&amp;");
        } else if c == '<' {
            r.append("&lt;");
        } else if c == '>' {
            r.append("&gt;");
        } else if c == '"' {
            r.append("&quot;");
        } else if c == '\'' {
            r.append("&#39;");
        } else {
            r.push(c);
            assert(r@ =~= escaped(cs@.take(i as int)) + seq![c]);
        }
        i = i + 1;
    }
    assert(cs@.take(i as int) =~= cs@);
    r
}

/// An escaped text holds none of the characters that open or close markup.
pub proof fn law_escaped_text_is_inert(s: Seq<char>, i: int)
    requires
        0 <= i < escaped(s).len(),
    ensures
        escaped(s)[i] != '<',
        escaped(s)[i] != '>',
        escaped(s)[i] != '"',
        escaped(s)[i] != '\'',
    decreases s.len(),
{
    reveal_strlit("&amp;");
    reveal_strlit("&lt;");
    reveal_strlit("&gt;");
    reveal_strlit("&quot;");
    reveal_strlit("&#39;");
    if i < escaped(s.drop_last()).len() {
        law_escaped_text_is_inert(s.drop_last(), i);
    }
}

/// The views of a list of entries.
pub open spec fn entry_views(es: Seq<AgentRosterEntry>) -> Seq<EntryView> {
    es.map_values(|e: AgentRosterEntry| e@)
}

/// Place of the first entry of a session; the length where there is none.
pub open spec fn entry_index(es: Seq<EntryView>, sid: Seq<char>) -> nat
    decreases es.len(),
{
    if es.len() == 0 || es[0].session_id == sid {
        0
    } else {
        1 + entry_index(es.skip(1), sid)
    }
}

proof fn lemma_entry_index(es: Seq<EntryView>, sid: Seq<char>, i: int)
    requires
        0 <= i <= es.len(),
        forall|j: int| 0 <= j < i ==> #[trigger] es[j].session_id != sid,
        i < es.len() ==> es[i].session_id == sid,
    ensures
        entry_index(es, sid) == i,
    decreases es.len(),
{
    if i > 0 {
        assert(es[0].session_id != sid);
        assert forall|j: int| 0 <= j < i - 1 implies #[trigger] es.skip(1)[j].session_id != sid by {
            assert(es[j + 1].session_id != sid);
        }
        lemma_entry_index(es.skip(1), sid, i - 1);
    }
}

proof fn lemma_entry_found(es: Seq<EntryView>, sid: Seq<char>)
    ensures
        entry_index(es, sid) <= es.len(),
        entry_index(es, sid) < es.len() ==> es[entry_index(es, sid) as int].session_id == sid,
        forall|j: int| 0 <= j < entry_index(es, sid) ==> #[trigger] es[j].session_id != sid,
    decreases es.len(),
{
    if es.len() > 0 && es[0].session_id != sid {
        let rest = es.skip(1);
        lemma_entry_found(rest, sid);
        assert forall|j: int| 0 <= j < entry_index(es, sid) implies #[trigger] es[j].session_id
            != sid by {
            if j > 0 {
                assert(rest[j - 1].session_id != sid);
            }
        }
    }
}

/// Whether no session has two entries.
pub open spec fn distinct(es: Seq<EntryView>) -> bool {
    forall|i: int, j: int|
        0 <= i < j < es.len() ==> (#[trigger] es[i]).session_id != (#[trigger] es[j]).session_id
}

/// The entries with one put in the place of its session, at the end where the
/// session is new.
pub open spec fn with_entry(es: Seq<EntryView>, e: EntryView) -> Seq<EntryView> {
    let i = entry_index(es, e.session_id);
    if i < es.len() {
        es.update(i as int, e)
    } else {
        es.push(e)
    }
}

/// The entries after the first `n` reports; a report without a session is
/// passed over.
pub open spec fn merged(es: Seq<EntryView>, wire: Seq<WireAgent>, n: nat) -> Seq<EntryView>
    decreases n,
{
    if n == 0 {
        es
    } else {
        let before = merged(es, wire, (n - 1) as nat);
        if wire[n - 1].session_id@.len() == 0 {
            before
        } else {
            with_entry(before, entry_of(wire[n - 1]))
        }
    }
}

/// How many of the first `n` reports are of a new session.
pub open spec fn added(es: Seq<EntryView>, wire: Seq<WireAgent>, n: nat) -> nat
    decreases n,
{
    if n == 0 {
        0
    } else {
        let before = merged(es, wire, (n - 1) as nat);
        let sid = wire[n - 1].session_id@;
        added(es, wire, (n - 1) as nat) + if sid.len() > 0 && entry_index(before, sid)
            >= before.len() {
            1nat
        } else {
            0nat
        }
    }
}

/// How many of the first `n` reports change the entry of their session.
pub open spec fn updated(es: Seq<EntryView>, wire: Seq<WireAgent>, n: nat) -> nat
    decreases n,
{
    if n == 0 {
        0
    } else {
        let before = merged(es, wire, (n - 1) as nat);
        let sid = wire[n - 1].session_id@;
        let i = entry_index(before, sid);
        updated(es, wire, (n - 1) as nat) + if sid.len() > 0 && i < before.len()
            && before[i as int] != entry_of(wire[n - 1]) {
            1nat
        } else {
            0nat
        }
    }
}

/// Whether a session is among the reports.
pub open spec fn listed(wire: Seq<WireAgent>, sid: Seq<char>) -> bool {
    sid.len() > 0 && exists|i: int| 0 <= i < wire.len() && #[trigger] wire[i].session_id@ == sid
}

/// The entries after a poll: merged, and without the sessions that are gone.
pub open spec fn after_poll(es: Seq<EntryView>, wire: Seq<WireAgent>) -> Seq<EntryView> {
    merged(es, wire, wire.len()).filter(|e: EntryView| listed(wire, e.session_id))
}

proof fn lemma_with_entry(es: Seq<EntryView>, e: EntryView)
    requires
        distinct(es),
    ensures
        distinct(with_entry(es, e)),
        es.len() <= with_entry(es, e).len() <= es.len() + 1,
{
    lemma_entry_found(es, e.session_id);
}

proof fn lemma_merged_distinct(es: Seq<EntryView>, wire: Seq<WireAgent>, n: nat)
    requires
        distinct(es),
        n <= wire.len(),
    ensures
        distinct(merged(es, wire, n)),
    decreases n,
{
    if n > 0 {
        lemma_merged_distinct(es, wire, (n - 1) as nat);
        lemma_with_entry(merged(es, wire, (n - 1) as nat), entry_of(wire[n - 1]));
    }
}

/// What a filter keeps of a list of entries without repeats has none.
proof fn lemma_filter_distinct(es: Seq<EntryView>, p: spec_fn(EntryView) -> bool)
    requires
        distinct(es),
    ensures
        distinct(es.filter(p)),
        forall|i: int| 0 <= i < es.filter(p).len() ==> es.contains(#[trigger] es.filter(p)[i]),
        forall|i: int|
            0 <= i < es.len() && p(#[trigger] es[i]) ==> es.filter(p).contains(es[i]),
        forall|i: int| 0 <= i < es.filter(p).len() ==> p(#[trigger] es.filter(p)[i]),
    decreases es.len(),
{
    reveal(Seq::filter);
    if es.len() > 0 {
        let r = es.drop_last();
        let fr = r.filter(p);
        let f = es.filter(p);
        assert forall|i: int, j: int| 0 <= i < j < r.len() implies (#[trigger] r[i]).session_id
            != (#[trigger] r[j]).session_id by {
            assert(es[i].session_id != es[j].session_id);
        }
        lemma_filter_distinct(r, p);
        assert forall|i: int| 0 <= i < f.len() implies es.contains(#[trigger] f[i]) by {
            if i < fr.len() {
                assert(r.contains(fr[i]));
                let k = choose|k: int| 0 <= k < r.len() && r[k] == fr[i];
                assert(es[k] == f[i]);
            } else {
                assert(es[es.len() - 1] == f[i]);
            }
        }
        assert forall|i: int| 0 <= i < es.len() && p(#[trigger] es[i]) implies f.contains(
            es[i],
        ) by {
            if i < r.len() {
                assert(r[i] == es[i]);
                assert(fr.contains(r[i]));
                let k = choose|k: int| 0 <= k < fr.len() && fr[k] == r[i];
                assert(f[k] == es[i]);
            } else {
                assert(f[f.len() - 1] == es[i]);
            }
        }
        assert forall|i: int, j: int| 0 <= i < j < f.len() implies (#[trigger] f[i]).session_id
            != (#[trigger] f[j]).session_id by {
            if j < fr.len() {
                assert(fr[i].session_id != fr[j].session_id);
            } else {
                assert(r.contains(fr[i]));
                let k = choose|k: int| 0 <= k < r.len() && r[k] == fr[i];
                assert(es[k].session_id != es[es.len() - 1].session_id);
            }
        }
    }
}

/// The agents of the last poll, in the order in which they first came.
#[derive(Debug)]
pub struct RosterSnapshot {
    pub entries: Vec<AgentRosterEntry>,
    pub finished: u32,
    pub connected: bool,
    pub last_poll_at_ms: i64,
}

impl RosterSnapshot {
    /// The entries, in the order in which their sessions first came.
    pub open spec fn entries(&self) -> Seq<EntryView> {
        entry_views(self.entries@)
    }

    /// Whether no session has two entries.
    pub open spec fn wf(&self) -> bool {
        distinct(self.entries())
    }

    /// An empty roster that was never polled.
    pub fn new() -> (r: RosterSnapshot)
        ensures
            r.entries() == Seq::<EntryView>::empty(),
            r.wf(),
            r.finished == 0,
            !r.connected,
            r.last_poll_at_ms == 0,
    {
        let r = RosterSnapshot {
            entries: Vec::new(),
            finished: 0,
            connected: false,
            last_poll_at_ms: 0,
        };
        assert(r.entries() =~= Seq::<EntryView>::empty());
        r
    }

    /// Place of the entry of a session.
    fn position(&self, sid: &str) -> (r: usize)
        ensures
            r == entry_index(self.entries(), sid@),
            r <= self.entries@.len(),
    {
        let mut i: usize = 0;
        while i < self.entries.len()
            invariant
                i <= self.entries@.len(),
                forall|j: int| 0 <= j < i ==> #[trigger] self.entries()[j].session_id != sid@,
            decreases self.entries@.len() - i,
        {
            if same(self.entries[i].session_id.0.as_str(), sid) {
                proof {
                    lemma_entry_index(self.entries(), sid@, i as int);
                }
                return i;
            }
            assert(self.entries()[i as int].session_id != sid@);
            i = i + 1;
        }
        proof {
            lemma_entry_index(self.entries(), sid@, i as int);
        }
        i
    }

    /// Merges one poll: each report takes the place of its session's entry, a
    /// new session goes to the end, a session that is gone is dropped. Returns
    /// how many entries were added, changed and dropped.
    pub fn merge(&mut self, wire: &[WireAgent], finished: u32) -> (r: (usize, usize, usize))
        requires
            old(self).wf(),
        ensures
            final(self).wf(),
            final(self).entries() == after_poll(old(self).entries(), wire@),
            final(self).finished == finished,
            final(self).connected == old(self).connected,
            final(self).last_poll_at_ms == old(self).last_poll_at_ms,
            r.0 == added(old(self).entries(), wire@, wire@.len()),
            r.1 == updated(old(self).entries(), wire@, wire@.len()),
            r.2 + final(self).entries().len() == merged(
                old(self).entries(),
                wire@,
                wire@.len(),
            ).len(),
    {
        let ghost start = self.entries();
        let mut fresh: usize = 0;
        let mut changed: usize = 0;
        let mut i: usize = 0;
        while i < wire.len()
            invariant
                i <= wire@.len(),
                distinct(start),
                self.entries() == merged(start, wire@, i as nat),
                self.connected == old(self).connected,
                self.last_poll_at_ms == old(self).last_poll_at_ms,
                fresh == added(start, wire@, i as nat),
                changed == updated(start, wire@, i as nat),
                fresh <= i,
                changed <= i,
            decreases wire@.len() - i,
        {
            let ghost before = self.entries();
            if !wire[i].session_id.as_str().is_empty() {
                let entry = AgentRosterEntry::from_wire(&wire[i]);
                let at: usize = self.position(entry.session_id.0.as_str());
                if at >= self.entries.len() {
                    let ghost e = entry@;
                    self.entries.push(entry);
                    fresh = fresh + 1;
                    assert(self.entries() =~= before.push(e));
                } else if !self.entries[at].same_as(&entry) {
                    let ghost e = entry@;
                    self.entries.set(at, entry);
                    changed = changed + 1;
                    assert(self.entries() =~= before.update(at as int, e));
                } else {
                    assert(before.update(at as int, entry@) =~= before);
                }
            }
            i = i + 1;
        }
        let ghost all = self.entries();
        let ghost p = |e: EntryView| listed(wire@, e.session_id);
        let mut kept: Vec<AgentRosterEntry> = Vec::new();
        let mut k: usize = 0;
        while k < self.entries.len()
            invariant
                k <= self.entries@.len(),
                all == self.entries(),
                self.connected == old(self).connected,
                self.last_poll_at_ms == old(self).last_poll_at_ms,
                p == (|e: EntryView| listed(wire@, e.session_id)),
                entry_views(kept@) == all.take(k as int).filter(p),
                kept@.len() <= k,
            decreases self.entries@.len() - k,
        {
            reveal(Seq::filter);
            assert(all.take(k + 1).drop_last() =~= all.take(k as int));
            let ghost before = entry_views(kept@);
            if is_listed(wire, self.entries[k].session_id.0.as_str()) {
                let e = self.entries[k].clone();
                kept.push(e);
                assert(entry_views(kept@) =~= before.push(all[k as int]));
            }
            k = k + 1;
        }
        assert(all.take(k as int) =~= all);
        let gone: usize = self.entries.len() - kept.len();
        self.entries = kept;
        self.finished = finished;
        proof {
            lemma_merged_distinct(start, wire@, wire@.len());
            lemma_filter_distinct(all, p);
        }
        (fresh, changed, gone)
    }

    /// The entries, in the order in which their sessions first came.
    pub fn ordered(&self) -> (r: &Vec<AgentRosterEntry>)
        ensures
            entry_views(r@) == self.entries(),
    {
        &self.entries
    }

    /// The entry of a session.
    pub fn get(&self, sid: &SessionId) -> (r: Option<&AgentRosterEntry>)
        ensures
            match r {
                Some(e) => entry_index(self.entries(), sid@) < self.entries().len() && e@
                    == self.entries()[entry_index(self.entries(), sid@) as int],
                None => entry_index(self.entries(), sid@) >= self.entries().len(),
            },
    {
        let i: usize = self.position(sid.0.as_str());
        if i < self.entries.len() {
            Some(&self.entries[i])
        } else {
            None
        }
    }

    /// Number of agents.
    pub fn len(&self) -> (r: usize)
        ensures
            r == self.entries().len(),
    {
        self.entries.len()
    }

    /// Whether there is no agent.
    pub fn is_empty(&self) -> (r: bool)
        ensures
            r == (self.entries().len() == 0),
    {
        self.entries.len() == 0
    }
}

/// Whether a session is among the reports.
fn is_listed(wire: &[WireAgent], sid: &str) -> (r: bool)
    ensures
        r == listed(wire@, sid@),
{
    if sid.is_empty() {
        return false;
    }
    let mut i: usize = 0;
    while i < wire.len()
        invariant
            i <= wire@.len(),
            sid@.len() > 0,
            forall|j: int| 0 <= j < i ==> #[trigger] wire@[j].session_id@ != sid@,
        decreases wire@.len() - i,
    {
        if same(wire[i].session_id.as_str(), sid) {
            assert(wire@[i as int].session_id@ == sid@);
            return true;
        }
        i = i + 1;
    }
    false
}

/// Whether reports of one session never contradict each other. A report that
/// names no session is of none.
pub open spec fn agreeing(wire: Seq<WireAgent>) -> bool {
    forall|i: int, j: int|
        0 <= i < wire.len() && 0 <= j < wire.len() && (#[trigger] wire[i]).session_id@.len() > 0
            && wire[i].session_id@ == (#[trigger] wire[j]).session_id@ ==> entry_of(wire[i])
            == entry_of(wire[j])
}

/// After the first `n` reports, the entry of each reported session is its report.
proof fn lemma_reports_stand(es: Seq<EntryView>, wire: Seq<WireAgent>, n: nat, i: int)
    requires
        distinct(es),
        agreeing(wire),
        0 <= i < n <= wire.len(),
        wire[i].session_id@.len() > 0,
    ensures
        merged(es, wire, n).contains(entry_of(wire[i])),
    decreases n,
{
    let before = merged(es, wire, (n - 1) as nat);
    let after = merged(es, wire, n);
    let e = entry_of(wire[n - 1]);
    lemma_entry_found(before, e.session_id);
    if i < n - 1 {
        lemma_reports_stand(es, wire, (n - 1) as nat, i);
        let k = choose|k: int| 0 <= k < before.len() && before[k] == entry_of(wire[i]);
        if wire[n - 1].session_id@.len() == 0 {
            assert(after[k] == entry_of(wire[i]));
        } else {
            let at = entry_index(before, e.session_id);
            if at < before.len() && at == k {
                assert(wire[i].session_id@ == wire[n - 1].session_id@);
                assert(after[k] == e);
            } else {
                assert(after[k] == entry_of(wire[i]));
            }
        }
    } else {
        let at = entry_index(before, e.session_id);
        assert(after[at as int] == e);
    }
}

/// Reports that the entries already hold change nothing.
proof fn lemma_known_reports(es: Seq<EntryView>, wire: Seq<WireAgent>, n: nat)
    requires
        distinct(es),
        n <= wire.len(),
        forall|i: int|
            0 <= i < wire.len() && (#[trigger] wire[i]).session_id@.len() > 0 ==> es.contains(
                entry_of(wire[i]),
            ),
    ensures
        merged(es, wire, n) == es,
        added(es, wire, n) == 0,
        updated(es, wire, n) == 0,
    decreases n,
{
    if n > 0 {
        lemma_known_reports(es, wire, (n - 1) as nat);
        let w = wire[n - 1];
        if w.session_id@.len() > 0 {
            let e = entry_of(w);
            assert(es.contains(e));
            let k = choose|k: int| 0 <= k < es.len() && es[k] == e;
            lemma_entry_found(es, e.session_id);
            let at = entry_index(es, e.session_id);
            assert(at == k) by {
                if at < k {
                    assert(es[at as int].session_id != es[k].session_id);
                }
                if k < at {
                    assert(es[k].session_id != e.session_id);
                }
            }
            assert(es.update(k, e) =~= es);
        }
    }
}

/// The same poll twice changes nothing the second time: nothing is added,
/// changed or dropped.
pub proof fn law_merge_is_idempotent(es: Seq<EntryView>, wire: Seq<WireAgent>)
    requires
        distinct(es),
        agreeing(wire),
    ensures
        after_poll(after_poll(es, wire), wire) == after_poll(es, wire),
        added(after_poll(es, wire), wire, wire.len()) == 0,
        updated(after_poll(es, wire), wire, wire.len()) == 0,
        merged(after_poll(es, wire), wire, wire.len()) == after_poll(es, wire),
{
    let all = merged(es, wire, wire.len());
    let p = |e: EntryView| listed(wire, e.session_id);
    let one = all.filter(p);
    lemma_merged_distinct(es, wire, wire.len());
    lemma_filter_distinct(all, p);
    assert forall|i: int|
        0 <= i < wire.len() && (#[trigger] wire[i]).session_id@.len() > 0 implies one.contains(
        entry_of(wire[i]),
    ) by {
        lemma_reports_stand(es, wire, wire.len(), i);
        let k = choose|k: int| 0 <= k < all.len() && all[k] == entry_of(wire[i]);
        assert(p(all[k]));
    }
    lemma_known_reports(one, wire, wire.len());
    lemma_filter_all(one, p);
}

proof fn lemma_filter_all(es: Seq<EntryView>, p: spec_fn(EntryView) -> bool)
    requires
        forall|i: int| 0 <= i < es.len() ==> p(#[trigger] es[i]),
    ensures
        es.filter(p) == es,
    decreases es.len(),
{
    reveal(Seq::filter);
    if es.len() > 0 {
        lemma_filter_all(es.drop_last(), p);
        assert(es.filter(p) =~= es);
    } else {
        assert(es.filter(p) =~= es);
    }
}

/// After a poll the roster holds exactly the reported sessions.
pub proof fn law_roster_holds_the_reported(es: Seq<EntryView>, wire: Seq<WireAgent>, sid: Seq<char>)
    requires
        distinct(es),
    ensures
        listed(wire, sid) <==> exists|k: int|
            0 <= k < after_poll(es, wire).len() && (#[trigger] after_poll(es, wire)[k]).session_id
                == sid,
{
    let all = merged(es, wire, wire.len());
    let p = |e: EntryView| listed(wire, e.session_id);
    lemma_merged_distinct(es, wire, wire.len());
    lemma_filter_distinct(all, p);
    if listed(wire, sid) {
        let i = choose|i: int| 0 <= i < wire.len() && #[trigger] wire[i].session_id@ == sid;
        lemma_session_present(es, wire, wire.len(), i);
        let k = choose|k: int| 0 <= k < all.len() && (#[trigger] all[k]).session_id == sid;
        assert(p(all[k]));
        assert(all.filter(p).contains(all[k]));
    }
}

proof fn lemma_session_present(es: Seq<EntryView>, wire: Seq<WireAgent>, n: nat, i: int)
    requires
        0 <= i < n <= wire.len(),
        wire[i].session_id@.len() > 0,
    ensures
        exists|k: int|
            0 <= k < merged(es, wire, n).len() && (#[trigger] merged(es, wire, n)[k]).session_id
                == wire[i].session_id@,
    decreases n,
{
    let before = merged(es, wire, (n - 1) as nat);
    let after = merged(es, wire, n);
    let e = entry_of(wire[n - 1]);
    lemma_entry_found(before, e.session_id);
    let at = entry_index(before, e.session_id);
    if i < n - 1 {
        lemma_session_present(es, wire, (n - 1) as nat, i);
        let k = choose|k: int|
            0 <= k < before.len() && (#[trigger] before[k]).session_id == wire[i].session_id@;
        assert(after[k].session_id == wire[i].session_id@);
    } else {
        assert(after[at as int].session_id == wire[i].session_id@);
    }
}

/// A report becomes an entry with all that it says: the word `idle` means rest
/// and any other work, and what cannot be negative is zero where the report is.
pub proof fn law_reports_become_entries(w: WireAgent)
    ensures
        ({
            let e = entry_of(w);
            &&& e.session_id == w.session_id@ && e.phase == w.phase@ && e.task == w.task@
            &&& e.project == w.project@ && e.task_id == w.task_id@
            &&& e.task_status == w.task_status@ && e.label == w.label@
            &&& e.provider == w.provider@ && e.model == w.model@
            &&& e.last_event_at_ms == w.last_event_at && e.seq == w.seq
            &&& e.status == AgentStatus::Idle <==> w.status@ == "idle"@
            &&& w.elapsed >= 0 ==> e.elapsed_sec == w.elapsed
            &&& w.elapsed < 0 ==> e.elapsed_sec == 0
            &&& w.delegation_depth >= 0 ==> e.delegation_depth == w.delegation_depth
            &&& w.delegation_depth < 0 ==> e.delegation_depth == 0
            &&& w.parent_session_id@.len() > 0 ==> e.parent_session_id == Some(
                w.parent_session_id@,
            )
            &&& w.parent_session_id@.len() == 0 ==> e.parent_session_id is None
            &&& w.kind@ == "subagent"@ ==> e.kind == AgentKind::Subagent
            &&& w.kind@ == "task"@ ==> e.kind == AgentKind::Task
            &&& w.kind@ != "subagent"@ && w.kind@ != "task"@ ==> e.kind == AgentKind::Session
        }),
{
    reveal_strlit("subagent");
    reveal_strlit("task");
    assert("subagent"@.len() == 8 && "task"@.len() == 4);
}

/// Known sessions keep their places while reports are merged, and new ones join
/// behind them: as many as are counted as added.
pub proof fn law_merging_keeps_places(es: Seq<EntryView>, wire: Seq<WireAgent>, n: nat)
    requires
        n <= wire.len(),
    ensures
        merged(es, wire, n).len() == es.len() + added(es, wire, n),
        forall|k: int|
            0 <= k < es.len() ==> (#[trigger] merged(es, wire, n)[k]).session_id
                == es[k].session_id,
    decreases n,
{
    if n > 0 {
        law_merging_keeps_places(es, wire, (n - 1) as nat);
        let before = merged(es, wire, (n - 1) as nat);
        let e = entry_of(wire[n - 1]);
        lemma_entry_found(before, e.session_id);
        assert forall|k: int| 0 <= k < es.len() implies (
        #[trigger] merged(es, wire, n)[k]).session_id == es[k].session_id by {
            assert(before[k].session_id == es[k].session_id);
        }
    }
}

proof fn lemma_last_report(es: Seq<EntryView>, wire: Seq<WireAgent>, n: nat, i: int)
    requires
        0 <= i < n <= wire.len(),
        wire[i].session_id@.len() > 0,
        forall|j: int| i < j < n ==> (#[trigger] wire[j]).session_id@ != wire[i].session_id@,
    ensures
        merged(es, wire, n).contains(entry_of(wire[i])),
    decreases n,
{
    let before = merged(es, wire, (n - 1) as nat);
    let after = merged(es, wire, n);
    let e = entry_of(wire[n - 1]);
    lemma_entry_found(before, e.session_id);
    let at = entry_index(before, e.session_id);
    if i == n - 1 {
        assert(after[at as int] == e);
    } else {
        lemma_last_report(es, wire, (n - 1) as nat, i);
        let k = choose|k: int| 0 <= k < before.len() && before[k] == entry_of(wire[i]);
        assert(wire[n - 1].session_id@ != wire[i].session_id@);
        assert(after[k] == before[k]);
    }
}

/// After a poll the entry of a session is what was last reported of it.
pub proof fn law_last_report_counts(es: Seq<EntryView>, wire: Seq<WireAgent>, i: int)
    requires
        distinct(es),
        0 <= i < wire.len(),
        wire[i].session_id@.len() > 0,
        forall|j: int|
            i < j < wire.len() ==> (#[trigger] wire[j]).session_id@ != wire[i].session_id@,
    ensures
        after_poll(es, wire).contains(entry_of(wire[i])),
        forall|k: int|
            0 <= k < after_poll(es, wire).len() && (#[trigger] after_poll(es, wire)[k]).session_id
                == wire[i].session_id@ ==> after_poll(es, wire)[k] == entry_of(wire[i]),
{
    let all = merged(es, wire, wire.len());
    let p = |e: EntryView| listed(wire, e.session_id);
    lemma_last_report(es, wire, wire.len(), i);
    lemma_merged_distinct(es, wire, wire.len());
    lemma_filter_distinct(all, p);
    let k = choose|k: int| 0 <= k < all.len() && all[k] == entry_of(wire[i]);
    assert(wire[i].session_id@ == entry_of(wire[i]).session_id);
    assert(p(all[k]));
    let out = after_poll(es, wire);
    assert(out.contains(all[k]));
    let m = choose|m: int| 0 <= m < out.len() && out[m] == entry_of(wire[i]);
    assert forall|q: int|
        0 <= q < out.len() && (#[trigger] out[q]).session_id == wire[i].session_id@ implies out[q]
        == entry_of(wire[i]) by {
        if q < m {
            assert(out[q].session_id != out[m].session_id);
        } else if q > m {
            assert(out[m].session_id != out[q].session_id);
        }
    }
}

/// One report of a known session counts as a change where it says something
/// new, and as nothing else.
pub proof fn law_changes_are_counted(es: Seq<EntryView>, w: WireAgent, k: int)
    requires
        0 <= k < es.len(),
        w.session_id@.len() > 0,
        es[k].session_id == w.session_id@,
        forall|j: int| 0 <= j < k ==> (#[trigger] es[j]).session_id != w.session_id@,
    ensures
        added(es, seq![w], 1) == 0,
        updated(es, seq![w], 1) == if es[k] == entry_of(w) {
            0nat
        } else {
            1nat
        },
        merged(es, seq![w], 1).len() == es.len(),
        merged(es, seq![w], 1)[k] == entry_of(w),
        forall|j: int|
            0 <= j < es.len() && j != k ==> merged(es, seq![w], 1)[j] == #[trigger] es[j],
{
    lemma_entry_index(es, w.session_id@, k);
    reveal_with_fuel(merged, 2);
    reveal_with_fuel(added, 2);
    reveal_with_fuel(updated, 2);
    assert(seq![w][0] == w);
}

/// An agent is shown under its label; without one under the first line of its
/// task, cut to what fits; without that under its session.
pub proof fn law_agents_have_a_name(e: EntryView)
    ensures
        trimmed(e.label).len() > 0 ==> e.display_name() == trimmed(e.label),
        trimmed(e.label).len() == 0 && 0 < first_line(e.task).len() <= 26 ==> e.display_name()
            == first_line(e.task),
        trimmed(e.label).len() == 0 && first_line(e.task).len() > 26 ==> e.display_name().len()
            == 27 && first_line(e.task).take(26).is_prefix_of(e.display_name()),
        trimmed(e.label).len() == 0 && first_line(e.task).len() == 0 && e.session_id.len() == 0
            ==> e.display_name() == "agent"@,
        trimmed(e.label).len() == 0 && first_line(e.task).len() == 0 && e.session_id.len() > 0
            ==> e.display_name().len() <= 6,
        forall|rest: Seq<char>|
            trimmed(e.label).len() == 0 && first_line(e.task).len() == 0 && e.session_id
                == #[trigger] ("session-"@ + rest) && rest.len() <= 6 ==> e.display_name() == rest,
{
    reveal_strlit("…");
    reveal_strlit("session-");
    assert("…"@.len() == 1);
    assert forall|rest: Seq<char>|
        trimmed(e.label).len() == 0 && first_line(e.task).len() == 0 && e.session_id
            == #[trigger] ("session-"@ + rest) && rest.len() <= 6 implies e.display_name()
        == rest by {
        law_parts_of_texts(e.session_id, "session-"@, rest, rest);
        assert(e.session_id.skip("session-"@.len() as int) =~= rest);
    }
}

/// A duration is shown in its two largest units: hours and minutes, minutes
/// and seconds, or seconds alone.
pub proof fn law_durations_are_shown_in_their_units(h: int, m: int, s: int)
    requires
        h >= 0,
        0 <= m < 60,
        0 <= s < 60,
    ensures
        h > 0 ==> elapsed_text(3600 * h + 60 * m + s) == decimal(h as nat) + "h"@ + decimal(
            m as nat,
        ) + "m"@,
        h == 0 && m > 0 ==> elapsed_text(3600 * h + 60 * m + s) == decimal(m as nat) + "m"@
            + decimal(s as nat) + "s"@,
        h == 0 && m == 0 ==> elapsed_text(3600 * h + 60 * m + s) == decimal(s as nat) + "s"@,
{
    let sec = 3600 * h + 60 * m + s;
    assert(sec / 3600 == h && sec % 3600 == 60 * m + s);
    assert((60 * m + s) / 60 == m);
    assert(sec % 60 == s);
}

/// Escaping works character by character, and leaves alone what markup does
/// not read.
pub proof fn law_escaping_is_character_wise(s: Seq<char>, c: char)
    ensures
        escaped(Seq::empty()).len() == 0,
        c == '&' ==> escaped(s.push(c)) == escaped(s) + "&amp;"@,
        c == '<' ==> escaped(s.push(c)) == escaped(s) + "&lt;"@,
        c == '>' ==> escaped(s.push(c)) == escaped(s) + "&gt;"@,
        c == '"' ==> escaped(s.push(c)) == escaped(s) + "&quot;"@,
        c == '\'' ==> escaped(s.push(c)) == escaped(s) + "&#39;"@,
        c != '&' && c != '<' && c != '>' && c != '"' && c != '\'' ==> escaped(s.push(c))
            == escaped(s).push(c),
{
    assert(s.push(c).drop_last() =~= s);
    assert(escaped(s) + seq![c] =~= escaped(s).push(c));
}

/// An agent whose task and phase name no stage rests or works as its status
/// says; a phase that names one counts where the task does not.
pub proof fn law_stages_have_their_order(
    task_status: Seq<char>,
    phase: Seq<char>,
    status: AgentStatus,
)
    ensures
        mapped(trimmed(task_status)) is Some ==> stage_key_of(task_status, phase, status) == mapped(
            trimmed(task_status),
        )->0,
        mapped(trimmed(task_status)) is None && mapped(trimmed(phase)) is Some ==> stage_key_of(
            task_status,
            phase,
            status,
        ) == mapped(trimmed(phase))->0,
        mapped(trimmed(task_status)) is None && mapped(trimmed(phase)) is None ==> stage_key_of(
            task_status,
            phase,
            status,
        ) == if status == AgentStatus::Idle {
            "idle"@
        } else {
            "working"@
        },
        mapped("round1"@) == Some("planning"@),
        mapped("round2"@) == Some("implementing"@),
        mapped("plan_review"@) == Some("plan-review"@),
{
    reveal_strlit("round1");
    reveal_strlit("round2");
    reveal_strlit("plan_review");
    assert("round1"@[5] == '1' && "round2"@[5] == '2' && "plan_review"@[0] == 'p'
        && "round1"@[0] == 'r' && "round2"@[0] == 'r');
}

/// The short form of an identity is its first six characters, behind the word
/// that sessions begin with.
pub proof fn law_short_identities_have_six_characters(rest: Seq<char>)
    ensures
        rest.len() > 6 ==> short_id("session-"@ + rest) == rest.take(6),
        rest.len() <= 6 ==> short_id("session-"@ + rest) == rest,
        rest.len() > 0 && rest[0] != 's' ==> short_id(rest) == head(rest, 6),
        rest.len() > 6 ==> head(rest, 6) == rest.take(6),
        rest.len() <= 6 ==> head(rest, 6) == rest,
{
    reveal_strlit("session-");
    let p = "session-"@;
    assert(p.len() == 8 && p[0] == 's');
    assert((p + rest).subrange(0, 8) =~= p);
    assert((p + rest).skip(8) =~= rest);
    if rest.len() >= 8 {
        assert(rest.subrange(0, 8)[0] == rest[0]);
    }
}

} // verus!
