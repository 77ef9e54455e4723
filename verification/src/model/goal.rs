//! The panel of a session's goal. A session has one goal at most. Every change
//! of it names the revision that it was made on; one at a time is under way.

use vstd::prelude::*;

verus! {

/// How far a goal is.
#[derive(Debug, Clone, PartialEq, Eq)]
pub enum GoalPhase {
    Active,
    Paused,
    /// Any other phase, by its word.
    Other(String),
}

/// A goal as it is shown.
#[derive(Debug, Clone, PartialEq, Eq)]
pub struct GoalView {
    pub id: String,
    pub revision: u64,
    pub objective: String,
    pub phase: Option<GoalPhase>,
    pub blocked_reason: Option<String>,
    pub max_goal_rounds: Option<u64>,
    pub rounds_started: Option<u64>,
    pub created_at: Option<i64>,
    pub updated_at: Option<i64>,
}

/// A change of a goal.
#[derive(Debug, Clone, Copy, PartialEq, Eq, Structural)]
pub enum GoalOpKind {
    Create,
    Edit,
    Pause,
    Resume,
    Complete,
    Clear,
}

impl GoalOpKind {
    /// The word for a change.
    pub fn as_str(self) -> (r: &'static str)
        ensures
            r@ == match self {
                GoalOpKind::Create => "create"@,
                GoalOpKind::Edit => "edit"@,
                GoalOpKind::Pause => "pause"@,
                GoalOpKind::Resume => "resume"@,
                GoalOpKind::Complete => "complete"@,
                GoalOpKind::Clear => "clear"@,
            },
    {
        match self {
            GoalOpKind::Create => "create",
            GoalOpKind::Edit => "edit",
            GoalOpKind::Pause => "pause",
            GoalOpKind::Resume => "resume",
            GoalOpKind::Complete => "complete",
            GoalOpKind::Clear => "clear",
        }
    }
}

/// The panel of the goal.
#[derive(Debug, Clone, PartialEq, Eq)]
pub struct GoalPanelState {
    pub visible: bool,
    /// The goal; none where the session has none.
    pub goal: Option<GoalView>,
    /// The revision that the last change was made on.
    pub sent_revision: Option<u64>,
    /// The change that is under way.
    pub inflight: Option<GoalOpKind>,
    /// Whether the goal was changed elsewhere and must be read anew.
    pub stale_revision: bool,
    pub create_objective: String,
    pub create_max_rounds: Option<u64>,
    /// The change that waits to be confirmed.
    pub confirm_pending: Option<GoalOpKind>,
    pub last_error_code: Option<String>,
}

impl GoalPanelState {
    /// Whether the panel is closed and holds nothing.
    pub open spec fn blank(self) -> bool {
        &&& !self.visible
        &&& self.goal is None
        &&& self.sent_revision is None
        &&& self.inflight is None
        &&& !self.stale_revision
        &&& self.create_objective@.len() == 0
        &&& self.create_max_rounds is None
        &&& self.confirm_pending is None
        &&& self.last_error_code is None
    }

    /// Whether a change may begin: none is under way, and what is shown is
    /// fresh. A goal is created only where there is none; every other change
    /// is one of the goal that is there.
    pub open spec fn may_begin(self, kind: GoalOpKind) -> bool {
        &&& self.inflight is None
        &&& !self.stale_revision
        &&& if kind == GoalOpKind::Create {
            self.goal is None
        } else {
            self.goal is Some
        }
    }
}

impl Default for GoalPanelState {
    fn default() -> (r: Self)
        ensures
            r.blank(),
    {
        GoalPanelState {
            visible: false,
            goal: None,
            sent_revision: None,
            inflight: None,
            stale_revision: false,
            create_objective: String::new(),
            create_max_rounds: None,
            confirm_pending: None,
            last_error_code: None,
        }
    }
}

impl GoalPanelState {
    /// Opens the panel.
    pub fn open(&mut self)
        ensures
            *final(self) == (GoalPanelState {
                visible: true,
                last_error_code: None,
                ..*old(self)
            }),
    {
        self.visible = true;
        self.last_error_code = None;
    }

    /// Closes the panel and forgets what it held.
    pub fn close(&mut self)
        ensures
            final(self).blank(),
    {
        *self = GoalPanelState::default();
    }

    /// Takes over the goal as it was read.
    pub fn set_goal(&mut self, goal: Option<GoalView>, stale: bool)
        ensures
            *final(self) == (GoalPanelState { goal, stale_revision: stale, ..*old(self) }),
    {
        self.goal = goal;
        self.stale_revision = stale;
    }

    /// Begins a change; whether it may begin. A change of the goal is made on
    /// the revision that is shown, and none is while that is stale.
    pub fn begin_op(&mut self, kind: GoalOpKind) -> (r: bool)
        ensures
            r == old(self).may_begin(kind),
            *final(self) == if r {
                GoalPanelState {
                    sent_revision: if kind == GoalOpKind::Create {
                        old(self).sent_revision
                    } else {
                        Some(old(self).goal->0.revision)
                    },
                    inflight: Some(kind),
                    last_error_code: None,
                    ..*old(self)
                }
            } else {
                *old(self)
            },
    {
        if self.inflight.is_some() || self.stale_revision {
            return false;
        }
        if kind == GoalOpKind::Create {
            if self.goal.is_some() {
                return false;
            }
        } else {
            let revision: Option<u64> = match &self.goal {
                Some(g) => Some(g.revision),
                None => None,
            };
            if revision.is_none() {
                return false;
            }
            self.sent_revision = revision;
        }
        self.inflight = Some(kind);
        self.last_error_code = None;
        true
    }

    /// Ends a change that succeeded: the goal is as the server says, and gone
    /// where it was cleared.
    pub fn settle_op(&mut self, updated: Option<GoalView>)
        ensures
            *final(self) == (GoalPanelState {
                inflight: None,
                sent_revision: None,
                confirm_pending: None,
                goal: if updated is Some {
                    updated
                } else if old(self).inflight == Some(GoalOpKind::Clear) {
                    None
                } else {
                    old(self).goal
                },
                stale_revision: if updated is Some || old(self).inflight == Some(
                    GoalOpKind::Clear,
                ) {
                    false
                } else {
                    old(self).stale_revision
                },
                ..*old(self)
            }),
    {
        let was_clear = match self.inflight {
            Some(k) => k == GoalOpKind::Clear,
            None => false,
        };
        self.inflight = None;
        self.sent_revision = None;
        self.confirm_pending = None;
        if updated.is_some() {
            self.set_goal(updated, false);
        } else if was_clear {
            self.set_goal(None, false);
        }
    }

    /// Ends a change that failed; a stale revision blocks further changes
    /// until the goal is read anew.
    pub fn fail_op(&mut self, code: String, stale: bool)
        ensures
            *final(self) == (GoalPanelState {
                inflight: None,
                stale_revision: stale || old(self).stale_revision,
                last_error_code: Some(code),
                ..*old(self)
            }),
    {
        self.inflight = None;
        if stale {
            self.stale_revision = true;
        }
        self.last_error_code = Some(code);
    }

    /// Asks to confirm a change.
    pub fn request_confirm(&mut self, kind: GoalOpKind)
        ensures
            *final(self) == (GoalPanelState { confirm_pending: Some(kind), ..*old(self) }),
    {
        self.confirm_pending = Some(kind);
    }

    /// Drops a change that waited to be confirmed.
    pub fn cancel_confirm(&mut self)
        ensures
            *final(self) == (GoalPanelState { confirm_pending: None, ..*old(self) }),
    {
        self.confirm_pending = None;
    }
}

/// While a change is under way no other begins, and after a stale revision
/// none does until the goal was read anew. What is not there is not changed,
/// and what is there is not created.
pub proof fn law_one_change_at_a_time(s: GoalPanelState, kind: GoalOpKind)
    ensures
        s.inflight is Some ==> !s.may_begin(kind),
        s.stale_revision ==> !s.may_begin(kind),
        s.goal is None && kind != GoalOpKind::Create ==> !s.may_begin(kind),
        s.goal is Some && kind == GoalOpKind::Create ==> !s.may_begin(kind),
{
}

/// A change begins wherever nothing stands in its way: none is under way, what
/// is shown is fresh, and there is a goal to change or none to create it beside.
pub proof fn law_changes_begin_where_they_may(s: GoalPanelState, kind: GoalOpKind)
    requires
        s.inflight is None,
        !s.stale_revision,
    ensures
        kind == GoalOpKind::Create ==> (s.may_begin(kind) <==> s.goal is None),
        kind != GoalOpKind::Create ==> (s.may_begin(kind) <==> s.goal is Some),
{
}

/// A panel that was closed holds nothing of what it held.
pub proof fn law_closed_panels_hold_nothing(s: GoalPanelState)
    requires
        s.blank(),
    ensures
        !s.visible,
        s.goal is None,
        s.inflight is None,
        s.sent_revision is None,
        s.confirm_pending is None,
        !s.stale_revision,
        s.may_begin(GoalOpKind::Create),
{
}

} // verus!
