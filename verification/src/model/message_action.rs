//! Actions on a message: one at a time, and on a message that is still being
//! written only after it was confirmed.

use vstd::prelude::*;

verus! {

/// An action on a message.
#[derive(Debug, Clone, Copy, PartialEq, Eq, Structural)]
pub enum MessageActionKind {
    Branch,
    Retry,
    FeedbackPositive,
    FeedbackNegative,
}

impl MessageActionKind {
    /// The word for an action.
    pub fn as_str(self) -> (r: &'static str)
        ensures
            r@ == match self {
                MessageActionKind::Branch => "branch"@,
                MessageActionKind::Retry => "retry"@,
                MessageActionKind::FeedbackPositive => "feedback+"@,
                MessageActionKind::FeedbackNegative => "feedback-"@,
            },
    {
        match self {
            MessageActionKind::Branch => "branch",
            MessageActionKind::Retry => "retry",
            MessageActionKind::FeedbackPositive => "feedback+",
            MessageActionKind::FeedbackNegative => "feedback-",
        }
    }
}

/// The menu of actions.
#[derive(Debug, Clone, PartialEq, Eq)]
pub struct MessageActionState {
    /// Position of the message that the menu is open for.
    pub menu_seq: Option<u64>,
    pub menu_cursor: usize,
    /// The action that is under way.
    pub inflight: Option<MessageActionKind>,
    /// Whether an action on a running message waits to be confirmed.
    pub confirm_running: bool,
    pub feedback_note: String,
    pub last_error_code: Option<String>,
}

impl Default for MessageActionState {
    fn default() -> (r: Self)
        ensures
            r.menu_seq is None,
            r.menu_cursor == 0,
            r.inflight is None,
            !r.confirm_running,
            r.feedback_note@.len() == 0,
            r.last_error_code is None,
    {
        MessageActionState {
            menu_seq: None,
            menu_cursor: 0,
            inflight: None,
            confirm_running: false,
            feedback_note: String::new(),
            last_error_code: None,
        }
    }
}

/// The state after an action was to begin, and whether it began.
pub open spec fn begun(s: MessageActionState, kind: MessageActionKind, running: bool) -> (
    MessageActionState,
    bool,
) {
    if s.inflight is Some {
        (s, false)
    } else if running {
        (MessageActionState { confirm_running: true, ..s }, false)
    } else {
        (MessageActionState { inflight: Some(kind), last_error_code: None, ..s }, true)
    }
}

/// The state after an action was confirmed, and whether it began.
pub open spec fn confirmed(s: MessageActionState, kind: MessageActionKind) -> (
    MessageActionState,
    bool,
) {
    if s.confirm_running && s.inflight is None {
        (MessageActionState { confirm_running: false, inflight: Some(kind), ..s }, true)
    } else {
        (s, false)
    }
}

/// The state after an action failed.
pub open spec fn failed(s: MessageActionState, code: String) -> MessageActionState {
    MessageActionState { inflight: None, last_error_code: Some(code), ..s }
}

impl MessageActionState {
    /// Opens the menu for a message.
    pub fn open_menu(&mut self, seq: u64)
        ensures
            *final(self) == (MessageActionState {
                menu_seq: Some(seq),
                menu_cursor: 0,
                last_error_code: None,
                ..*old(self)
            }),
    {
        self.menu_seq = Some(seq);
        self.menu_cursor = 0;
        self.last_error_code = None;
    }

    /// Closes the menu; the note goes, an action that is under way stays.
    pub fn close_menu(&mut self)
        ensures
            final(self).menu_seq is None,
            !final(self).confirm_running,
            final(self).feedback_note@.len() == 0,
            final(self).menu_cursor == old(self).menu_cursor,
            final(self).inflight == old(self).inflight,
            final(self).last_error_code == old(self).last_error_code,
    {
        self.menu_seq = None;
        self.confirm_running = false;
        self.feedback_note = String::new();
    }

    /// Begins an action; whether it begins. One on a running message waits to
    /// be confirmed instead.
    pub fn begin(&mut self, kind: MessageActionKind, running: bool) -> (r: bool)
        ensures
            (*final(self), r) == begun(*old(self), kind, running),
    {
        if self.inflight.is_some() {
            return false;
        }
        if running {
            self.confirm_running = true;
            return false;
        }
        self.inflight = Some(kind);
        self.last_error_code = None;
        true
    }

    /// Begins an action that waited to be confirmed; whether one did.
    pub fn confirm(&mut self, kind: MessageActionKind) -> (r: bool)
        ensures
            (*final(self), r) == confirmed(*old(self), kind),
    {
        if !self.confirm_running || self.inflight.is_some() {
            return false;
        }
        self.confirm_running = false;
        self.inflight = Some(kind);
        true
    }

    /// Ends an action that succeeded, and closes the menu.
    pub fn settle(&mut self)
        ensures
            final(self).inflight is None,
            final(self).menu_seq is None,
            !final(self).confirm_running,
            final(self).feedback_note@.len() == 0,
            final(self).menu_cursor == old(self).menu_cursor,
            final(self).last_error_code == old(self).last_error_code,
    {
        self.inflight = None;
        self.close_menu();
    }

    /// Ends an action that failed.
    pub fn fail(&mut self, code: String)
        ensures
            *final(self) == failed(*old(self), code),
    {
        self.inflight = None;
        self.last_error_code = Some(code);
    }
}

/// Whether a session may be branched at a message: at the last one of the
/// user, while nothing runs.
pub fn can_branch(running: bool, is_last_user: bool) -> (r: bool)
    ensures
        r == (!running && is_last_user),
{
    !running && is_last_user
}

/// While an action is under way no other begins, and asking for one changes
/// nothing; once it has failed the next one can begin.
pub proof fn law_one_action_at_a_time(
    s: MessageActionState,
    kind: MessageActionKind,
    running: bool,
    code: String,
)
    requires
        s.inflight is Some,
    ensures
        begun(s, kind, running) == (s, false),
        confirmed(s, kind) == (s, false),
        begun(failed(s, code), kind, false).1,
{
}

/// An action on a running message begins only once it was confirmed.
pub proof fn law_running_messages_are_confirmed(s: MessageActionState, kind: MessageActionKind)
    requires
        s.inflight is None,
    ensures
        !begun(s, kind, true).1,
        begun(s, kind, true).0.inflight is None,
        confirmed(begun(s, kind, true).0, kind).1,
        confirmed(begun(s, kind, true).0, kind).0.inflight == Some(kind),
{
}

/// An action on a message that is not being written begins at once where none
/// is under way, as the one that was asked for; the menu stays as it is.
pub proof fn law_free_actions_begin(s: MessageActionState, kind: MessageActionKind)
    requires
        s.inflight is None,
    ensures
        begun(s, kind, false).1,
        begun(s, kind, false).0.inflight == Some(kind),
        begun(s, kind, false).0.last_error_code is None,
        begun(s, kind, false).0.menu_seq == s.menu_seq,
        begun(s, kind, false).0.menu_cursor == s.menu_cursor,
        begun(s, kind, false).0.feedback_note == s.feedback_note,
        begun(s, kind, true).0.confirm_running,
        begun(s, kind, true).0.menu_seq == s.menu_seq,
        begun(s, kind, true).0.menu_cursor == s.menu_cursor,
        begun(s, kind, true).0.feedback_note == s.feedback_note,
        !s.confirm_running ==> confirmed(s, kind) == (s, false),
        !confirmed(begun(s, kind, true).0, kind).0.confirm_running,
        confirmed(begun(s, kind, true).0, kind).0.menu_seq == s.menu_seq,
        confirmed(begun(s, kind, true).0, kind).0.feedback_note == s.feedback_note,
{
}

/// An action that failed is over, says why, and leaves the menu and the note.
pub proof fn law_failed_actions_say_why(s: MessageActionState, code: String)
    ensures
        failed(s, code).inflight is None,
        failed(s, code).last_error_code == Some(code),
        failed(s, code).menu_seq == s.menu_seq,
        failed(s, code).menu_cursor == s.menu_cursor,
        failed(s, code).feedback_note == s.feedback_note,
        failed(s, code).confirm_running == s.confirm_running,
{
}

} // verus!
