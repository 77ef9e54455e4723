//! The panel of the plan mode: what the server says of it, never more.

use vstd::prelude::*;

verus! {

/// The panel of the plan mode.
#[derive(Debug, Clone, Copy, PartialEq, Eq, Structural)]
pub struct PlanViewState {
    pub visible: bool,
    /// Whether the session plans; none where the server does not say.
    pub active: Option<bool>,
    /// Whether the mode is being switched.
    pub pending: Option<bool>,
}

impl Default for PlanViewState {
    fn default() -> (r: Self)
        ensures
            r == (PlanViewState { visible: false, active: None, pending: None }),
    {
        PlanViewState { visible: false, active: None, pending: None }
    }
}

impl PlanViewState {
    /// Opens the panel.
    pub fn open(&mut self)
        ensures
            *final(self) == (PlanViewState { visible: true, ..*old(self) }),
    {
        self.visible = true;
    }

    /// Closes the panel and forgets what it held.
    pub fn close(&mut self)
        ensures
            *final(self) == (PlanViewState { visible: false, active: None, pending: None }),
    {
        *self = PlanViewState::default();
    }

    /// Takes over what the server says.
    pub fn set_projection(&mut self, active: Option<bool>, pending: Option<bool>)
        ensures
            *final(self) == (PlanViewState { active, pending, ..*old(self) }),
    {
        self.active = active;
        self.pending = pending;
    }

    /// The word for the state of the plan mode.
    pub fn status(&self) -> (r: &'static str)
        ensures
            r@ == match self.active {
                Some(on) => if on {
                    "plan"@
                } else if self.pending == Some(true) {
                    "switching"@
                } else {
                    "off"@
                },
                None => "unsupported"@,
            },
    {
        match (self.active, self.pending) {
            (Some(true), _) => "plan",
            (Some(false), Some(true)) => "switching",
            (Some(false), _) => "off",
            (None, _) => "unsupported",
        }
    }
}

} // verus!
