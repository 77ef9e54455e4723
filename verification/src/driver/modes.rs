//! Which keys are in force.

use vstd::prelude::*;

use crate::input::keymap::InputMode;

verus! {

/// What the user is doing.
#[derive(Debug, Clone, Copy, PartialEq, Eq, Structural, Default)]
pub enum Mode {
    #[default]
    Normal,
    Picker,
    Insert,
    Search,
    Visual,
    Approval,
    ImageView,
    Trajectory,
    ModelCatalog,
    CommandPalette,
    Mention,
    Subagent,
    Goal,
    Jobs,
}

/// What lies over the screen.
#[derive(Debug, Clone, Copy, PartialEq, Eq, Structural, Default)]
pub struct Overlays {
    pub help: bool,
    pub approval_list: bool,
    pub filter: bool,
}

/// Which keys are in force.
pub open spec fn keys_of(mode: Mode, o: Overlays) -> InputMode {
    match mode {
        Mode::Normal => if o.help {
            InputMode::Help
        } else {
            InputMode::Normal
        },
        Mode::Picker => InputMode::Picker,
        Mode::Insert => InputMode::Insert,
        Mode::Search => InputMode::Search,
        Mode::Visual => InputMode::Visual,
        Mode::Approval => if o.approval_list {
            InputMode::ApprovalList
        } else {
            InputMode::Approval
        },
        Mode::ImageView => InputMode::ImageView,
        Mode::Trajectory => if o.filter {
            InputMode::TrajectoryFilter
        } else {
            InputMode::Trajectory
        },
        Mode::ModelCatalog => InputMode::ModelCatalog,
        Mode::CommandPalette => InputMode::CommandPalette,
        Mode::Mention => InputMode::Mention,
        Mode::Subagent => InputMode::Subagent,
        Mode::Goal => InputMode::Goal,
        Mode::Jobs => InputMode::Jobs,
    }
}

/// Which keys are in force.
pub fn input_mode(mode: Mode, o: Overlays) -> (r: InputMode)
    ensures
        r == keys_of(mode, o),
{
    match mode {
        Mode::Normal => if o.help {
            InputMode::Help
        } else {
            InputMode::Normal
        },
        Mode::Picker => InputMode::Picker,
        Mode::Insert => InputMode::Insert,
        Mode::Search => InputMode::Search,
        Mode::Visual => InputMode::Visual,
        Mode::Approval => if o.approval_list {
            InputMode::ApprovalList
        } else {
            InputMode::Approval
        },
        Mode::ImageView => InputMode::ImageView,
        Mode::Trajectory => if o.filter {
            InputMode::TrajectoryFilter
        } else {
            InputMode::Trajectory
        },
        Mode::ModelCatalog => InputMode::ModelCatalog,
        Mode::CommandPalette => InputMode::CommandPalette,
        Mode::Mention => InputMode::Mention,
        Mode::Subagent => InputMode::Subagent,
        Mode::Goal => InputMode::Goal,
        Mode::Jobs => InputMode::Jobs,
    }
}

/// Each mode has keys of its own, and an overlay takes the keys only of the
/// mode that it lies over: help of the normal one, the list of requests of
/// approvals, the filter of the trajectory.
pub proof fn law_overlays_take_the_keys_of_their_mode(mode: Mode, o: Overlays)
    ensures
        keys_of(mode, o) == InputMode::Help <==> mode == Mode::Normal && o.help,
        keys_of(mode, o) == InputMode::Normal <==> mode == Mode::Normal && !o.help,
        keys_of(mode, o) == InputMode::ApprovalList <==> mode == Mode::Approval
            && o.approval_list,
        keys_of(mode, o) == InputMode::Approval <==> mode == Mode::Approval && !o.approval_list,
        keys_of(mode, o) == InputMode::TrajectoryFilter <==> mode == Mode::Trajectory && o.filter,
        keys_of(mode, o) == InputMode::Trajectory <==> mode == Mode::Trajectory && !o.filter,
        keys_of(mode, o) == InputMode::Insert <==> mode == Mode::Insert,
        keys_of(mode, o) == InputMode::Picker <==> mode == Mode::Picker,
        keys_of(mode, o) == InputMode::Search <==> mode == Mode::Search,
        keys_of(mode, o) == InputMode::Visual <==> mode == Mode::Visual,
        keys_of(mode, o) == InputMode::ImageView <==> mode == Mode::ImageView,
        keys_of(mode, o) == InputMode::ModelCatalog <==> mode == Mode::ModelCatalog,
        keys_of(mode, o) == InputMode::CommandPalette <==> mode == Mode::CommandPalette,
        keys_of(mode, o) == InputMode::Mention <==> mode == Mode::Mention,
        keys_of(mode, o) == InputMode::Subagent <==> mode == Mode::Subagent,
        keys_of(mode, o) == InputMode::Goal <==> mode == Mode::Goal,
        keys_of(mode, o) == InputMode::Jobs <==> mode == Mode::Jobs,
{
}

} // verus!
