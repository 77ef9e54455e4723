//! Keys: which command a key gives in which mode, and how the configuration
//! overrides them.
//!
//! The decoder is pure: it takes terminal events and gives commands. Letters
//! that belong to text input are never overridden, and the prefix `g` keeps its
//! meaning.

use vstd::prelude::*;

use crate::config::{pair_views, Effective, KeymapConfig, ModeBinds};
use crate::text::{cat, cat3, chars_of, same, whitespace, is_whitespace};
use crate::wire::SessionId;

verus! {

/// Modes of input; they decide what a key means.
#[derive(Debug, Clone, Copy, Default, PartialEq, Eq, PartialOrd, Ord, Hash, Structural)]
pub enum InputMode {
    #[default]
    Normal,
    Picker,
    Insert,
    Help,
    /// Overlay of the structured search.
    Search,
    /// Visual selection.
    Visual,
    /// Decision on one approval.
    Approval,
    /// List of approvals.
    ApprovalList,
    /// Viewer of an image.
    ImageView,
    /// Trajectory of a session.
    Trajectory,
    /// Filter input inside the trajectory.
    TrajectoryFilter,
    /// Overlay of the model catalog.
    ModelCatalog,
    /// Overlay of the command palette.
    CommandPalette,
    /// Agent monitor.
    Monitor,
    /// Candidates of a mention.
    Mention,
    /// Panel of subagents.
    Subagent,
    /// Panel of the goal.
    Goal,
    /// Panel of jobs.
    Jobs,
}

/// What the input asks the application to do.
#[derive(Debug, Clone, PartialEq, Eq)]
pub enum Command {
    MoveDown,
    MoveUp,
    HalfPageDown,
    HalfPageUp,
    GotoBottom,
    GotoTop,
    OpenPicker,
    ClosePicker,
    InsertMode,
    PickerDown,
    PickerUp,
    PickerConfirm,
    PickerInput(String),
    PickerBackspace,
    SubmitInput,
    OpenSelected,
    OpenFocused,
    OpenHelp,
    CloseHelp,
    Quit,
    RetryProbe,
    CycleFocus,
    ToggleWorkspace,
    StopRunning,
    CollapseProject,
    ExpandProject,
    OpenSession(SessionId),
    Resize { width: u16, height: u16 },
    StartSearch,
    SearchNext,
    SearchPrev,
    VisualStart { line: bool },
    VisualYank,
    YankContext,
    OpenOutline,
    NextTurn,
    PrevTurn,
    ApprovalAllow,
    ApprovalReject,
    ApprovalCancel,
    ApprovalAlways,
    OpenApprovalList,
    ApprovalRetry,
    ApprovalBatchAllow,
    CloseApprovalList,
    HistoryPrev,
    HistoryNext,
    ImageViewCopy,
    ImageViewOpenExternal,
    ImageViewClose,
    ToggleTrajectory,
    GotoChat,
    ToggleFold,
    OpenDetail,
    MonitorOpenChat,
    MonitorStats,
    MonitorCheer,
    MonitorLocate,
    OpenModelCatalog,
    CycleSidebarView,
    OpenCommandPalette,
    ComposerTabComplete,
    SubagentInterrupt,
}

/// A key of the keyboard; `Other` is any that no mode knows.
#[derive(Debug, Clone, Copy, PartialEq, Eq, Structural)]
pub enum KeyCode {
    Char(char),
    Enter,
    Esc,
    Backspace,
    Up,
    Down,
    Tab,
    Other,
}

/// Keys held down together with another; `other` is any but the three named.
#[derive(Debug, Clone, Copy, PartialEq, Eq, Structural)]
pub struct KeyModifiers {
    pub shift: bool,
    pub control: bool,
    pub alt: bool,
    pub other: bool,
}

impl KeyModifiers {
    pub open spec fn none_held(self) -> bool {
        !self.shift && !self.control && !self.alt && !self.other
    }

    /// No key held.
    pub fn none() -> (r: KeyModifiers)
        ensures
            r.none_held(),
    {
        KeyModifiers { shift: false, control: false, alt: false, other: false }
    }

    /// Control alone.
    pub fn control() -> (r: KeyModifiers)
        ensures
            r == (KeyModifiers { shift: false, control: true, alt: false, other: false }),
    {
        KeyModifiers { shift: false, control: true, alt: false, other: false }
    }

    /// Alt alone.
    pub fn alt() -> (r: KeyModifiers)
        ensures
            r == (KeyModifiers { shift: false, control: false, alt: true, other: false }),
    {
        KeyModifiers { shift: false, control: false, alt: true, other: false }
    }

    /// Shift alone.
    pub fn shift() -> (r: KeyModifiers)
        ensures
            r == (KeyModifiers { shift: true, control: false, alt: false, other: false }),
    {
        KeyModifiers { shift: true, control: false, alt: false, other: false }
    }

    pub fn is_empty(&self) -> (r: bool)
        ensures
            r == self.none_held(),
    {
        !self.shift && !self.control && !self.alt && !self.other
    }
}

/// What happened to a key.
#[derive(Debug, Clone, Copy, PartialEq, Eq, Structural)]
pub enum KeyEventKind {
    Press,
    Repeat,
    Release,
}

/// A key event.
#[derive(Debug, Clone, Copy, PartialEq, Eq, Structural)]
pub struct KeyEvent {
    pub code: KeyCode,
    pub modifiers: KeyModifiers,
    pub kind: KeyEventKind,
}

impl KeyEvent {
    /// A key that was pressed.
    pub fn new(code: KeyCode, modifiers: KeyModifiers) -> (r: KeyEvent)
        ensures
            r == (KeyEvent { code, modifiers, kind: KeyEventKind::Press }),
    {
        KeyEvent { code, modifiers, kind: KeyEventKind::Press }
    }

    pub fn new_with_kind(code: KeyCode, modifiers: KeyModifiers, kind: KeyEventKind) -> (r:
        KeyEvent)
        ensures
            r == (KeyEvent { code, modifiers, kind }),
    {
        KeyEvent { code, modifiers, kind }
    }
}

/// A terminal event; `Other` is any that gives no command.
#[derive(Debug, Clone, Copy, PartialEq, Eq, Structural)]
pub enum Event {
    Key(KeyEvent),
    Resize(u16, u16),
    Other,
}

/// What a key gives: nothing, a command, or text for the input line.
pub enum Decoded {
    Nothing,
    Is(Command),
    Input(Seq<char>),
}

/// Whether an outcome is the one described.
pub open spec fn gives(r: Option<Command>, d: Decoded) -> bool {
    match d {
        Decoded::Nothing => r is None,
        Decoded::Is(c) => r == Some(c),
        Decoded::Input(t) => match r {
            Some(Command::PickerInput(s)) => s@ == t,
            _ => false,
        },
    }
}

/// The command of a table entry.
pub open spec fn from_table(c: Option<Command>) -> Decoded {
    match c {
        Some(cmd) => Decoded::Is(cmd),
        None => Decoded::Nothing,
    }
}

/// A character as input.
fn input(c: char) -> (r: Option<Command>)
    ensures
        gives(r, Decoded::Input(seq![c])),
{
    let mut s = String::new();
    s.push(c);
    assert(s@ =~= seq![c]);
    Some(Command::PickerInput(s))
}

/// A letter in normal mode.
pub open spec fn normal_char(c: char) -> Option<Command> {
    match c {
        'j' => Some(Command::MoveDown),
        'k' => Some(Command::MoveUp),
        'G' => Some(Command::GotoBottom),
        'f' => Some(Command::OpenPicker),
        'i' => Some(Command::InsertMode),
        '?' => Some(Command::OpenHelp),
        'q' => Some(Command::Quit),
        'r' => Some(Command::RetryProbe),
        's' => Some(Command::StopRunning),
        'h' => Some(Command::CollapseProject),
        'l' => Some(Command::ExpandProject),
        'o' => Some(Command::OpenSelected),
        '/' => Some(Command::StartSearch),
        'v' => Some(Command::VisualStart { line: false }),
        'V' => Some(Command::VisualStart { line: true }),
        'y' => Some(Command::YankContext),
        'O' => Some(Command::OpenOutline),
        ']' => Some(Command::NextTurn),
        '[' => Some(Command::PrevTurn),
        '1' => Some(Command::GotoChat),
        '2' => Some(Command::ToggleTrajectory),
        'M' => Some(Command::OpenModelCatalog),
        ':' => Some(Command::OpenCommandPalette),
        _ => None,
    }
}

fn normal_char_key(c: char) -> (r: Option<Command>)
    ensures
        r == normal_char(c),
{
    match c {
        'j' => Some(Command::MoveDown),
        'k' => Some(Command::MoveUp),
        'G' => Some(Command::GotoBottom),
        'f' => Some(Command::OpenPicker),
        'i' => Some(Command::InsertMode),
        '?' => Some(Command::OpenHelp),
        'q' => Some(Command::Quit),
        'r' => Some(Command::RetryProbe),
        's' => Some(Command::StopRunning),
        'h' => Some(Command::CollapseProject),
        'l' => Some(Command::ExpandProject),
        'o' => Some(Command::OpenSelected),
        '/' => Some(Command::StartSearch),
        'v' => Some(Command::VisualStart { line: false }),
        'V' => Some(Command::VisualStart { line: true }),
        'y' => Some(Command::YankContext),
        'O' => Some(Command::OpenOutline),
        ']' => Some(Command::NextTurn),
        '[' => Some(Command::PrevTurn),
        '1' => Some(Command::GotoChat),
        '2' => Some(Command::ToggleTrajectory),
        'M' => Some(Command::OpenModelCatalog),
        ':' => Some(Command::OpenCommandPalette),
        _ => None,
    }
}

/// A letter behind the prefix `g`.
pub open spec fn g_char(c: char) -> Option<Command> {
    match c {
        't' => Some(Command::ToggleTrajectory),
        'T' => Some(Command::GotoChat),
        'v' => Some(Command::CycleSidebarView),
        _ => None,
    }
}

fn g_char_key(c: char) -> (r: Option<Command>)
    ensures
        r == g_char(c),
{
    match c {
        't' => Some(Command::ToggleTrajectory),
        'T' => Some(Command::GotoChat),
        'v' => Some(Command::CycleSidebarView),
        _ => None,
    }
}

/// A letter with control in normal mode.
pub open spec fn normal_control(c: char) -> Option<Command> {
    match c {
        'd' => Some(Command::HalfPageDown),
        'u' => Some(Command::HalfPageUp),
        'c' => Some(Command::Quit),
        'w' => Some(Command::CycleFocus),
        _ => None,
    }
}

fn normal_control_key(c: char) -> (r: Option<Command>)
    ensures
        r == normal_control(c),
{
    match c {
        'd' => Some(Command::HalfPageDown),
        'u' => Some(Command::HalfPageUp),
        'c' => Some(Command::Quit),
        'w' => Some(Command::CycleFocus),
        _ => None,
    }
}

/// A letter in the trajectory.
pub open spec fn trajectory_char(c: char) -> Option<Command> {
    match c {
        'j' => Some(Command::MoveDown),
        'k' => Some(Command::MoveUp),
        'z' => Some(Command::ToggleFold),
        'd' => Some(Command::OpenDetail),
        '/' => Some(Command::StartSearch),
        'y' => Some(Command::YankContext),
        'q' => Some(Command::Quit),
        '1' => Some(Command::GotoChat),
        '2' => Some(Command::ToggleTrajectory),
        'G' => Some(Command::GotoBottom),
        _ => None,
    }
}

fn trajectory_char_key(c: char) -> (r: Option<Command>)
    ensures
        r == trajectory_char(c),
{
    match c {
        'j' => Some(Command::MoveDown),
        'k' => Some(Command::MoveUp),
        'z' => Some(Command::ToggleFold),
        'd' => Some(Command::OpenDetail),
        '/' => Some(Command::StartSearch),
        'y' => Some(Command::YankContext),
        'q' => Some(Command::Quit),
        '1' => Some(Command::GotoChat),
        '2' => Some(Command::ToggleTrajectory),
        'G' => Some(Command::GotoBottom),
        _ => None,
    }
}

/// A letter in a visual selection.
pub open spec fn visual_char(c: char) -> Option<Command> {
    match c {
        'v' => Some(Command::ClosePicker),
        'V' => Some(Command::ClosePicker),
        'j' => Some(Command::MoveDown),
        'k' => Some(Command::MoveUp),
        'y' => Some(Command::YankContext),
        'o' => Some(Command::OpenSelected),
        _ => None,
    }
}

fn visual_char_key(c: char) -> (r: Option<Command>)
    ensures
        r == visual_char(c),
{
    match c {
        'v' => Some(Command::ClosePicker),
        'V' => Some(Command::ClosePicker),
        'j' => Some(Command::MoveDown),
        'k' => Some(Command::MoveUp),
        'y' => Some(Command::YankContext),
        'o' => Some(Command::OpenSelected),
        _ => None,
    }
}

/// A letter on an approval.
pub open spec fn approval_char(c: char) -> Option<Command> {
    match c {
        'y' => Some(Command::ApprovalAllow),
        'n' => Some(Command::ApprovalReject),
        'q' => Some(Command::ApprovalCancel),
        'a' => Some(Command::ApprovalAlways),
        'L' => Some(Command::OpenApprovalList),
        _ => None,
    }
}

fn approval_char_key(c: char) -> (r: Option<Command>)
    ensures
        r == approval_char(c),
{
    match c {
        'y' => Some(Command::ApprovalAllow),
        'n' => Some(Command::ApprovalReject),
        'q' => Some(Command::ApprovalCancel),
        'a' => Some(Command::ApprovalAlways),
        'L' => Some(Command::OpenApprovalList),
        _ => None,
    }
}

/// A letter in the list of approvals.
pub open spec fn approval_list_char(c: char) -> Option<Command> {
    match c {
        'q' => Some(Command::CloseApprovalList),
        'j' => Some(Command::PickerDown),
        'k' => Some(Command::PickerUp),
        'r' => Some(Command::ApprovalRetry),
        'A' => Some(Command::ApprovalBatchAllow),
        'y' => Some(Command::ApprovalAllow),
        'n' => Some(Command::ApprovalReject),
        'a' => Some(Command::ApprovalAlways),
        'L' => Some(Command::CloseApprovalList),
        _ => None,
    }
}

fn approval_list_char_key(c: char) -> (r: Option<Command>)
    ensures
        r == approval_list_char(c),
{
    match c {
        'q' => Some(Command::CloseApprovalList),
        'j' => Some(Command::PickerDown),
        'k' => Some(Command::PickerUp),
        'r' => Some(Command::ApprovalRetry),
        'A' => Some(Command::ApprovalBatchAllow),
        'y' => Some(Command::ApprovalAllow),
        'n' => Some(Command::ApprovalReject),
        'a' => Some(Command::ApprovalAlways),
        'L' => Some(Command::CloseApprovalList),
        _ => None,
    }
}

/// A letter in the image viewer.
pub open spec fn image_char(c: char) -> Option<Command> {
    match c {
        'o' => Some(Command::ImageViewOpenExternal),
        'y' => Some(Command::ImageViewCopy),
        'q' => Some(Command::ImageViewClose),
        _ => None,
    }
}

fn image_char_key(c: char) -> (r: Option<Command>)
    ensures
        r == image_char(c),
{
    match c {
        'o' => Some(Command::ImageViewOpenExternal),
        'y' => Some(Command::ImageViewCopy),
        'q' => Some(Command::ImageViewClose),
        _ => None,
    }
}

/// A letter in the panel of subagents.
pub open spec fn subagent_char(c: char) -> Option<Command> {
    match c {
        'q' => Some(Command::ClosePicker),
        'j' => Some(Command::PickerDown),
        'k' => Some(Command::PickerUp),
        'x' => Some(Command::SubagentInterrupt),
        _ => None,
    }
}

fn subagent_char_key(c: char) -> (r: Option<Command>)
    ensures
        r == subagent_char(c),
{
    match c {
        'q' => Some(Command::ClosePicker),
        'j' => Some(Command::PickerDown),
        'k' => Some(Command::PickerUp),
        'x' => Some(Command::SubagentInterrupt),
        _ => None,
    }
}

/// A letter in the search overlay that is no input.
pub open spec fn search_char(c: char) -> Option<Command> {
    match c {
        'j' => Some(Command::PickerDown),
        'k' => Some(Command::PickerUp),
        'n' => Some(Command::SearchNext),
        'N' => Some(Command::SearchPrev),
        'y' => Some(Command::YankContext),
        _ => None,
    }
}

fn search_char_key(c: char) -> (r: Option<Command>)
    ensures
        r == search_char(c),
{
    match c {
        'j' => Some(Command::PickerDown),
        'k' => Some(Command::PickerUp),
        'n' => Some(Command::SearchNext),
        'N' => Some(Command::SearchPrev),
        'y' => Some(Command::YankContext),
        _ => None,
    }
}

/// A letter in a list overlay that is no input.
pub open spec fn list_char(c: char) -> Option<Command> {
    match c {
        'q' => Some(Command::ClosePicker),
        'j' => Some(Command::PickerDown),
        'k' => Some(Command::PickerUp),
        _ => None,
    }
}

fn list_char_key(c: char) -> (r: Option<Command>)
    ensures
        r == list_char(c),
{
    match c {
        'q' => Some(Command::ClosePicker),
        'j' => Some(Command::PickerDown),
        'k' => Some(Command::PickerUp),
        _ => None,
    }
}

/// A letter in the monitor.
pub open spec fn monitor_char(c: char) -> Option<Command> {
    match c {
        'j' => Some(Command::MoveDown),
        'k' => Some(Command::MoveUp),
        'G' => Some(Command::GotoBottom),
        'c' => Some(Command::MonitorOpenChat),
        'f' => Some(Command::MonitorCheer),
        'l' => Some(Command::MonitorLocate),
        's' => Some(Command::MonitorStats),
        '/' => Some(Command::StartSearch),
        '?' => Some(Command::OpenHelp),
        'q' => Some(Command::Quit),
        _ => None,
    }
}

fn monitor_char_key(c: char) -> (r: Option<Command>)
    ensures
        r == monitor_char(c),
{
    match c {
        'j' => Some(Command::MoveDown),
        'k' => Some(Command::MoveUp),
        'G' => Some(Command::GotoBottom),
        'c' => Some(Command::MonitorOpenChat),
        'f' => Some(Command::MonitorCheer),
        'l' => Some(Command::MonitorLocate),
        's' => Some(Command::MonitorStats),
        '/' => Some(Command::StartSearch),
        '?' => Some(Command::OpenHelp),
        'q' => Some(Command::Quit),
        _ => None,
    }
}

/// What a key event gives in a mode without overrides, where `pending` tells
/// that the prefix `g` was just pressed.
pub open spec fn builtin(mode: InputMode, key: KeyEvent, pending: bool) -> Decoded {
    let ctrl = key.modifiers.control;
    let plain = key.modifiers.none_held();
    match mode {
        InputMode::Normal => match key.code {
            KeyCode::Char(c) => if ctrl {
                from_table(normal_control(c))
            } else if c == 'g' {
                if pending {
                    Decoded::Is(Command::GotoTop)
                } else {
                    Decoded::Nothing
                }
            } else if pending && g_char(c) is Some {
                from_table(g_char(c))
            } else {
                from_table(normal_char(c))
            },
            KeyCode::Enter => if ctrl {
                Decoded::Nothing
            } else {
                Decoded::Is(Command::OpenFocused)
            },
            _ => Decoded::Nothing,
        },
        InputMode::Trajectory => match key.code {
            KeyCode::Char(c) => if ctrl {
                if c == 'c' {
                    Decoded::Is(Command::Quit)
                } else if c == 'w' {
                    Decoded::Is(Command::CycleFocus)
                } else {
                    Decoded::Nothing
                }
            } else if c == 'g' {
                if pending {
                    Decoded::Is(Command::GotoTop)
                } else {
                    Decoded::Nothing
                }
            } else if pending && g_char(c) is Some {
                from_table(g_char(c))
            } else {
                from_table(trajectory_char(c))
            },
            KeyCode::Enter => if ctrl {
                Decoded::Nothing
            } else {
                Decoded::Is(Command::OpenDetail)
            },
            KeyCode::Esc => Decoded::Is(Command::ClosePicker),
            _ => Decoded::Nothing,
        },
        InputMode::TrajectoryFilter => match key.code {
            KeyCode::Char(c) => if ctrl {
                if c == 'c' {
                    Decoded::Is(Command::Quit)
                } else {
                    Decoded::Nothing
                }
            } else if c == 'q' {
                Decoded::Is(Command::ClosePicker)
            } else if c == 'j' {
                Decoded::Is(Command::MoveDown)
            } else if c == 'k' {
                Decoded::Is(Command::MoveUp)
            } else {
                Decoded::Input(seq![c])
            },
            KeyCode::Enter => if ctrl {
                Decoded::Nothing
            } else {
                Decoded::Is(Command::PickerConfirm)
            },
            KeyCode::Esc => Decoded::Is(Command::ClosePicker),
            KeyCode::Backspace => Decoded::Is(Command::PickerBackspace),
            _ => Decoded::Nothing,
        },
        InputMode::Picker => match key.code {
            KeyCode::Esc => Decoded::Is(Command::ClosePicker),
            KeyCode::Enter => Decoded::Is(Command::PickerConfirm),
            KeyCode::Up => Decoded::Is(Command::PickerUp),
            KeyCode::Down => Decoded::Is(Command::PickerDown),
            KeyCode::Backspace => Decoded::Is(Command::PickerBackspace),
            KeyCode::Char(c) => if c == 'k' || (c == 'p' && ctrl) {
                Decoded::Is(Command::PickerUp)
            } else if c == 'j' || (c == 'n' && ctrl) {
                Decoded::Is(Command::PickerDown)
            } else if !ctrl {
                Decoded::Input(seq![c])
            } else {
                Decoded::Nothing
            },
            _ => Decoded::Nothing,
        },
        InputMode::Insert => match key.code {
            KeyCode::Esc => Decoded::Is(Command::ClosePicker),
            KeyCode::Enter => if plain {
                Decoded::Is(Command::SubmitInput)
            } else if ctrl || key.modifiers.alt {
                Decoded::Input(seq!['\n'])
            } else {
                Decoded::Nothing
            },
            KeyCode::Char(c) => if c == 'c' && ctrl {
                Decoded::Is(Command::Quit)
            } else if plain {
                Decoded::Input(seq![c])
            } else {
                Decoded::Nothing
            },
            KeyCode::Backspace => Decoded::Is(Command::PickerBackspace),
            KeyCode::Up => Decoded::Is(Command::HistoryPrev),
            KeyCode::Down => Decoded::Is(Command::HistoryNext),
            KeyCode::Tab => Decoded::Is(Command::ComposerTabComplete),
            _ => Decoded::Nothing,
        },
        InputMode::Search => match key.code {
            KeyCode::Esc => Decoded::Is(Command::ClosePicker),
            KeyCode::Enter => if plain {
                Decoded::Is(Command::PickerConfirm)
            } else {
                Decoded::Nothing
            },
            KeyCode::Backspace => Decoded::Is(Command::PickerBackspace),
            KeyCode::Up => Decoded::Is(Command::PickerUp),
            KeyCode::Down => Decoded::Is(Command::PickerDown),
            KeyCode::Char(c) => if !plain {
                Decoded::Nothing
            } else if search_char(c) is Some {
                from_table(search_char(c))
            } else {
                Decoded::Input(seq![c])
            },
            _ => Decoded::Nothing,
        },
        InputMode::Visual => match key.code {
            KeyCode::Esc => Decoded::Is(Command::ClosePicker),
            KeyCode::Char(c) => if plain {
                from_table(visual_char(c))
            } else {
                Decoded::Nothing
            },
            _ => Decoded::Nothing,
        },
        InputMode::Approval => match key.code {
            KeyCode::Esc => Decoded::Is(Command::ApprovalCancel),
            KeyCode::Char(c) => if plain {
                from_table(approval_char(c))
            } else {
                Decoded::Nothing
            },
            _ => Decoded::Nothing,
        },
        InputMode::ApprovalList => match key.code {
            KeyCode::Esc => Decoded::Is(Command::CloseApprovalList),
            KeyCode::Char(c) => if plain {
                from_table(approval_list_char(c))
            } else {
                Decoded::Nothing
            },
            _ => Decoded::Nothing,
        },
        InputMode::ModelCatalog | InputMode::CommandPalette => overlay(key, false),
        InputMode::Mention => overlay(key, true),
        InputMode::Help => match key.code {
            KeyCode::Esc => Decoded::Is(Command::CloseHelp),
            KeyCode::Char(c) => if c == '?' {
                Decoded::Is(Command::CloseHelp)
            } else if c == 'q' {
                Decoded::Is(Command::Quit)
            } else {
                Decoded::Nothing
            },
            _ => Decoded::Nothing,
        },
        InputMode::ImageView => match key.code {
            KeyCode::Char(c) => if plain {
                from_table(image_char(c))
            } else {
                Decoded::Nothing
            },
            _ => Decoded::Nothing,
        },
        InputMode::Subagent => match key.code {
            KeyCode::Esc => Decoded::Is(Command::ClosePicker),
            KeyCode::Enter => if plain {
                Decoded::Is(Command::PickerConfirm)
            } else {
                Decoded::Nothing
            },
            KeyCode::Char(c) => if plain {
                from_table(subagent_char(c))
            } else {
                Decoded::Nothing
            },
            _ => Decoded::Nothing,
        },
        InputMode::Monitor => match key.code {
            KeyCode::Char(c) => if ctrl {
                if c == 'c' {
                    Decoded::Is(Command::Quit)
                } else {
                    Decoded::Nothing
                }
            } else if c == 'g' {
                if pending {
                    Decoded::Is(Command::GotoTop)
                } else {
                    Decoded::Nothing
                }
            } else {
                from_table(monitor_char(c))
            },
            KeyCode::Enter => if ctrl {
                Decoded::Nothing
            } else {
                Decoded::Is(Command::OpenFocused)
            },
            KeyCode::Esc => Decoded::Is(Command::ClosePicker),
            _ => Decoded::Nothing,
        },
        InputMode::Goal => Decoded::Nothing,
        InputMode::Jobs => Decoded::Nothing,
    }
}

/// What a key gives in an overlay with a list and an input line; `arrows` tells
/// that the arrow keys move in the list.
pub open spec fn overlay(key: KeyEvent, arrows: bool) -> Decoded {
    let plain = key.modifiers.none_held();
    match key.code {
        KeyCode::Esc => Decoded::Is(Command::ClosePicker),
        KeyCode::Enter => if plain {
            Decoded::Is(Command::PickerConfirm)
        } else {
            Decoded::Nothing
        },
        KeyCode::Backspace => Decoded::Is(Command::PickerBackspace),
        KeyCode::Up => if arrows {
            Decoded::Is(Command::PickerUp)
        } else {
            Decoded::Nothing
        },
        KeyCode::Down => if arrows {
            Decoded::Is(Command::PickerDown)
        } else {
            Decoded::Nothing
        },
        KeyCode::Char(c) => if !plain {
            Decoded::Nothing
        } else if list_char(c) is Some {
            from_table(list_char(c))
        } else {
            Decoded::Input(seq![c])
        },
        _ => Decoded::Nothing,
    }
}

/// Whether a mode knows the prefix `g`.
pub open spec fn has_prefix_key(mode: InputMode) -> bool {
    mode == InputMode::Normal || mode == InputMode::Trajectory || mode == InputMode::Monitor
}

/// Whether the prefix `g` is pending behind a key: it is where the key was a
/// first `g`. The filter of the trajectory leaves it as it is.
pub open spec fn pending_after(mode: InputMode, key: KeyEvent, pending: bool) -> bool {
    if mode == InputMode::TrajectoryFilter {
        pending
    } else {
        has_prefix_key(mode) && key.code == KeyCode::Char('g') && !key.modifiers.control
            && !pending
    }
}

/// The first key of two that is pending behind a key, where no override has a
/// say in it: it is the prefix `g` or none.
pub open spec fn first_after(mode: InputMode, key: KeyEvent, first: Option<char>) -> Option<char> {
    if mode == InputMode::TrajectoryFilter {
        first
    } else if pending_after(mode, key, first == Some('g')) {
        Some('g')
    } else {
        None
    }
}

/// Decoder of key events; it remembers the first key of two.
#[derive(Debug, Clone, Default)]
pub struct KeyDecoder {
    first: Option<char>,
    keymap: Option<Keymap>,
}

/// A command that can be bound: its name in the configuration, the key that it
/// has by default, and how it is shown.
#[derive(Debug, Clone, PartialEq, Eq)]
pub struct KeyRow {
    pub name: &'static str,
    pub key: char,
    pub label: &'static str,
    pub command: Command,
}

/// Mathematical row.
pub struct KeyRowView {
    pub name: Seq<char>,
    pub key: char,
    pub label: Seq<char>,
    pub command: Command,
}

impl View for KeyRow {
    type V = KeyRowView;

    open spec fn view(&self) -> KeyRowView {
        KeyRowView { name: self.name@, key: self.key, label: self.label@, command: self.command }
    }
}

/// The views of a list of rows.
pub open spec fn key_rows(rows: Seq<KeyRow>) -> Seq<KeyRowView> {
    rows.map_values(|r: KeyRow| r@)
}

pub open spec fn row_view(name: Seq<char>, key: char, label: Seq<char>, command: Command) -> KeyRowView {
    KeyRowView { name, key, label, command }
}

fn key_row(name: &'static str, key: char, label: &'static str, command: Command) -> (r: KeyRow)
    ensures
        r@ == row_view(name@, key, label@, command),
{
    KeyRow { name, key, label, command }
}

/// The commands of a mode that can be bound. Modes with text input have none.
pub open spec fn rows_of(mode: InputMode) -> Seq<KeyRowView> {
    match mode {
        InputMode::Normal => seq![
            row_view("move_down"@, 'j', "MoveDown"@, Command::MoveDown),
            row_view("move_up"@, 'k', "MoveUp"@, Command::MoveUp),
            row_view("goto_bottom"@, 'G', "GotoBottom"@, Command::GotoBottom),
            row_view("open_picker"@, 'f', "OpenPicker"@, Command::OpenPicker),
            row_view("insert_mode"@, 'i', "InsertMode"@, Command::InsertMode),
            row_view("open_help"@, '?', "OpenHelp"@, Command::OpenHelp),
            row_view("quit"@, 'q', "Quit"@, Command::Quit),
            row_view("retry_probe"@, 'r', "RetryProbe"@, Command::RetryProbe),
            row_view("stop_running"@, 's', "StopRunning"@, Command::StopRunning),
            row_view("collapse_project"@, 'h', "CollapseProject"@, Command::CollapseProject),
            row_view("expand_project"@, 'l', "ExpandProject"@, Command::ExpandProject),
            row_view("open_selected"@, 'o', "OpenSelected"@, Command::OpenSelected),
            row_view("yank_context"@, 'y', "YankContext"@, Command::YankContext),
            row_view("open_outline"@, 'O', "OpenOutline"@, Command::OpenOutline),
            row_view("next_turn"@, ']', "NextTurn"@, Command::NextTurn),
            row_view("prev_turn"@, '[', "PrevTurn"@, Command::PrevTurn),
            row_view("goto_chat"@, '1', "GotoChat"@, Command::GotoChat),
            row_view("toggle_trajectory"@, '2', "ToggleTrajectory"@, Command::ToggleTrajectory),
            row_view("open_model_catalog"@, 'M', "OpenModelCatalog"@, Command::OpenModelCatalog),
            row_view("open_command_palette"@, ':', "OpenCommandPalette"@, Command::OpenCommandPalette),
        ],
        InputMode::Help => seq![
            row_view("quit"@, 'q', "Quit"@, Command::Quit),
            row_view("close_help"@, '?', "CloseHelp"@, Command::CloseHelp),
        ],
        InputMode::Visual => seq![
            row_view("move_down"@, 'j', "MoveDown"@, Command::MoveDown),
            row_view("move_up"@, 'k', "MoveUp"@, Command::MoveUp),
            row_view("yank_context"@, 'y', "YankContext"@, Command::YankContext),
            row_view("open_selected"@, 'o', "OpenSelected"@, Command::OpenSelected),
        ],
        InputMode::Approval => seq![
            row_view("approval_allow"@, 'y', "ApprovalAllow"@, Command::ApprovalAllow),
            row_view("approval_reject"@, 'n', "ApprovalReject"@, Command::ApprovalReject),
            row_view("approval_cancel"@, 'q', "ApprovalCancel"@, Command::ApprovalCancel),
            row_view("approval_always"@, 'a', "ApprovalAlways"@, Command::ApprovalAlways),
            row_view("open_approval_list"@, 'L', "OpenApprovalList"@, Command::OpenApprovalList),
        ],
        InputMode::ApprovalList => seq![
            row_view("approval_retry"@, 'r', "ApprovalRetry"@, Command::ApprovalRetry),
            row_view("approval_batch_allow"@, 'A', "ApprovalBatchAllow"@, Command::ApprovalBatchAllow),
            row_view("approval_allow"@, 'y', "ApprovalAllow"@, Command::ApprovalAllow),
            row_view("approval_reject"@, 'n', "ApprovalReject"@, Command::ApprovalReject),
            row_view("approval_always"@, 'a', "ApprovalAlways"@, Command::ApprovalAlways),
        ],
        InputMode::ImageView => seq![
            row_view("image_view_open_external"@, 'o', "ImageViewOpenExternal"@, Command::ImageViewOpenExternal),
            row_view("image_view_copy"@, 'y', "ImageViewCopy"@, Command::ImageViewCopy),
            row_view("image_view_close"@, 'q', "ImageViewClose"@, Command::ImageViewClose),
        ],
        InputMode::Trajectory => seq![
            row_view("move_down"@, 'j', "MoveDown"@, Command::MoveDown),
            row_view("move_up"@, 'k', "MoveUp"@, Command::MoveUp),
            row_view("toggle_fold"@, 'z', "ToggleFold"@, Command::ToggleFold),
            row_view("open_detail"@, 'd', "OpenDetail"@, Command::OpenDetail),
            row_view("yank_context"@, 'y', "YankContext"@, Command::YankContext),
            row_view("quit"@, 'q', "Quit"@, Command::Quit),
            row_view("goto_bottom"@, 'G', "GotoBottom"@, Command::GotoBottom),
        ],
        InputMode::Monitor => seq![
            row_view("move_down"@, 'j', "MoveDown"@, Command::MoveDown),
            row_view("move_up"@, 'k', "MoveUp"@, Command::MoveUp),
            row_view("goto_bottom"@, 'G', "GotoBottom"@, Command::GotoBottom),
            row_view("monitor_open_chat"@, 'c', "MonitorOpenChat"@, Command::MonitorOpenChat),
            row_view("monitor_cheer"@, 'f', "MonitorCheer"@, Command::MonitorCheer),
            row_view("monitor_locate"@, 'l', "MonitorLocate"@, Command::MonitorLocate),
            row_view("monitor_stats"@, 's', "MonitorStats"@, Command::MonitorStats),
            row_view("quit"@, 'q', "Quit"@, Command::Quit),
        ],
        _ => Seq::empty(),
    }
}

fn normal_rows() -> (rows: Vec<KeyRow>)
    ensures
        key_rows(rows@) == rows_of(InputMode::Normal),
{
    let mut rows: Vec<KeyRow> = Vec::new();
    rows.push(key_row("move_down", 'j', "MoveDown", Command::MoveDown));
    rows.push(key_row("move_up", 'k', "MoveUp", Command::MoveUp));
    rows.push(key_row("goto_bottom", 'G', "GotoBottom", Command::GotoBottom));
    rows.push(key_row("open_picker", 'f', "OpenPicker", Command::OpenPicker));
    rows.push(key_row("insert_mode", 'i', "InsertMode", Command::InsertMode));
    rows.push(key_row("open_help", '?', "OpenHelp", Command::OpenHelp));
    rows.push(key_row("quit", 'q', "Quit", Command::Quit));
    rows.push(key_row("retry_probe", 'r', "RetryProbe", Command::RetryProbe));
    rows.push(key_row("stop_running", 's', "StopRunning", Command::StopRunning));
    rows.push(key_row("collapse_project", 'h', "CollapseProject", Command::CollapseProject));
    rows.push(key_row("expand_project", 'l', "ExpandProject", Command::ExpandProject));
    rows.push(key_row("open_selected", 'o', "OpenSelected", Command::OpenSelected));
    rows.push(key_row("yank_context", 'y', "YankContext", Command::YankContext));
    rows.push(key_row("open_outline", 'O', "OpenOutline", Command::OpenOutline));
    rows.push(key_row("next_turn", ']', "NextTurn", Command::NextTurn));
    rows.push(key_row("prev_turn", '[', "PrevTurn", Command::PrevTurn));
    rows.push(key_row("goto_chat", '1', "GotoChat", Command::GotoChat));
    rows.push(key_row("toggle_trajectory", '2', "ToggleTrajectory", Command::ToggleTrajectory));
    rows.push(key_row("open_model_catalog", 'M', "OpenModelCatalog", Command::OpenModelCatalog));
    rows.push(key_row("open_command_palette", ':', "OpenCommandPalette", Command::OpenCommandPalette));
    assert(key_rows(rows@) =~= rows_of(InputMode::Normal));
    rows
}

fn help_rows() -> (rows: Vec<KeyRow>)
    ensures
        key_rows(rows@) == rows_of(InputMode::Help),
{
    let mut rows: Vec<KeyRow> = Vec::new();
    rows.push(key_row("quit", 'q', "Quit", Command::Quit));
    rows.push(key_row("close_help", '?', "CloseHelp", Command::CloseHelp));
    assert(key_rows(rows@) =~= rows_of(InputMode::Help));
    rows
}

fn visual_rows() -> (rows: Vec<KeyRow>)
    ensures
        key_rows(rows@) == rows_of(InputMode::Visual),
{
    let mut rows: Vec<KeyRow> = Vec::new();
    rows.push(key_row("move_down", 'j', "MoveDown", Command::MoveDown));
    rows.push(key_row("move_up", 'k', "MoveUp", Command::MoveUp));
    rows.push(key_row("yank_context", 'y', "YankContext", Command::YankContext));
    rows.push(key_row("open_selected", 'o', "OpenSelected", Command::OpenSelected));
    assert(key_rows(rows@) =~= rows_of(InputMode::Visual));
    rows
}

fn approval_rows() -> (rows: Vec<KeyRow>)
    ensures
        key_rows(rows@) == rows_of(InputMode::Approval),
{
    let mut rows: Vec<KeyRow> = Vec::new();
    rows.push(key_row("approval_allow", 'y', "ApprovalAllow", Command::ApprovalAllow));
    rows.push(key_row("approval_reject", 'n', "ApprovalReject", Command::ApprovalReject));
    rows.push(key_row("approval_cancel", 'q', "ApprovalCancel", Command::ApprovalCancel));
    rows.push(key_row("approval_always", 'a', "ApprovalAlways", Command::ApprovalAlways));
    rows.push(key_row("open_approval_list", 'L', "OpenApprovalList", Command::OpenApprovalList));
    assert(key_rows(rows@) =~= rows_of(InputMode::Approval));
    rows
}

fn approval_list_rows() -> (rows: Vec<KeyRow>)
    ensures
        key_rows(rows@) == rows_of(InputMode::ApprovalList),
{
    let mut rows: Vec<KeyRow> = Vec::new();
    rows.push(key_row("approval_retry", 'r', "ApprovalRetry", Command::ApprovalRetry));
    rows.push(key_row("approval_batch_allow", 'A', "ApprovalBatchAllow", Command::ApprovalBatchAllow));
    rows.push(key_row("approval_allow", 'y', "ApprovalAllow", Command::ApprovalAllow));
    rows.push(key_row("approval_reject", 'n', "ApprovalReject", Command::ApprovalReject));
    rows.push(key_row("approval_always", 'a', "ApprovalAlways", Command::ApprovalAlways));
    assert(key_rows(rows@) =~= rows_of(InputMode::ApprovalList));
    rows
}

fn image_view_rows() -> (rows: Vec<KeyRow>)
    ensures
        key_rows(rows@) == rows_of(InputMode::ImageView),
{
    let mut rows: Vec<KeyRow> = Vec::new();
    rows.push(key_row("image_view_open_external", 'o', "ImageViewOpenExternal", Command::ImageViewOpenExternal));
    rows.push(key_row("image_view_copy", 'y', "ImageViewCopy", Command::ImageViewCopy));
    rows.push(key_row("image_view_close", 'q', "ImageViewClose", Command::ImageViewClose));
    assert(key_rows(rows@) =~= rows_of(InputMode::ImageView));
    rows
}

fn trajectory_rows() -> (rows: Vec<KeyRow>)
    ensures
        key_rows(rows@) == rows_of(InputMode::Trajectory),
{
    let mut rows: Vec<KeyRow> = Vec::new();
    rows.push(key_row("move_down", 'j', "MoveDown", Command::MoveDown));
    rows.push(key_row("move_up", 'k', "MoveUp", Command::MoveUp));
    rows.push(key_row("toggle_fold", 'z', "ToggleFold", Command::ToggleFold));
    rows.push(key_row("open_detail", 'd', "OpenDetail", Command::OpenDetail));
    rows.push(key_row("yank_context", 'y', "YankContext", Command::YankContext));
    rows.push(key_row("quit", 'q', "Quit", Command::Quit));
    rows.push(key_row("goto_bottom", 'G', "GotoBottom", Command::GotoBottom));
    assert(key_rows(rows@) =~= rows_of(InputMode::Trajectory));
    rows
}

fn monitor_rows() -> (rows: Vec<KeyRow>)
    ensures
        key_rows(rows@) == rows_of(InputMode::Monitor),
{
    let mut rows: Vec<KeyRow> = Vec::new();
    rows.push(key_row("move_down", 'j', "MoveDown", Command::MoveDown));
    rows.push(key_row("move_up", 'k', "MoveUp", Command::MoveUp));
    rows.push(key_row("goto_bottom", 'G', "GotoBottom", Command::GotoBottom));
    rows.push(key_row("monitor_open_chat", 'c', "MonitorOpenChat", Command::MonitorOpenChat));
    rows.push(key_row("monitor_cheer", 'f', "MonitorCheer", Command::MonitorCheer));
    rows.push(key_row("monitor_locate", 'l', "MonitorLocate", Command::MonitorLocate));
    rows.push(key_row("monitor_stats", 's', "MonitorStats", Command::MonitorStats));
    rows.push(key_row("quit", 'q', "Quit", Command::Quit));
    assert(key_rows(rows@) =~= rows_of(InputMode::Monitor));
    rows
}

/// The commands of a mode that can be bound, with their default keys.
pub fn default_key_tables(mode: InputMode) -> (rows: Vec<KeyRow>)
    ensures
        key_rows(rows@) == rows_of(mode),
{
    match mode {
        InputMode::Normal => normal_rows(),
        InputMode::Help => help_rows(),
        InputMode::Visual => visual_rows(),
        InputMode::Approval => approval_rows(),
        InputMode::ApprovalList => approval_list_rows(),
        InputMode::ImageView => image_view_rows(),
        InputMode::Trajectory => trajectory_rows(),
        InputMode::Monitor => monitor_rows(),
        _ => {
            let rows: Vec<KeyRow> = Vec::new();
            assert(key_rows(rows@) =~= Seq::<KeyRowView>::empty());
            rows
        },
    }
}

/// Index of the first row with a key, or the number of rows.
pub open spec fn row_with_key(rows: Seq<KeyRowView>, key: char) -> int
    decreases rows.len(),
{
    if rows.len() == 0 || rows[0].key == key {
        0
    } else {
        1 + row_with_key(rows.skip(1), key)
    }
}

/// Index of the first row with a name, or the number of rows.
pub open spec fn row_named(rows: Seq<KeyRowView>, name: Seq<char>) -> int
    decreases rows.len(),
{
    if rows.len() == 0 || rows[0].name == name {
        0
    } else {
        1 + row_named(rows.skip(1), name)
    }
}

proof fn lemma_row_with_key(rows: Seq<KeyRowView>, key: char, i: int)
    requires
        0 <= i <= rows.len(),
        forall|j: int| 0 <= j < i ==> (#[trigger] rows[j]).key != key,
        i < rows.len() ==> rows[i].key == key,
    ensures
        row_with_key(rows, key) == i,
    decreases i,
{
    if i > 0 {
        assert(rows[0].key != key);
        let rest = rows.skip(1);
        assert forall|j: int| 0 <= j < i - 1 implies (#[trigger] rest[j]).key != key by {
            assert(rest[j] == rows[j + 1]);
        }
        lemma_row_with_key(rest, key, i - 1);
    }
}

pub proof fn lemma_row_named(rows: Seq<KeyRowView>, name: Seq<char>, i: int)
    requires
        0 <= i <= rows.len(),
        forall|j: int| 0 <= j < i ==> (#[trigger] rows[j]).name != name,
        i < rows.len() ==> rows[i].name == name,
    ensures
        row_named(rows, name) == i,
    decreases i,
{
    if i > 0 {
        assert(rows[0].name != name);
        let rest = rows.skip(1);
        assert forall|j: int| 0 <= j < i - 1 implies (#[trigger] rest[j]).name != name by {
            assert(rest[j] == rows[j + 1]);
        }
        lemma_row_named(rest, name, i - 1);
    }
}

/// Index of the first row with a key.
fn find_key(rows: &Vec<KeyRow>, key: char) -> (r: usize)
    ensures
        r == row_with_key(key_rows(rows@), key),
        r <= rows@.len(),
{
    let ghost views = key_rows(rows@);
    let mut i: usize = 0;
    while i < rows.len()
        invariant
            i <= rows@.len(),
            views == key_rows(rows@),
            forall|j: int| 0 <= j < i ==> (#[trigger] views[j]).key != key,
        decreases rows@.len() - i,
    {
        assert(views[i as int] == rows@[i as int]@);
        if rows[i].key == key {
            proof {
                lemma_row_with_key(views, key, i as int);
            }
            return i;
        }
        i = i + 1;
    }
    proof {
        lemma_row_with_key(views, key, i as int);
    }
    i
}

/// Index of the first row with a name.
fn find_name(rows: &Vec<KeyRow>, name: &str) -> (r: usize)
    ensures
        r == row_named(key_rows(rows@), name@),
        r <= rows@.len(),
{
    let ghost views = key_rows(rows@);
    let mut i: usize = 0;
    while i < rows.len()
        invariant
            i <= rows@.len(),
            views == key_rows(rows@),
            forall|j: int| 0 <= j < i ==> (#[trigger] views[j]).name != name@,
        decreases rows@.len() - i,
    {
        assert(views[i as int] == rows@[i as int]@);
        if same(rows[i].name, name) {
            proof {
                lemma_row_named(views, name@, i as int);
            }
            return i;
        }
        i = i + 1;
    }
    proof {
        lemma_row_named(views, name@, i as int);
    }
    i
}

/// Place of a mode among those whose keys can be bound.
pub open spec fn slot_of(mode: InputMode) -> Option<int> {
    match mode {
        InputMode::Normal => Some(0),
        InputMode::Help => Some(1),
        InputMode::Visual => Some(2),
        InputMode::Approval => Some(3),
        InputMode::ApprovalList => Some(4),
        InputMode::ImageView => Some(5),
        InputMode::Trajectory => Some(6),
        InputMode::Monitor => Some(7),
        _ => None,
    }
}

/// The mode at a place.
pub open spec fn mode_at(slot: int) -> InputMode {
    if slot == 0 {
        InputMode::Normal
    } else if slot == 1 {
        InputMode::Help
    } else if slot == 2 {
        InputMode::Visual
    } else if slot == 3 {
        InputMode::Approval
    } else if slot == 4 {
        InputMode::ApprovalList
    } else if slot == 5 {
        InputMode::ImageView
    } else if slot == 6 {
        InputMode::Trajectory
    } else {
        InputMode::Monitor
    }
}

fn slot_index(mode: InputMode) -> (r: Option<usize>)
    ensures
        match r {
            Some(s) => slot_of(mode) == Some(s as int) && s < 8 && mode_at(s as int) == mode,
            None => slot_of(mode) is None,
        },
{
    match mode {
        InputMode::Normal => Some(0),
        InputMode::Help => Some(1),
        InputMode::Visual => Some(2),
        InputMode::Approval => Some(3),
        InputMode::ApprovalList => Some(4),
        InputMode::ImageView => Some(5),
        InputMode::Trajectory => Some(6),
        InputMode::Monitor => Some(7),
        _ => None,
    }
}

fn mode_of_slot(slot: usize) -> (r: InputMode)
    requires
        slot < 8,
    ensures
        r == mode_at(slot as int),
        slot_of(r) == Some(slot as int),
{
    match slot {
        0 => InputMode::Normal,
        1 => InputMode::Help,
        2 => InputMode::Visual,
        3 => InputMode::Approval,
        4 => InputMode::ApprovalList,
        5 => InputMode::ImageView,
        6 => InputMode::Trajectory,
        _ => InputMode::Monitor,
    }
}

/// Name of a mode in the configuration, where its keys can be bound.
pub open spec fn name_of_mode(mode: InputMode) -> Seq<char> {
    match mode {
        InputMode::Normal => "normal"@,
        InputMode::Trajectory => "trajectory"@,
        InputMode::Visual => "visual"@,
        InputMode::Approval => "approval"@,
        InputMode::ApprovalList => "approval_list"@,
        InputMode::ImageView => "image_view"@,
        InputMode::Help => "help"@,
        InputMode::Monitor => "monitor"@,
        InputMode::Subagent => "subagent"@,
        _ => "input(不可覆盖)"@,
    }
}

fn mode_name_of(mode: InputMode) -> (r: &'static str)
    ensures
        r@ == name_of_mode(mode),
{
    match mode {
        InputMode::Normal => "normal",
        InputMode::Trajectory => "trajectory",
        InputMode::Visual => "visual",
        InputMode::Approval => "approval",
        InputMode::ApprovalList => "approval_list",
        InputMode::ImageView => "image_view",
        InputMode::Help => "help",
        InputMode::Monitor => "monitor",
        InputMode::Subagent => "subagent",
        _ => "input(不可覆盖)",
    }
}

/// The mode with a name in the configuration.
pub open spec fn mode_named(name: Seq<char>) -> Option<InputMode> {
    if name == "normal"@ {
        Some(InputMode::Normal)
    } else if name == "trajectory"@ {
        Some(InputMode::Trajectory)
    } else if name == "visual"@ {
        Some(InputMode::Visual)
    } else if name == "approval"@ {
        Some(InputMode::Approval)
    } else if name == "approval_list"@ {
        Some(InputMode::ApprovalList)
    } else if name == "image_view"@ {
        Some(InputMode::ImageView)
    } else if name == "help"@ {
        Some(InputMode::Help)
    } else if name == "monitor"@ {
        Some(InputMode::Monitor)
    } else {
        None
    }
}

fn mode_from_name(name: &str) -> (r: Option<InputMode>)
    ensures
        r == mode_named(name@),
{
    if same(name, "normal") {
        Some(InputMode::Normal)
    } else if same(name, "trajectory") {
        Some(InputMode::Trajectory)
    } else if same(name, "visual") {
        Some(InputMode::Visual)
    } else if same(name, "approval") {
        Some(InputMode::Approval)
    } else if same(name, "approval_list") {
        Some(InputMode::ApprovalList)
    } else if same(name, "image_view") {
        Some(InputMode::ImageView)
    } else if same(name, "help") {
        Some(InputMode::Help)
    } else if same(name, "monitor") {
        Some(InputMode::Monitor)
    } else {
        None
    }
}

/// Bindings of a mode: for each ASCII key the default key of the command that
/// it is bound to.
pub type Bindings = Seq<Option<char>>;

/// The bindings by default: every command on its own key.
pub open spec fn default_bindings(mode: InputMode) -> Bindings {
    Seq::new(
        128,
        |i: int|
            if row_with_key(rows_of(mode), i as char) < rows_of(mode).len() {
                Some(i as char)
            } else {
                None
            },
    )
}

/// Two keys that are pressed one after the other, and the default key of the
/// command that they are bound to.
#[derive(Debug, Clone, Copy, PartialEq, Eq, Structural)]
pub struct Chord {
    pub first: char,
    pub second: char,
    pub own: char,
}

/// Index of the binding of two keys, or the number of bindings.
pub open spec fn chord_at(chords: Seq<Chord>, first: char, second: char) -> int
    decreases chords.len(),
{
    if chords.len() == 0 || (chords[0].first == first && chords[0].second == second) {
        0
    } else {
        1 + chord_at(chords.skip(1), first, second)
    }
}

/// The bindings with one more; a binding of the same two keys is replaced.
pub open spec fn with_chord(chords: Seq<Chord>, c: Chord) -> Seq<Chord> {
    let at = chord_at(chords, c.first, c.second);
    if at < chords.len() {
        chords.update(at, c)
    } else {
        chords.push(c)
    }
}

/// Whether a key is the first of two that are bound.
pub open spec fn begins_chord(chords: Seq<Chord>, key: char) -> bool {
    exists|i: int| 0 <= i < chords.len() && (#[trigger] chords[i]).first == key
}

proof fn lemma_chord_at(chords: Seq<Chord>, first: char, second: char, i: int)
    requires
        0 <= i <= chords.len(),
        forall|j: int|
            0 <= j < i ==> (#[trigger] chords[j]).first != first || chords[j].second != second,
        i < chords.len() ==> chords[i].first == first && chords[i].second == second,
    ensures
        chord_at(chords, first, second) == i,
    decreases i,
{
    if i > 0 {
        assert(chords[0].first != first || chords[0].second != second);
        let rest = chords.skip(1);
        assert forall|j: int| 0 <= j < i - 1 implies (#[trigger] rest[j]).first != first
            || rest[j].second != second by {
            assert(rest[j] == chords[j + 1]);
        }
        lemma_chord_at(rest, first, second, i - 1);
    }
}

proof fn lemma_chord_at_bound(chords: Seq<Chord>, first: char, second: char)
    ensures
        0 <= chord_at(chords, first, second) <= chords.len(),
        chord_at(chords, first, second) < chords.len() ==> chords[chord_at(
            chords,
            first,
            second,
        )].first == first && chords[chord_at(chords, first, second)].second == second,
    decreases chords.len(),
{
    if chords.len() > 0 && !(chords[0].first == first && chords[0].second == second) {
        lemma_chord_at_bound(chords.skip(1), first, second);
    }
}

/// Index of the binding of two keys.
fn find_chord(chords: &Vec<Chord>, first: char, second: char) -> (r: usize)
    ensures
        r == chord_at(chords@, first, second),
        r <= chords@.len(),
{
    let mut i: usize = 0;
    while i < chords.len() && !(chords[i].first == first && chords[i].second == second)
        invariant
            i <= chords@.len(),
            forall|j: int|
                0 <= j < i ==> (#[trigger] chords@[j]).first != first || chords@[j].second
                    != second,
        decreases chords@.len() - i,
    {
        i = i + 1;
    }
    proof {
        lemma_chord_at(chords@, first, second, i as int);
    }
    i
}

/// Whether a key is the first of two that are bound.
fn begins(chords: &Vec<Chord>, key: char) -> (r: bool)
    ensures
        r == begins_chord(chords@, key),
{
    let mut i: usize = 0;
    while i < chords.len()
        invariant
            i <= chords@.len(),
            forall|j: int| 0 <= j < i ==> (#[trigger] chords@[j]).first != key,
        decreases chords@.len() - i,
    {
        if chords[i].first == key {
            return true;
        }
        i = i + 1;
    }
    false
}

/// What `{:?}` writes of a text.
pub uninterp spec fn debug_quoted(s: Seq<char>) -> Seq<char>;

/// The `Debug` form of a string slice: the text in quotes, with escapes. The
/// form itself is named, not restated.
#[verifier::external_body]
fn debug_text(s: &str) -> (r: String)
    ensures
        r@ == debug_quoted(s@),
{
    format!("{:?}", s)
}

/// Bindings of a mode and the warnings so far.
pub struct Bound {
    pub table: Bindings,
    pub chords: Seq<Chord>,
    pub warnings: Seq<Seq<char>>,
}

/// `mode.command`, as warnings name a binding.
pub open spec fn bind_name(mode_name: Seq<char>, command: Seq<char>) -> Seq<char> {
    mode_name + "."@ + command
}

/// Whether a key can be bound: printable ASCII.
pub open spec fn bindable(c: char) -> bool {
    32 <= c as int && (c as int) < 127 && !whitespace(c)
}

/// Whether a text is two characters with a space between them.
pub open spec fn names_two_keys(keyspec: Seq<char>) -> bool {
    keyspec.len() == 3 && keyspec[1] == ' '
}

/// The warning that a binding takes a key from the command that has it by
/// default, where another command has it.
pub open spec fn displaced(
    rows: Seq<KeyRowView>,
    name: Seq<char>,
    keyspec: Seq<char>,
    c: char,
    own: char,
) -> Seq<Seq<char>> {
    let other = row_with_key(rows, c);
    if 0 <= other < rows.len() && c != own {
        seq![
            name + "="@ + keyspec + " 位移默认绑定 "@ + rows[other].label + "（"@ + seq![c] + "）"@,
        ]
    } else {
        Seq::empty()
    }
}

/// One binding of the configuration. An unknown command, keys that cannot be
/// bound and the prefix `g` by itself give a warning and change nothing. `none`
/// frees the default key of the command. A key, and two keys with a space
/// between them, free it too and take the command, with a warning where the
/// key, or the first of the two, belongs to another command by default.
pub open spec fn bind(
    b: Bound,
    rows: Seq<KeyRowView>,
    mode_name: Seq<char>,
    command: Seq<char>,
    keyspec: Seq<char>,
) -> Bound {
    let at = row_named(rows, command);
    let name = bind_name(mode_name, command);
    if !(0 <= at < rows.len()) {
        Bound { warnings: b.warnings.push(name + ": 未知 command（保留默认）"@), ..b }
    } else {
        let own = rows[at].key;
        if keyspec == "none"@ {
            Bound { table: b.table.update(own as int, None), ..b }
        } else if keyspec.len() != 1 && !names_two_keys(keyspec) {
            Bound {
                warnings: b.warnings.push(
                    name + "="@ + debug_quoted(keyspec)
                        + ": 非法键序列（支持单字符、双键或 none，保留默认）"@,
                ),
                ..b
            }
        } else if !bindable(keyspec[0]) || !bindable(keyspec.last()) {
            Bound {
                warnings: b.warnings.push(
                    name + "="@ + debug_quoted(keyspec) + ": 非法键序列（保留默认）"@,
                ),
                ..b
            }
        } else if names_two_keys(keyspec) {
            Bound {
                table: b.table.update(own as int, None),
                chords: with_chord(
                    b.chords,
                    Chord { first: keyspec[0], second: keyspec[2], own },
                ),
                warnings: b.warnings + displaced(rows, name, keyspec, keyspec[0], own),
            }
        } else if keyspec[0] == 'g' {
            Bound {
                warnings: b.warnings.push(name + ": g 为前缀键不可重绑（保留默认）"@),
                ..b
            }
        } else {
            let c = keyspec[0];
            Bound {
                table: b.table.update(own as int, None).update(c as int, Some(own)),
                warnings: b.warnings + displaced(rows, name, keyspec, c, own),
                ..b
            }
        }
    }
}

/// The first `n` bindings of a mode.
pub open spec fn bind_all(
    b: Bound,
    rows: Seq<KeyRowView>,
    mode_name: Seq<char>,
    binds: Seq<(Seq<char>, Seq<char>)>,
    n: nat,
) -> Bound
    decreases n,
{
    if n == 0 || n > binds.len() {
        b
    } else {
        bind(
            bind_all(b, rows, mode_name, binds, (n - 1) as nat),
            rows,
            mode_name,
            binds[n - 1].0,
            binds[n - 1].1,
        )
    }
}

/// Mathematical keymap: the bindings of each mode that can be bound.
#[verifier::ext_equal]
pub struct KeymapView {
    pub tables: Seq<Bindings>,
    pub chords: Seq<Seq<Chord>>,
    pub warnings: Seq<Seq<char>>,
}

/// The keymap without overrides.
pub open spec fn default_keymap() -> KeymapView {
    KeymapView {
        tables: Seq::new(8, |s: int| default_bindings(mode_at(s))),
        chords: Seq::new(8, |s: int| Seq::empty()),
        warnings: Seq::empty(),
    }
}

/// The keymap with the bindings of one more mode.
pub open spec fn with_mode(k: KeymapView, m: ModeBinds) -> KeymapView {
    match mode_named(m.0) {
        None => KeymapView {
            warnings: k.warnings.push("未知 mode: "@ + debug_quoted(m.0) + "（忽略）"@),
            ..k
        },
        Some(mode) => {
            let s = slot_of(mode)->0;
            let b = bind_all(
                Bound { table: k.tables[s], chords: k.chords[s], warnings: k.warnings },
                rows_of(mode),
                m.0,
                m.1,
                m.1.len(),
            );
            KeymapView {
                tables: k.tables.update(s, b.table),
                chords: k.chords.update(s, b.chords),
                warnings: b.warnings,
            }
        },
    }
}

/// The keymap with the first `n` modes of a configuration.
pub open spec fn keymap_of(cfg: Seq<ModeBinds>, n: nat) -> KeymapView
    decreases n,
{
    if n == 0 || n > cfg.len() {
        default_keymap()
    } else {
        with_mode(keymap_of(cfg, (n - 1) as nat), cfg[n - 1])
    }
}

impl KeymapView {
    /// Eight modes, each with a binding for every ASCII key; bound keys lead to
    /// the default key of a command of the mode; `g` by itself is never bound.
    pub open spec fn wf(self) -> bool {
        &&& self.tables.len() == 8
        &&& self.chords.len() == 8
        &&& forall|s: int| 0 <= s < 8 ==> chords_wf(mode_at(s), #[trigger] self.chords[s])
        &&& forall|s: int| 0 <= s < 8 ==> bindings_wf(mode_at(s), #[trigger] self.tables[s])
    }
}

/// What holds of the bindings of a mode.
pub open spec fn bindings_wf(mode: InputMode, t: Bindings) -> bool {
    &&& t.len() == 128
    &&& t['g' as int] is None
    &&& forall|i: int|
        0 <= i < 128 && (#[trigger] t[i]) is Some ==> 0 <= row_with_key(rows_of(mode), t[i]->0)
            < rows_of(mode).len()
}

/// What holds of the two keys that are bound in a mode.
pub open spec fn chords_wf(mode: InputMode, chords: Seq<Chord>) -> bool {
    forall|i: int|
        0 <= i < chords.len() ==> 0 <= row_with_key(
            rows_of(mode),
            (#[trigger] chords[i]).own,
        ) < rows_of(mode).len()
}

/// The command that a key completes behind the first key of two.
pub open spec fn completed(
    k: KeymapView,
    mode: InputMode,
    key: KeyEvent,
    first: Option<char>,
) -> Option<Command> {
    match (key.code, slot_of(mode), first) {
        (KeyCode::Char(c), Some(s), Some(f)) => {
            let at = chord_at(k.chords[s], f, c);
            if key.modifiers.none_held() && at < k.chords[s].len() {
                Some(
                    rows_of(mode)[row_with_key(rows_of(mode), k.chords[s][at].own)].command,
                )
            } else {
                None
            }
        },
        _ => None,
    }
}

/// The key that begins two, where some two keys are bound that begin with it.
pub open spec fn begun(k: KeymapView, mode: InputMode, key: KeyEvent) -> Option<char> {
    match (key.code, slot_of(mode)) {
        (KeyCode::Char(c), Some(s)) => if key.modifiers.none_held() && begins_chord(
            k.chords[s],
            c,
        ) {
            Some(c)
        } else {
            None
        },
        _ => None,
    }
}

/// What the overrides make of a key behind the first key of two, and the first
/// key that is pending then. Two bound keys go before one. The prefix `g` is
/// pending in any case, so where the mode knows it, it begins two keys as it
/// does without overrides.
pub open spec fn overridden(
    k: KeymapView,
    mode: InputMode,
    key: KeyEvent,
    first: Option<char>,
) -> Option<(Decoded, Option<char>)> {
    if completed(k, mode, key, first) is Some {
        Some((Decoded::Is(completed(k, mode, key, first)->0), None))
    } else if begun(k, mode, key) is Some && !(has_prefix_key(mode) && key.code == KeyCode::Char(
        'g',
    )) {
        Some((Decoded::Nothing, begun(k, mode, key)))
    } else {
        match override_outcome(k, mode, key) {
            Some(d) => Some((d, None)),
            None => None,
        }
    }
}

/// What the bindings of single keys make of a key: nothing where they leave it
/// alone.
pub open spec fn override_outcome(k: KeymapView, mode: InputMode, key: KeyEvent) -> Option<Decoded> {
    match (key.code, slot_of(mode)) {
        (KeyCode::Char(c), Some(s)) => if !key.modifiers.none_held() || c as int >= 128 {
            None
        } else {
            let rows = rows_of(mode);
            match k.tables[s][c as int] {
                Some(d) => if d != c {
                    Some(Decoded::Is(rows[row_with_key(rows, d)].command))
                } else {
                    None
                },
                None => if row_with_key(rows, c) < rows.len() {
                    Some(Decoded::Nothing)
                } else {
                    None
                },
            }
        },
        _ => None,
    }
}

/// Keys with the overrides of the configuration over the defaults.
#[derive(Debug, Clone, Default)]
pub struct Keymap {
    /// For each mode and each ASCII key the default key of the command that the
    /// key is bound to.
    pub tables: Vec<Vec<Option<char>>>,
    /// For each mode the two keys that are bound.
    pub chords: Vec<Vec<Chord>>,
    /// What was wrong with the overrides.
    pub warnings: Vec<String>,
}

impl View for Keymap {
    type V = KeymapView;

    open spec fn view(&self) -> KeymapView {
        KeymapView {
            tables: self.tables@.map_values(|t: Vec<Option<char>>| t@),
            chords: self.chords@.map_values(|c: Vec<Chord>| c@),
            warnings: crate::text::texts(self.warnings@),
        }
    }
}

/// The row of a command has its own key among the rows.
proof fn lemma_row_key_found(rows: Seq<KeyRowView>, i: int)
    requires
        0 <= i < rows.len(),
    ensures
        0 <= row_with_key(rows, rows[i].key) <= i,
        rows[row_with_key(rows, rows[i].key)].key == rows[i].key,
    decreases rows.len(),
{
    if rows[0].key != rows[i].key {
        let rest = rows.skip(1);
        assert(rest[i - 1] == rows[i]);
        lemma_row_key_found(rest, i - 1);
        let j = row_with_key(rest, rows[i].key);
        assert(rest[j] == rows[j + 1]);
    }
}

/// `row_named` is an index or the end.
proof fn lemma_row_named_bound(rows: Seq<KeyRowView>, name: Seq<char>)
    ensures
        0 <= row_named(rows, name) <= rows.len(),
    decreases rows.len(),
{
    if rows.len() > 0 && rows[0].name != name {
        lemma_row_named_bound(rows.skip(1), name);
    }
}

/// Default keys are ASCII and none of them is `g`.
proof fn lemma_default_keys(mode: InputMode)
    ensures
        forall|i: int|
            0 <= i < rows_of(mode).len() ==> 32 <= (#[trigger] rows_of(mode)[i]).key as int
                && (rows_of(mode)[i].key as int) < 127 && rows_of(mode)[i].key != 'g',
{
}

/// A key that is no default key of a mode is found in no row.
proof fn lemma_row_absent(rows: Seq<KeyRowView>, key: char)
    requires
        forall|i: int| 0 <= i < rows.len() ==> (#[trigger] rows[i]).key != key,
    ensures
        row_with_key(rows, key) == rows.len(),
{
    lemma_row_with_key(rows, key, rows.len() as int);
}

/// The default bindings are well formed.
proof fn lemma_default_bindings(mode: InputMode)
    ensures
        bindings_wf(mode, default_bindings(mode)),
{
    lemma_default_keys(mode);
    lemma_row_absent(rows_of(mode), 'g');
    let t = default_bindings(mode);
    assert forall|i: int| 0 <= i < 128 && (#[trigger] t[i]) is Some implies 0 <= row_with_key(
        rows_of(mode),
        t[i]->0,
    ) < rows_of(mode).len() by {
        lemma_row_with_key_bound(rows_of(mode), i as char);
    }
}

pub proof fn lemma_row_with_key_bound(rows: Seq<KeyRowView>, key: char)
    ensures
        0 <= row_with_key(rows, key) <= rows.len(),
    decreases rows.len(),
{
    if rows.len() > 0 && rows[0].key != key {
        lemma_row_with_key_bound(rows.skip(1), key);
    }
}

/// A binding keeps the bindings well formed.
proof fn lemma_bind_wf(
    b: Bound,
    mode: InputMode,
    mode_name: Seq<char>,
    command: Seq<char>,
    keyspec: Seq<char>,
)
    requires
        bindings_wf(mode, b.table),
        chords_wf(mode, b.chords),
    ensures
        bindings_wf(mode, bind(b, rows_of(mode), mode_name, command, keyspec).table),
        chords_wf(mode, bind(b, rows_of(mode), mode_name, command, keyspec).chords),
{
    let rows = rows_of(mode);
    let at = row_named(rows, command);
    lemma_default_keys(mode);
    lemma_row_named_bound(rows, command);
    if 0 <= at < rows.len() {
        lemma_row_key_found(rows, at);
        if names_two_keys(keyspec) {
            lemma_chord_at_bound(b.chords, keyspec[0], keyspec[2]);
        }
    }
}

proof fn lemma_bind_all_wf(
    b: Bound,
    mode: InputMode,
    mode_name: Seq<char>,
    binds: Seq<(Seq<char>, Seq<char>)>,
    n: nat,
)
    requires
        bindings_wf(mode, b.table),
        chords_wf(mode, b.chords),
    ensures
        bindings_wf(mode, bind_all(b, rows_of(mode), mode_name, binds, n).table),
        chords_wf(mode, bind_all(b, rows_of(mode), mode_name, binds, n).chords),
    decreases n,
{
    if n > 0 && n <= binds.len() {
        lemma_bind_all_wf(b, mode, mode_name, binds, (n - 1) as nat);
        lemma_bind_wf(
            bind_all(b, rows_of(mode), mode_name, binds, (n - 1) as nat),
            mode,
            mode_name,
            binds[n - 1].0,
            binds[n - 1].1,
        );
    }
}

/// Every keymap of a configuration is well formed.
pub proof fn lemma_keymap_wf(cfg: Seq<ModeBinds>, n: nat)
    ensures
        keymap_of(cfg, n).wf(),
    decreases n,
{
    if n == 0 || n > cfg.len() {
        assert forall|s: int| 0 <= s < 8 implies bindings_wf(
            mode_at(s),
            #[trigger] default_keymap().tables[s],
        ) by {
            lemma_default_bindings(mode_at(s));
        }
    } else {
        lemma_keymap_wf(cfg, (n - 1) as nat);
        let k = keymap_of(cfg, (n - 1) as nat);
        let m = cfg[n - 1];
        if let Some(mode) = mode_named(m.0) {
            let s = slot_of(mode)->0;
            assert(mode_at(s) == mode);
            assert(bindings_wf(mode_at(s), k.tables[s]));
            assert(chords_wf(mode_at(s), k.chords[s]));
            lemma_bind_all_wf(
                Bound { table: k.tables[s], chords: k.chords[s], warnings: k.warnings },
                mode,
                m.0,
                m.1,
                m.1.len(),
            );
        }
    }
}

/// `mode.command`.
fn binding_name(mode_name: &str, command: &str) -> (r: String)
    ensures
        r@ == bind_name(mode_name@, command@),
{
    cat3(mode_name, ".", command)
}

/// Warns where a binding takes a key from the command that has it by default.
fn warn_displaced(
    warnings: &mut Vec<String>,
    mode: InputMode,
    rows: &Vec<KeyRow>,
    name: &str,
    keyspec: &str,
    c: char,
    own: char,
)
    requires
        key_rows(rows@) == rows_of(mode),
    ensures
        crate::text::texts(final(warnings)@) == crate::text::texts(old(warnings)@) + displaced(
            rows_of(mode),
            name@,
            keyspec@,
            c,
            own,
        ),
{
    let ghost before = crate::text::texts(warnings@);
    let other: usize = find_key(rows, c);
    if other < rows.len() && c != own {
        assert(rows_of(mode)[other as int] == rows@[other as int]@);
        let mut w = cat3(name, "=", keyspec);
        w.append(" 位移默认绑定 ");
        w.append(rows[other].label);
        w.append("（");
        w.push(c);
        w.append("）");
        assert(w@ =~= name@ + "="@ + keyspec@ + " 位移默认绑定 "@ + rows_of(mode)[other as int].label
            + "（"@ + seq![c] + "）"@);
        warnings.push(w);
        assert(crate::text::texts(warnings@) =~= before + seq![w@]);
    } else {
        assert(crate::text::texts(warnings@) =~= before + Seq::<Seq<char>>::empty());
    }
}

/// Makes one binding of the configuration.
fn bind_one(
    table: &mut Vec<Option<char>>,
    chords: &mut Vec<Chord>,
    warnings: &mut Vec<String>,
    mode: InputMode,
    rows: &Vec<KeyRow>,
    mode_name: &str,
    command: &str,
    keyspec: &str,
)
    requires
        key_rows(rows@) == rows_of(mode),
        bindings_wf(mode, old(table)@),
        chords_wf(mode, old(chords)@),
    ensures
        ({
            let b = bind(
                Bound {
                    table: old(table)@,
                    chords: old(chords)@,
                    warnings: crate::text::texts(old(warnings)@),
                },
                rows_of(mode),
                mode_name@,
                command@,
                keyspec@,
            );
            &&& final(table)@ == b.table
            &&& final(chords)@ == b.chords
            &&& crate::text::texts(final(warnings)@) == b.warnings
            &&& bindings_wf(mode, final(table)@)
            &&& chords_wf(mode, final(chords)@)
        }),
{
    let ghost start = Bound {
        table: table@,
        chords: chords@,
        warnings: crate::text::texts(warnings@),
    };
    proof {
        lemma_default_keys(mode);
        lemma_bind_wf(start, mode, mode_name@, command@, keyspec@);
    }
    let name = binding_name(mode_name, command);
    let at: usize = find_name(rows, command);
    if at >= rows.len() {
        let w = cat(name.as_str(), ": 未知 command（保留默认）");
        warnings.push(w);
        assert(crate::text::texts(warnings@) =~= start.warnings.push(w@));
        return;
    }
    let own = rows[at].key;
    assert(rows_of(mode)[at as int] == rows@[at as int]@);
    let own_code: usize = own as u8 as usize;
    assert(own_code == own as int);
    if same(keyspec, "none") {
        table.set(own_code, None);
        return;
    }
    let cs = chars_of(keyspec);
    let two = cs.len() == 3 && cs[1] == ' ';
    if cs.len() != 1 && !two {
        let quoted = debug_text(keyspec);
        let head = cat3(name.as_str(), "=", quoted.as_str());
        let w = cat(head.as_str(), ": 非法键序列（支持单字符、双键或 none，保留默认）");
        warnings.push(w);
        assert(crate::text::texts(warnings@) =~= start.warnings.push(w@));
        return;
    }
    let c = cs[0];
    let last = cs[cs.len() - 1];
    if !can_bind(c) || !can_bind(last) {
        let quoted = debug_text(keyspec);
        let head = cat3(name.as_str(), "=", quoted.as_str());
        let w = cat(head.as_str(), ": 非法键序列（保留默认）");
        warnings.push(w);
        assert(crate::text::texts(warnings@) =~= start.warnings.push(w@));
        return;
    }
    if two {
        table.set(own_code, None);
        put_chord(chords, Chord { first: c, second: last, own });
        warn_displaced(warnings, mode, rows, name.as_str(), keyspec, c, own);
        return;
    }
    if c == 'g' {
        let w = cat(name.as_str(), ": g 为前缀键不可重绑（保留默认）");
        warnings.push(w);
        assert(crate::text::texts(warnings@) =~= start.warnings.push(w@));
        return;
    }
    let code: usize = c as u8 as usize;
    assert(code == c as int);
    table.set(own_code, None);
    warn_displaced(warnings, mode, rows, name.as_str(), keyspec, c, own);
    table.set(code, Some(own));
}

/// Whether a key can be bound.
fn can_bind(c: char) -> (r: bool)
    ensures
        r == bindable(c),
{
    ' ' <= c && c < '\u{7f}' && !is_whitespace(c)
}

/// Binds two keys.
fn put_chord(chords: &mut Vec<Chord>, c: Chord)
    ensures
        final(chords)@ == with_chord(old(chords)@, c),
{
    let at: usize = find_chord(chords, c.first, c.second);
    if at < chords.len() {
        chords.set(at, c);
    } else {
        chords.push(c);
    }
}

impl Keymap {
    /// What holds of every keymap.
    pub open spec fn wf(&self) -> bool {
        self@.wf()
    }

    /// The defaults of a mode.
    fn default_table(mode: InputMode) -> (r: Vec<Option<char>>)
        ensures
            r@ == default_bindings(mode),
    {
        let rows = default_key_tables(mode);
        let mut table: Vec<Option<char>> = Vec::new();
        let mut i: u8 = 0;
        while i < 128
            invariant
                i <= 128,
                key_rows(rows@) == rows_of(mode),
                table@ == default_bindings(mode).take(i as int),
            decreases 128 - i,
        {
            let c = i as char;
            let found: usize = find_key(&rows, c);
            let entry = if found < rows.len() {
                Some(c)
            } else {
                None
            };
            table.push(entry);
            assert(table@ =~= default_bindings(mode).take(i + 1));
            i = i + 1;
        }
        assert(default_bindings(mode).take(128) =~= default_bindings(mode));
        table
    }

    /// Binds the keys of a configuration over the defaults. What cannot be
    /// bound gives a warning and leaves the default.
    pub fn build(cfg: &KeymapConfig) -> (r: Keymap)
        ensures
            r@ == keymap_of(cfg@, cfg@.len()),
            crate::text::texts(r.warnings@) == r@.warnings,
            r.wf(),
    {
        let ghost views = cfg@;
        let mut tables: Vec<Vec<Option<char>>> = Vec::new();
        let mut chords: Vec<Vec<Chord>> = Vec::new();
        let mut s: usize = 0;
        while s < 8
            invariant
                s <= 8,
                tables@.len() == s,
                chords@.len() == s,
                forall|k: int| 0 <= k < s ==> (#[trigger] chords@[k])@ == Seq::<Chord>::empty(),
                forall|k: int|
                    0 <= k < s ==> (#[trigger] tables@[k])@ == default_bindings(mode_at(k)),
            decreases 8 - s,
        {
            tables.push(Keymap::default_table(mode_of_slot(s)));
            chords.push(Vec::new());
            s = s + 1;
        }
        let mut warnings: Vec<String> = Vec::new();
        let mut map = Keymap { tables, chords, warnings };
        proof {
            assert(map@.tables =~= default_keymap().tables);
            assert(map@.chords =~= default_keymap().chords);
            assert(map@.warnings =~= Seq::<Seq<char>>::empty());
            assert(map@ =~= default_keymap());
        }
        let mut i: usize = 0;
        while i < cfg.modes.len()
            invariant
                i <= cfg.modes@.len(),
                views == cfg@,
                views.len() == cfg.modes@.len(),
                map@ == keymap_of(views, i as nat),
            decreases cfg.modes@.len() - i,
        {
            let entry = &cfg.modes[i];
            let ghost m = views[i as int];
            assert(m.0 == entry.0@ && m.1 == pair_views(entry.1@));
            proof {
                lemma_keymap_wf(views, i as nat);
            }
            let ghost before = map@;
            match mode_from_name(entry.0.as_str()) {
                None => {
                    let quoted = debug_text(entry.0.as_str());
                    let w = cat3("未知 mode: ", quoted.as_str(), "（忽略）");
                    map.warnings.push(w);
                    assert(map@.warnings =~= before.warnings.push(w@));
                    assert(map@ =~= with_mode(before, m));
                },
                Some(mode) => {
                    if let Some(slot) = slot_index(mode) {
                        map.bind_mode(slot, mode, entry.0.as_str(), &entry.1);
                    }
                },
            }
            i = i + 1;
        }
        proof {
            lemma_keymap_wf(views, views.len());
        }
        map
    }

    /// Binds the keys of one mode.
    fn bind_mode(
        &mut self,
        slot: usize,
        mode: InputMode,
        mode_name: &str,
        binds: &Vec<(String, String)>,
    )
        requires
            old(self).wf(),
            slot_of(mode) == Some(slot as int),
            slot < 8,
            mode_at(slot as int) == mode,
        ensures
            ({
                let b = bind_all(
                    Bound {
                        table: old(self)@.tables[slot as int],
                        chords: old(self)@.chords[slot as int],
                        warnings: old(self)@.warnings,
                    },
                    rows_of(mode),
                    mode_name@,
                    pair_views(binds@),
                    binds@.len(),
                );
                final(self)@ == (KeymapView {
                    tables: old(self)@.tables.update(slot as int, b.table),
                    chords: old(self)@.chords.update(slot as int, b.chords),
                    warnings: b.warnings,
                })
            }),
    {
        let rows = default_key_tables(mode);
        let ghost views = pair_views(binds@);
        let ghost start = Bound {
            table: self@.tables[slot as int],
            chords: self@.chords[slot as int],
            warnings: self@.warnings,
        };
        let mut table: Vec<Option<char>> = Vec::new();
        std::mem::swap(&mut table, &mut self.tables[slot]);
        let mut chords: Vec<Chord> = Vec::new();
        std::mem::swap(&mut chords, &mut self.chords[slot]);
        let mut warnings: Vec<String> = Vec::new();
        std::mem::swap(&mut warnings, &mut self.warnings);
        assert(table@ == start.table);
        assert(chords@ == start.chords);
        assert(bindings_wf(mode_at(slot as int), old(self)@.tables[slot as int]));
        assert(chords_wf(mode_at(slot as int), old(self)@.chords[slot as int]));
        let mut j: usize = 0;
        while j < binds.len()
            invariant
                j <= binds@.len(),
                views == pair_views(binds@),
                key_rows(rows@) == rows_of(mode),
                bindings_wf(mode, table@),
                chords_wf(mode, chords@),
                table@ == bind_all(start, rows_of(mode), mode_name@, views, j as nat).table,
                chords@ == bind_all(start, rows_of(mode), mode_name@, views, j as nat).chords,
                crate::text::texts(warnings@) == bind_all(
                    start,
                    rows_of(mode),
                    mode_name@,
                    views,
                    j as nat,
                ).warnings,
            decreases binds@.len() - j,
        {
            let pair = &binds[j];
            assert(views[j as int] == (pair.0@, pair.1@));
            bind_one(
                &mut table,
                &mut chords,
                &mut warnings,
                mode,
                &rows,
                mode_name,
                pair.0.as_str(),
                pair.1.as_str(),
            );
            j = j + 1;
        }
        self.tables.set(slot, table);
        self.chords.set(slot, chords);
        self.warnings = warnings;
        proof {
            let b = bind_all(start, rows_of(mode), mode_name@, views, views.len());
            assert(self@.tables =~= old(self)@.tables.update(slot as int, b.table));
            assert(self@.chords =~= old(self)@.chords.update(slot as int, b.chords));
        }
    }

    /// The command that a key completes behind the first key of two.
    fn complete(&self, mode: InputMode, key: KeyEvent, first: Option<char>) -> (r: Option<Command>)
        requires
            self.wf(),
        ensures
            r == completed(self@, mode, key, first),
    {
        let c = match key.code {
            KeyCode::Char(c) => c,
            _ => {
                return None;
            },
        };
        let f = match first {
            Some(f) => f,
            None => {
                return None;
            },
        };
        if !key.modifiers.is_empty() {
            return None;
        }
        match slot_index(mode) {
            None => None,
            Some(slot) => {
                assert(chords_wf(mode_at(slot as int), self@.chords[slot as int]));
                assert(self@.chords[slot as int] == self.chords@[slot as int]@);
                let at: usize = find_chord(&self.chords[slot], f, c);
                if at < self.chords[slot].len() {
                    let mut rows = default_key_tables(mode);
                    let own: usize = find_key(&rows, self.chords[slot][at].own);
                    assert(rows_of(mode)[own as int] == rows@[own as int]@);
                    let row = rows.swap_remove(own);
                    Some(row.command)
                } else {
                    None
                }
            },
        }
    }

    /// The key that begins two, where some two keys are bound that begin with
    /// it.
    fn begin(&self, mode: InputMode, key: KeyEvent) -> (r: Option<char>)
        requires
            self.wf(),
        ensures
            r == begun(self@, mode, key),
    {
        match key.code {
            KeyCode::Char(c) => match slot_index(mode) {
                Some(slot) => {
                    assert(self@.chords[slot as int] == self.chords@[slot as int]@);
                    if key.modifiers.is_empty() && begins(&self.chords[slot], c) {
                        Some(c)
                    } else {
                        None
                    }
                },
                None => None,
            },
            _ => None,
        }
    }

    /// What the bindings of single keys make of a key: nothing where they leave
    /// it alone, no command where they freed it.
    pub fn decode_override(&self, mode: InputMode, key: KeyEvent) -> (r: Option<Option<Command>>)
        requires
            self.wf(),
        ensures
            match override_outcome(self@, mode, key) {
                Some(d) => r is Some && gives(r->0, d),
                None => r is None,
            },
    {
        let c = match key.code {
            KeyCode::Char(c) => c,
            _ => {
                return None;
            },
        };
        if !key.modifiers.is_empty() || c as u32 >= 128 {
            return None;
        }
        match slot_index(mode) {
            None => None,
            Some(slot) => {
                let mut rows = default_key_tables(mode);
                let code: usize = c as u8 as usize;
                assert(code == c as int);
                assert(bindings_wf(mode_at(slot as int), self@.tables[slot as int]));
                assert(self@.tables[slot as int] == self.tables@[slot as int]@);
                match self.tables[slot][code] {
                    Some(d) => if d != c {
                        let at: usize = find_key(&rows, d);
                        assert(rows_of(mode)[at as int] == rows@[at as int]@);
                        let row = rows.swap_remove(at);
                        Some(Some(row.command))
                    } else {
                        None
                    },
                    None => {
                        let at: usize = find_key(&rows, c);
                        if at < rows.len() {
                            Some(None)
                        } else {
                            None
                        }
                    },
                }
            },
        }
    }
}

/// A key in a line about overrides.
pub open spec fn bound_line(mode: InputMode, t: Bindings, i: int) -> Seq<Seq<char>> {
    let rows = rows_of(mode);
    match t[i] {
        Some(d) => if d == i as char {
            Seq::empty()
        } else {
            let own = row_with_key(rows, i as char);
            seq![
                "["@ + name_of_mode(mode) + "] "@ + seq![i as char] + " → "@ + rows[row_with_key(
                    rows,
                    d,
                )].label + "（默认 "@ + (if own < rows.len() {
                    rows[own].label
                } else {
                    "无"@
                }) + "）"@,
            ]
        },
        None => Seq::empty(),
    }
}

/// A freed key in a line about overrides.
pub open spec fn freed_line(mode: InputMode, t: Bindings, i: int) -> Seq<Seq<char>> {
    let rows = rows_of(mode);
    let own = row_with_key(rows, i as char);
    if t[i] is None && own < rows.len() {
        seq!["["@ + name_of_mode(mode) + "] "@ + seq![i as char] + " unbind（"@ + rows[own].label
            + "）"@]
    } else {
        Seq::empty()
    }
}

/// The lines about the first `n` keys that are bound otherwise than by default.
pub open spec fn bound_lines(mode: InputMode, t: Bindings, n: nat) -> Seq<Seq<char>>
    decreases n,
{
    if n == 0 {
        Seq::empty()
    } else {
        bound_lines(mode, t, (n - 1) as nat) + bound_line(mode, t, n - 1)
    }
}

/// The lines about the first `n` keys that were freed.
pub open spec fn freed_lines(mode: InputMode, t: Bindings, n: nat) -> Seq<Seq<char>>
    decreases n,
{
    if n == 0 {
        Seq::empty()
    } else {
        freed_lines(mode, t, (n - 1) as nat) + freed_line(mode, t, n - 1)
    }
}

/// A line about two keys that are bound.
pub open spec fn chord_line(mode: InputMode, c: Chord) -> Seq<char> {
    "["@ + name_of_mode(mode) + "] "@ + seq![c.first] + " "@ + seq![c.second] + " → "@ + rows_of(
        mode,
    )[row_with_key(rows_of(mode), c.own)].label
}

/// The lines about the two keys that are bound.
pub open spec fn chord_lines(mode: InputMode, chords: Seq<Chord>) -> Seq<Seq<char>> {
    chords.map_values(|c: Chord| chord_line(mode, c))
}

/// The lines about the first `n` modes.
pub open spec fn lines_of(k: KeymapView, n: nat) -> Seq<Seq<char>>
    decreases n,
{
    if n == 0 {
        Seq::empty()
    } else {
        let s = n - 1;
        lines_of(k, (n - 1) as nat) + bound_lines(mode_at(s), k.tables[s], 128) + chord_lines(
            mode_at(s),
            k.chords[s],
        ) + freed_lines(mode_at(s), k.tables[s], 128)
    }
}

/// The start of a line about a key.
fn line_head(mode: InputMode, c: char) -> (r: String)
    ensures
        r@ == "["@ + name_of_mode(mode) + "] "@ + seq![c],
{
    let mut out = cat3("[", mode_name_of(mode), "] ");
    out.push(c);
    assert(out@ =~= "["@ + name_of_mode(mode) + "] "@ + seq![c]);
    out
}

/// Appends the lines about the bound keys of a mode.
fn push_bound_lines(mode: InputMode, table: &Vec<Option<char>>, out: &mut Vec<String>)
    requires
        bindings_wf(mode, table@),
    ensures
        crate::text::texts(final(out)@) == crate::text::texts(old(out)@) + bound_lines(
            mode,
            table@,
            128,
        ),
{
    let rows = default_key_tables(mode);
    let ghost before = crate::text::texts(out@);
    let mut i: u8 = 0;
    assert(crate::text::texts(out@) =~= before + bound_lines(mode, table@, 0));
    while i < 128
        invariant
            i <= 128,
            key_rows(rows@) == rows_of(mode),
            bindings_wf(mode, table@),
            crate::text::texts(out@) == before + bound_lines(mode, table@, i as nat),
        decreases 128 - i,
    {
        let c = i as char;
        let ghost was = crate::text::texts(out@);
        match table[i as usize] {
            Some(d) => if d != c {
                let to: usize = find_key(&rows, d);
                let own: usize = find_key(&rows, c);
                assert(rows_of(mode)[to as int] == rows@[to as int]@);
                let mut line = line_head(mode, c);
                line.append(" → ");
                line.append(rows[to].label);
                line.append("（默认 ");
                if own < rows.len() {
                    assert(rows_of(mode)[own as int] == rows@[own as int]@);
                    line.append(rows[own].label);
                } else {
                    line.append("无");
                }
                line.append("）");
                assert(bound_line(mode, table@, i as int) =~= seq![line@]);
                out.push(line);
                assert(crate::text::texts(out@) =~= was + seq![line@]);
            } else {
                assert(was =~= was + bound_line(mode, table@, i as int));
            },
            None => {
                assert(was =~= was + bound_line(mode, table@, i as int));
            },
        }
        assert(crate::text::texts(out@) =~= before + bound_lines(mode, table@, (i + 1) as nat));
        i = i + 1;
    }
}

/// Appends the lines about the two keys that are bound in a mode.
fn push_chord_lines(mode: InputMode, chords: &Vec<Chord>, out: &mut Vec<String>)
    requires
        chords_wf(mode, chords@),
    ensures
        crate::text::texts(final(out)@) == crate::text::texts(old(out)@) + chord_lines(
            mode,
            chords@,
        ),
{
    let rows = default_key_tables(mode);
    let ghost before = crate::text::texts(out@);
    let ghost all = chord_lines(mode, chords@);
    let mut i: usize = 0;
    assert(crate::text::texts(out@) =~= before + all.take(0));
    while i < chords.len()
        invariant
            i <= chords@.len(),
            key_rows(rows@) == rows_of(mode),
            chords_wf(mode, chords@),
            all == chord_lines(mode, chords@),
            crate::text::texts(out@) == before + all.take(i as int),
        decreases chords@.len() - i,
    {
        let c = chords[i];
        let to: usize = find_key(&rows, c.own);
        assert(rows_of(mode)[to as int] == rows@[to as int]@);
        let mut line = line_head(mode, c.first);
        line.append(" ");
        line.push(c.second);
        line.append(" → ");
        line.append(rows[to].label);
        assert(line@ =~= chord_line(mode, c));
        let ghost was = crate::text::texts(out@);
        out.push(line);
        assert(crate::text::texts(out@) =~= was.push(line@));
        assert(all.take(i + 1) =~= all.take(i as int).push(line@));
        assert(crate::text::texts(out@) =~= before + all.take(i + 1));
        i = i + 1;
    }
    assert(all.take(i as int) =~= all);
}

/// Appends the lines about the freed keys of a mode.
fn push_freed_lines(mode: InputMode, table: &Vec<Option<char>>, out: &mut Vec<String>)
    requires
        bindings_wf(mode, table@),
    ensures
        crate::text::texts(final(out)@) == crate::text::texts(old(out)@) + freed_lines(
            mode,
            table@,
            128,
        ),
{
    let rows = default_key_tables(mode);
    let ghost before = crate::text::texts(out@);
    let mut i: u8 = 0;
    assert(crate::text::texts(out@) =~= before + freed_lines(mode, table@, 0));
    while i < 128
        invariant
            i <= 128,
            key_rows(rows@) == rows_of(mode),
            bindings_wf(mode, table@),
            crate::text::texts(out@) == before + freed_lines(mode, table@, i as nat),
        decreases 128 - i,
    {
        let c = i as char;
        let ghost was = crate::text::texts(out@);
        let own: usize = find_key(&rows, c);
        if table[i as usize].is_none() && own < rows.len() {
            assert(rows_of(mode)[own as int] == rows@[own as int]@);
            let mut line = line_head(mode, c);
            line.append(" unbind（");
            line.append(rows[own].label);
            line.append("）");
            assert(freed_line(mode, table@, i as int) =~= seq![line@]);
            out.push(line);
            assert(crate::text::texts(out@) =~= was + seq![line@]);
        } else {
            assert(was =~= was + freed_line(mode, table@, i as int));
        }
        assert(crate::text::texts(out@) =~= before + freed_lines(mode, table@, (i + 1) as nat));
        i = i + 1;
    }
}

impl Keymap {
    /// The keys that are bound otherwise than by default, mode by mode: single
    /// keys, two keys, and the keys that were freed.
    pub fn override_lines(&self) -> (out: Vec<String>)
        requires
            self.wf(),
        ensures
            crate::text::texts(out@) == lines_of(self@, 8),
    {
        let mut out: Vec<String> = Vec::new();
        let mut s: usize = 0;
        assert(crate::text::texts(out@) =~= lines_of(self@, 0));
        while s < 8
            invariant
                s <= 8,
                self.wf(),
                crate::text::texts(out@) == lines_of(self@, s as nat),
            decreases 8 - s,
        {
            let mode = mode_of_slot(s);
            assert(bindings_wf(mode_at(s as int), self@.tables[s as int]));
            assert(self@.tables[s as int] == self.tables@[s as int]@);
            assert(chords_wf(mode_at(s as int), self@.chords[s as int]));
            assert(self@.chords[s as int] == self.chords@[s as int]@);
            push_bound_lines(mode, &self.tables[s], &mut out);
            push_chord_lines(mode, &self.chords[s], &mut out);
            push_freed_lines(mode, &self.tables[s], &mut out);
            s = s + 1;
        }
        out
    }
}

impl KeyDecoder {
    /// The first key of two, where it was just pressed.
    pub closed spec fn pending(&self) -> Option<char> {
        self.first
    }

    /// The overrides, where there are any.
    pub closed spec fn overrides(&self) -> Option<KeymapView> {
        match self.keymap {
            Some(k) => Some(k@),
            None => None,
        }
    }

    /// Overrides are those of some configuration.
    pub open spec fn wf(&self) -> bool {
        self.overrides() is Some ==> self.overrides()->0.wf()
    }

    /// A decoder with the built-in keys.
    pub fn new() -> (r: KeyDecoder)
        ensures
            r.wf(),
            r.pending() is None,
            r.overrides() is None,
    {
        KeyDecoder { first: None, keymap: None }
    }

    /// A decoder with overrides.
    pub fn with_keymap(keymap: Keymap) -> (r: KeyDecoder)
        requires
            keymap.wf(),
        ensures
            r.wf(),
            r.pending() is None,
            r.overrides() == Some(keymap@),
    {
        KeyDecoder { first: None, keymap: Some(keymap) }
    }

    /// A decoder for a configuration: the built-in keys without overrides.
    pub fn from_effective(eff: &Effective) -> (r: KeyDecoder)
        ensures
            r.wf(),
            r.pending() is None,
            r.overrides() == if eff@.keymap.len() == 0 {
                None
            } else {
                Some(keymap_of(eff@.keymap, eff@.keymap.len()))
            },
    {
        if eff.keymap.modes.is_empty() {
            return KeyDecoder::new();
        }
        let keymap = Keymap::build(&eff.keymap);
        KeyDecoder::with_keymap(keymap)
    }

    /// Forgets a first key that is pending.
    pub fn reset(&mut self)
        ensures
            final(self).pending() is None,
            final(self).overrides() == old(self).overrides(),
    {
        self.first = None;
    }

    /// Translates one terminal event. A resize is reported as it is. A pressed
    /// key gives what the overrides say, else what the mode says. Releases and
    /// repetitions give nothing.
    pub fn decode(&mut self, mode: InputMode, event: Event) -> (r: Option<Command>)
        requires
            old(self).wf(),
        ensures
            final(self).wf(),
            final(self).overrides() == old(self).overrides(),
            match event {
                Event::Resize(width, height) => {
                    &&& r == Some(Command::Resize { width, height })
                    &&& final(self).pending() == old(self).pending()
                },
                Event::Key(key) => if key.kind == KeyEventKind::Press {
                    match old(self).outcome(mode, key) {
                        Some((d, first)) => gives(r, d) && final(self).pending() == first,
                        None => {
                            &&& gives(r, builtin(mode, key, old(self).pending() == Some('g')))
                            &&& final(self).pending() == first_after(
                                mode,
                                key,
                                old(self).pending(),
                            )
                        },
                    }
                } else {
                    r is None && final(self).pending() == old(self).pending()
                },
                Event::Other => r is None && final(self).pending() == old(self).pending(),
            },
    {
        match event {
            Event::Resize(width, height) => Some(Command::Resize { width, height }),
            Event::Key(key) => {
                if key.kind != KeyEventKind::Press {
                    return None;
                }
                if let Some(keymap) = &self.keymap {
                    let done = keymap.complete(mode, key, self.first);
                    if done.is_some() {
                        self.first = None;
                        return done;
                    }
                    let begun = keymap.begin(mode, key);
                    let prefix = key.code == KeyCode::Char('g') && knows_prefix(mode);
                    if begun.is_some() && !prefix {
                        self.first = begun;
                        return None;
                    }
                    if let Some(outcome) = keymap.decode_override(mode, key) {
                        self.first = None;
                        return outcome;
                    }
                }
                let pending = match self.first {
                    Some(c) => c == 'g',
                    None => false,
                };
                let r = decode_key(mode, key, pending);
                if mode != InputMode::TrajectoryFilter {
                    self.first = if next_pending(mode, key, pending) {
                        Some('g')
                    } else {
                        None
                    };
                }
                r
            },
            Event::Other => None,
        }
    }

    /// What the overrides say of a key, and the first key that is pending then.
    pub open spec fn outcome(&self, mode: InputMode, key: KeyEvent) -> Option<
        (Decoded, Option<char>),
    > {
        match self.overrides() {
            Some(k) => overridden(k, mode, key, self.pending()),
            None => None,
        }
    }
}

/// Whether a mode knows the prefix `g`.
fn knows_prefix(mode: InputMode) -> (r: bool)
    ensures
        r == has_prefix_key(mode),
{
    mode == InputMode::Normal || mode == InputMode::Trajectory || mode == InputMode::Monitor
}

/// Whether the prefix `g` is pending behind a key.
fn next_pending(mode: InputMode, key: KeyEvent, pending: bool) -> (r: bool)
    ensures
        r == pending_after(mode, key, pending),
{
    if mode == InputMode::TrajectoryFilter {
        return pending;
    }
    knows_prefix(mode) && key.code == KeyCode::Char('g') && !key.modifiers.control && !pending
}

/// What a key gives without overrides.
fn decode_key(mode: InputMode, key: KeyEvent, pending: bool) -> (r: Option<Command>)
    ensures
        gives(r, builtin(mode, key, pending)),
{
    match mode {
        InputMode::Normal => normal(key, pending),
        InputMode::Picker => picker(key),
        InputMode::Insert => insert(key),
        InputMode::Help => help(key),
        InputMode::Search => search(key),
        InputMode::Visual => match key.code {
            KeyCode::Esc => Some(Command::ClosePicker),
            KeyCode::Char(c) if key.modifiers.is_empty() => visual_char_key(c),
            _ => None,
        },
        InputMode::Approval => match key.code {
            KeyCode::Esc => Some(Command::ApprovalCancel),
            KeyCode::Char(c) if key.modifiers.is_empty() => approval_char_key(c),
            _ => None,
        },
        InputMode::ApprovalList => match key.code {
            KeyCode::Esc => Some(Command::CloseApprovalList),
            KeyCode::Char(c) if key.modifiers.is_empty() => approval_list_char_key(c),
            _ => None,
        },
        InputMode::ImageView => match key.code {
            KeyCode::Char(c) if key.modifiers.is_empty() => image_char_key(c),
            _ => None,
        },
        InputMode::Trajectory => trajectory(key, pending),
        InputMode::TrajectoryFilter => trajectory_filter(key),
        InputMode::ModelCatalog => overlay_key(key, false),
        InputMode::CommandPalette => overlay_key(key, false),
        InputMode::Monitor => monitor(key, pending),
        InputMode::Mention => overlay_key(key, true),
        InputMode::Subagent => match key.code {
            KeyCode::Esc => Some(Command::ClosePicker),
            KeyCode::Enter if key.modifiers.is_empty() => Some(Command::PickerConfirm),
            KeyCode::Char(c) if key.modifiers.is_empty() => subagent_char_key(c),
            _ => None,
        },
        InputMode::Goal => None,
        InputMode::Jobs => None,
    }
}

/// A letter that may follow the prefix `g`; `table` is what it means by itself.
fn after_prefix(c: char, pending: bool, table: Option<Command>) -> (r: Option<Command>)
    ensures
        r == if c == 'g' {
            if pending {
                Some(Command::GotoTop)
            } else {
                None
            }
        } else if pending && g_char(c) is Some {
            g_char(c)
        } else {
            table
        },
{
    if c == 'g' {
        return if pending {
            Some(Command::GotoTop)
        } else {
            None
        };
    }
    if pending {
        if let Some(command) = g_char_key(c) {
            return Some(command);
        }
    }
    table
}

fn normal(key: KeyEvent, pending: bool) -> (r: Option<Command>)
    ensures
        gives(r, builtin(InputMode::Normal, key, pending)),
{
    match key.code {
        KeyCode::Char(c) if key.modifiers.control => normal_control_key(c),
        KeyCode::Char(c) => after_prefix(c, pending, normal_char_key(c)),
        KeyCode::Enter if !key.modifiers.control => Some(Command::OpenFocused),
        _ => None,
    }
}

fn trajectory(key: KeyEvent, pending: bool) -> (r: Option<Command>)
    ensures
        gives(r, builtin(InputMode::Trajectory, key, pending)),
{
    match key.code {
        KeyCode::Char(c) if key.modifiers.control => match c {
            'c' => Some(Command::Quit),
            'w' => Some(Command::CycleFocus),
            _ => None,
        },
        KeyCode::Char(c) => after_prefix(c, pending, trajectory_char_key(c)),
        KeyCode::Enter if !key.modifiers.control => Some(Command::OpenDetail),
        KeyCode::Esc => Some(Command::ClosePicker),
        _ => None,
    }
}

fn trajectory_filter(key: KeyEvent) -> (r: Option<Command>)
    ensures
        forall|pending: bool| gives(r, #[trigger] builtin(InputMode::TrajectoryFilter, key, pending)),
{
    match key.code {
        KeyCode::Char(c) if key.modifiers.control => if c == 'c' {
            Some(Command::Quit)
        } else {
            None
        },
        KeyCode::Enter if !key.modifiers.control => Some(Command::PickerConfirm),
        KeyCode::Esc => Some(Command::ClosePicker),
        KeyCode::Backspace => Some(Command::PickerBackspace),
        KeyCode::Char(c) => match c {
            'q' => Some(Command::ClosePicker),
            'j' => Some(Command::MoveDown),
            'k' => Some(Command::MoveUp),
            _ => input(c),
        },
        _ => None,
    }
}

fn picker(key: KeyEvent) -> (r: Option<Command>)
    ensures
        forall|pending: bool| gives(r, #[trigger] builtin(InputMode::Picker, key, pending)),
{
    match key.code {
        KeyCode::Esc => Some(Command::ClosePicker),
        KeyCode::Enter => Some(Command::PickerConfirm),
        KeyCode::Up => Some(Command::PickerUp),
        KeyCode::Down => Some(Command::PickerDown),
        KeyCode::Backspace => Some(Command::PickerBackspace),
        KeyCode::Char(c) => if c == 'k' || (c == 'p' && key.modifiers.control) {
            Some(Command::PickerUp)
        } else if c == 'j' || (c == 'n' && key.modifiers.control) {
            Some(Command::PickerDown)
        } else if !key.modifiers.control {
            input(c)
        } else {
            None
        },
        _ => None,
    }
}

fn insert(key: KeyEvent) -> (r: Option<Command>)
    ensures
        forall|pending: bool| gives(r, #[trigger] builtin(InputMode::Insert, key, pending)),
{
    match key.code {
        KeyCode::Esc => Some(Command::ClosePicker),
        KeyCode::Enter => if key.modifiers.is_empty() {
            Some(Command::SubmitInput)
        } else if key.modifiers.control || key.modifiers.alt {
            input('\n')
        } else {
            None
        },
        KeyCode::Char(c) => if c == 'c' && key.modifiers.control {
            Some(Command::Quit)
        } else if key.modifiers.is_empty() {
            input(c)
        } else {
            None
        },
        KeyCode::Backspace => Some(Command::PickerBackspace),
        KeyCode::Up => Some(Command::HistoryPrev),
        KeyCode::Down => Some(Command::HistoryNext),
        KeyCode::Tab => Some(Command::ComposerTabComplete),
        KeyCode::Other => None,
    }
}

fn search(key: KeyEvent) -> (r: Option<Command>)
    ensures
        forall|pending: bool| gives(r, #[trigger] builtin(InputMode::Search, key, pending)),
{
    match key.code {
        KeyCode::Esc => Some(Command::ClosePicker),
        KeyCode::Enter if key.modifiers.is_empty() => Some(Command::PickerConfirm),
        KeyCode::Backspace => Some(Command::PickerBackspace),
        KeyCode::Up => Some(Command::PickerUp),
        KeyCode::Down => Some(Command::PickerDown),
        KeyCode::Char(c) if key.modifiers.is_empty() => match search_char_key(c) {
            Some(command) => Some(command),
            None => input(c),
        },
        _ => None,
    }
}

fn overlay_key(key: KeyEvent, arrows: bool) -> (r: Option<Command>)
    ensures
        gives(r, overlay(key, arrows)),
{
    match key.code {
        KeyCode::Esc => Some(Command::ClosePicker),
        KeyCode::Enter if key.modifiers.is_empty() => Some(Command::PickerConfirm),
        KeyCode::Backspace => Some(Command::PickerBackspace),
        KeyCode::Up if arrows => Some(Command::PickerUp),
        KeyCode::Down if arrows => Some(Command::PickerDown),
        KeyCode::Char(c) if key.modifiers.is_empty() => match list_char_key(c) {
            Some(command) => Some(command),
            None => input(c),
        },
        _ => None,
    }
}

fn help(key: KeyEvent) -> (r: Option<Command>)
    ensures
        forall|pending: bool| gives(r, #[trigger] builtin(InputMode::Help, key, pending)),
{
    match key.code {
        KeyCode::Esc => Some(Command::CloseHelp),
        KeyCode::Char('?') => Some(Command::CloseHelp),
        KeyCode::Char('q') => Some(Command::Quit),
        _ => None,
    }
}

fn monitor(key: KeyEvent, pending: bool) -> (r: Option<Command>)
    ensures
        gives(r, builtin(InputMode::Monitor, key, pending)),
{
    match key.code {
        KeyCode::Char(c) if key.modifiers.control => if c == 'c' {
            Some(Command::Quit)
        } else {
            None
        },
        KeyCode::Char(c) => if c == 'g' {
            if pending {
                Some(Command::GotoTop)
            } else {
                None
            }
        } else {
            monitor_char_key(c)
        },
        KeyCode::Enter if !key.modifiers.control => Some(Command::OpenFocused),
        KeyCode::Esc => Some(Command::ClosePicker),
        _ => None,
    }
}

/// What one event gives with the built-in keys and nothing pending.
pub fn map_key(mode: InputMode, event: Event) -> (r: Option<Command>)
    ensures
        match event {
            Event::Resize(width, height) => r == Some(Command::Resize { width, height }),
            Event::Key(key) => if key.kind == KeyEventKind::Press {
                gives(r, builtin(mode, key, false))
            } else {
                r is None
            },
            Event::Other => r is None,
        },
{
    let mut decoder = KeyDecoder::new();
    decoder.decode(mode, event)
}

/// A configuration that binds nothing changes no key.
pub proof fn law_default_keymap_changes_nothing(
    mode: InputMode,
    key: KeyEvent,
    first: Option<char>,
)
    ensures
        overridden(keymap_of(Seq::empty(), 0), mode, key, first) is None,
{
    match (key.code, slot_of(mode)) {
        (KeyCode::Char(c), Some(s)) => {
            assert(mode_at(s) == mode);
            assert(keymap_of(Seq::empty(), 0).chords[s] == Seq::<Chord>::empty());
            lemma_row_with_key_bound(rows_of(mode), c);
            if (c as int) < 128 {
                assert(keymap_of(Seq::empty(), 0).tables[s] == default_bindings(mode));
                assert((c as int) as char == c);
            }
        },
        _ => {},
    }
}

/// The prefix `g` cannot be taken: whatever a configuration binds, the
/// overrides leave the first `g` alone in a mode that knows the prefix.
pub proof fn law_prefix_is_never_overridden(cfg: Seq<ModeBinds>, n: nat, mode: InputMode)
    requires
        has_prefix_key(mode),
    ensures
        overridden(
            keymap_of(cfg, n),
            mode,
            KeyEvent {
                code: KeyCode::Char('g'),
                modifiers: KeyModifiers { shift: false, control: false, alt: false, other: false },
                kind: KeyEventKind::Press,
            },
            None,
        ) is None,
{
    lemma_keymap_wf(cfg, n);
    lemma_default_keys(mode);
    lemma_row_absent(rows_of(mode), 'g');
    if let Some(s) = slot_of(mode) {
        assert(bindings_wf(mode_at(s), keymap_of(cfg, n).tables[s]));
    }
}

/// A mode whose only binding is of two keys that no other command has by
/// default is bound without a warning. The first of the two keys gives nothing
/// by itself, and the second behind it gives the command.
pub proof fn law_two_keys_can_be_bound(
    mode: InputMode,
    command: Seq<char>,
    a: char,
    b: char,
    first: KeyEvent,
    second: KeyEvent,
)
    requires
        slot_of(mode) is Some,
        row_named(rows_of(mode), command) < rows_of(mode).len(),
        bindable(a),
        bindable(b),
        row_with_key(rows_of(mode), a) >= rows_of(mode).len(),
        first.code == KeyCode::Char(a),
        first.modifiers.none_held(),
        second.code == KeyCode::Char(b),
        second.modifiers.none_held(),
    ensures
        ({
            let cfg = seq![(name_of_mode(mode), seq![(command, seq![a, ' ', b])])];
            let k = keymap_of(cfg, 1);
            let begun = match overridden(k, mode, first, None) {
                Some(o) => o,
                None => (builtin(mode, first, false), first_after(mode, first, None)),
            };
            &&& k.warnings.len() == 0
            &&& begun == (Decoded::Nothing, Some(a))
            &&& overridden(k, mode, second, Some(a)) == Some(
                (
                    Decoded::Is(rows_of(mode)[row_named(rows_of(mode), command)].command),
                    None::<char>,
                ),
            )
        }),
{
    let rows = rows_of(mode);
    let s = slot_of(mode)->0;
    let spec = seq![a, ' ', b];
    let at = row_named(rows, command);
    lemma_row_named_bound(rows, command);
    let own = rows[at].key;
    let binds = seq![(command, spec)];
    let cfg: Seq<ModeBinds> = seq![(name_of_mode(mode), binds)];
    let k0 = default_keymap();
    let k = keymap_of(cfg, 1);
    reveal_strlit("none");
    lemma_mode_names(mode);
    assert(mode_at(s) == mode);
    assert(keymap_of(cfg, 0) == k0);
    let start = Bound { table: k0.tables[s], chords: k0.chords[s], warnings: k0.warnings };
    let done = bind(start, rows, name_of_mode(mode), command, spec);
    assert(bind_all(start, rows, name_of_mode(mode), binds, 0) == start);
    assert(bind_all(start, rows, name_of_mode(mode), binds, 1) == done);
    assert(k == with_mode(k0, cfg[0]));
    assert(done.chords =~= seq![Chord { first: a, second: b, own }]);
    assert(k.chords[s] == done.chords);
    assert(k.chords[s][0].first == a);
    assert(chord_at(k.chords[s], a, b) == 0);
    lemma_unique_keys(mode, at);
    assert(done.warnings =~= Seq::empty());
}

/// A mode is found by its name.
pub proof fn lemma_mode_names(mode: InputMode)
    requires
        slot_of(mode) is Some,
    ensures
        mode_named(name_of_mode(mode)) == Some(mode),
{
    reveal_strlit("normal");
    reveal_strlit("trajectory");
    reveal_strlit("visual");
    reveal_strlit("approval");
    reveal_strlit("approval_list");
    reveal_strlit("image_view");
    reveal_strlit("help");
    reveal_strlit("monitor");
    assert("normal"@.len() == 6 && "visual"@.len() == 6 && "normal"@[0] == 'n' && "visual"@[0]
        == 'v');
    assert("trajectory"@.len() == 10 && "image_view"@.len() == 10 && "trajectory"@[0] == 't'
        && "image_view"@[0] == 'i');
    assert("approval"@.len() == 8 && "approval_list"@.len() == 13 && "help"@.len() == 4
        && "monitor"@.len() == 7);
}

/// No two commands of a mode share a default key.
pub proof fn lemma_unique_keys(mode: InputMode, at: int)
    requires
        0 <= at < rows_of(mode).len(),
    ensures
        row_with_key(rows_of(mode), rows_of(mode)[at].key) == at,
{
    let rows = rows_of(mode);
    assert forall|j: int| 0 <= j < at implies (#[trigger] rows[j]).key != rows[at].key by {}
    lemma_row_with_key(rows, rows[at].key, at);
}

/// Pressing `g` twice goes to the top and leaves nothing pending, in every mode
/// that knows the prefix.
pub proof fn law_double_prefix_goes_to_top(mode: InputMode, key: KeyEvent)
    requires
        has_prefix_key(mode),
        key.code == KeyCode::Char('g'),
        !key.modifiers.control,
    ensures
        builtin(mode, key, false) == Decoded::Nothing,
        pending_after(mode, key, false),
        builtin(mode, key, true) == Decoded::Is(Command::GotoTop),
        !pending_after(mode, key, true),
{
}

/// Behind any other key the prefix is gone, outside the filter of the
/// trajectory.
pub proof fn law_other_keys_clear_prefix(mode: InputMode, key: KeyEvent, pending: bool)
    requires
        mode != InputMode::TrajectoryFilter,
        key.code != KeyCode::Char('g'),
    ensures
        !pending_after(mode, key, pending),
{
}

/// Keys of text input are never overridden: in a mode with an input line the
/// overrides say nothing of any key.
pub proof fn law_input_modes_are_not_overridden(
    k: KeymapView,
    mode: InputMode,
    key: KeyEvent,
    first: Option<char>,
)
    requires
        slot_of(mode) is None,
    ensures
        overridden(k, mode, key, first) is None,
{
}

} // verus!
