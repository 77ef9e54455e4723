//! Laws of the keys.

use vstd::prelude::*;

use crate::config::ModeBinds;
use crate::input::keymap::{
    bind, bind_all, builtin, default_bindings, default_keymap, gives, keymap_of,
    lemma_mode_names, lemma_row_named, lemma_row_with_key_bound, lemma_unique_keys, mode_at,
    name_of_mode, overridden, pending_after, rows_of, slot_of, with_mode, Bound, Chord,
    Command, Decoded, InputMode, KeyCode, KeyDecoder, KeyEvent,
};
use crate::text::whitespace;

verus! {

/// Whether no key is held down together with a key.
pub open spec fn bare(key: KeyEvent) -> bool {
    !key.modifiers.shift && !key.modifiers.control && !key.modifiers.alt && !key.modifiers.other
}

/// What is decoded is what is handed on: a command as it is, text as the input
/// of exactly that text, and nothing for nothing.
pub proof fn law_outcomes_are_what_they_say(r: Option<Command>, c: Command, t: Seq<char>)
    ensures
        gives(r, Decoded::Nothing) <==> r is None,
        gives(r, Decoded::Is(c)) <==> r == Some(c),
        gives(r, Decoded::Input(t)) <==> (r is Some && r->0 is PickerInput && r->0->PickerInput_0@
            == t),
{
}

/// In insert mode every character is typed: without a key held down it is the
/// input of exactly that character.
pub proof fn law_insert_mode_types_every_character(key: KeyEvent, c: char, pending: bool)
    requires
        key.code == KeyCode::Char(c),
        bare(key),
    ensures
        builtin(InputMode::Insert, key, pending) is Input,
        builtin(InputMode::Insert, key, pending)->Input_0.len() == 1,
        builtin(InputMode::Insert, key, pending)->Input_0[0] == c,
{
}

/// In every other mode with an input line a character is typed too, but for
/// the few letters that move in the list beside it or close it.
pub proof fn law_input_lines_take_characters(
    mode: InputMode,
    key: KeyEvent,
    c: char,
    pending: bool,
)
    requires
        key.code == KeyCode::Char(c),
        bare(key),
        mode == InputMode::Picker || mode == InputMode::Search || mode
            == InputMode::TrajectoryFilter || mode == InputMode::ModelCatalog || mode
            == InputMode::CommandPalette || mode == InputMode::Mention,
        c != 'j',
        c != 'k',
        mode == InputMode::Search ==> c != 'n' && c != 'N' && c != 'y',
        mode != InputMode::Picker && mode != InputMode::Search ==> c != 'q',
    ensures
        builtin(mode, key, pending) is Input,
        builtin(mode, key, pending)->Input_0.len() == 1,
        builtin(mode, key, pending)->Input_0[0] == c,
{
}

/// Text comes from input lines alone: in no other mode does a key type, and
/// what a key types is the character on it, or the line break of a held Enter
/// in insert mode.
pub proof fn law_only_input_lines_type(mode: InputMode, key: KeyEvent, pending: bool)
    requires
        builtin(mode, key, pending) is Input,
    ensures
        mode == InputMode::Insert || mode == InputMode::Picker || mode == InputMode::Search
            || mode == InputMode::TrajectoryFilter || mode == InputMode::ModelCatalog || mode
            == InputMode::CommandPalette || mode == InputMode::Mention,
        !key.modifiers.control || key.code == KeyCode::Enter,
        builtin(mode, key, pending)->Input_0.len() == 1,
        key.code == KeyCode::Char(builtin(mode, key, pending)->Input_0[0]) || (mode
            == InputMode::Insert && key.code == KeyCode::Enter && !bare(key) && builtin(
            mode,
            key,
            pending,
        )->Input_0[0] == '\n'),
{
}

/// In every mode with an input line Backspace takes a character back, Escape
/// leaves, and Enter by itself ends the input: it submits what was written in
/// insert mode and confirms elsewhere.
pub proof fn law_input_lines_are_edited(mode: InputMode, key: KeyEvent, pending: bool)
    requires
        mode == InputMode::Insert || mode == InputMode::Picker || mode == InputMode::Search
            || mode == InputMode::TrajectoryFilter || mode == InputMode::ModelCatalog || mode
            == InputMode::CommandPalette || mode == InputMode::Mention,
    ensures
        key.code == KeyCode::Backspace ==> builtin(mode, key, pending) == Decoded::Is(
            Command::PickerBackspace,
        ),
        key.code == KeyCode::Esc ==> builtin(mode, key, pending) == Decoded::Is(
            Command::ClosePicker,
        ),
        key.code == KeyCode::Enter && bare(key) && mode == InputMode::Insert ==> builtin(
            mode,
            key,
            pending,
        ) == Decoded::Is(Command::SubmitInput),
        key.code == KeyCode::Enter && bare(key) && mode != InputMode::Insert ==> builtin(
            mode,
            key,
            pending,
        ) == Decoded::Is(Command::PickerConfirm),
{
}

/// In insert mode Enter with control or alt breaks the line instead of
/// submitting it, the arrows walk through the history, Tab completes, and
/// control-c quits.
pub proof fn law_insert_mode_has_its_keys(key: KeyEvent, pending: bool)
    ensures
        key.code == KeyCode::Enter && (key.modifiers.control || key.modifiers.alt) ==> builtin(
            InputMode::Insert,
            key,
            pending,
        ) == Decoded::Input(seq!['\n']),
        key.code == KeyCode::Up ==> builtin(InputMode::Insert, key, pending) == Decoded::Is(
            Command::HistoryPrev,
        ),
        key.code == KeyCode::Down ==> builtin(InputMode::Insert, key, pending) == Decoded::Is(
            Command::HistoryNext,
        ),
        key.code == KeyCode::Tab ==> builtin(InputMode::Insert, key, pending) == Decoded::Is(
            Command::ComposerTabComplete,
        ),
        key.code == KeyCode::Char('c') && key.modifiers.control ==> builtin(
            InputMode::Insert,
            key,
            pending,
        ) == Decoded::Is(Command::Quit),
        builtin(InputMode::Insert, key, pending) == Decoded::Is(Command::SubmitInput) <==> key.code
            == KeyCode::Enter && bare(key),
{
}

/// Escape leaves: a mode that lies over another is closed by it.
pub proof fn law_escape_leaves(mode: InputMode, key: KeyEvent, pending: bool)
    requires
        key.code == KeyCode::Esc,
    ensures
        mode == InputMode::Help ==> builtin(mode, key, pending) == Decoded::Is(Command::CloseHelp),
        mode == InputMode::Approval ==> builtin(mode, key, pending) == Decoded::Is(
            Command::ApprovalCancel,
        ),
        mode == InputMode::ApprovalList ==> builtin(mode, key, pending) == Decoded::Is(
            Command::CloseApprovalList,
        ),
        mode == InputMode::Visual || mode == InputMode::Trajectory || mode
            == InputMode::TrajectoryFilter || mode == InputMode::Subagent || mode
            == InputMode::Monitor ==> builtin(mode, key, pending) == Decoded::Is(
            Command::ClosePicker,
        ),
{
}

/// The letters `j` and `k` move down and up wherever there is something to move
/// in, and so do the arrows in the lists that know them.
pub proof fn law_down_and_up_move(mode: InputMode, key: KeyEvent)
    requires
        bare(key),
    ensures
        mode == InputMode::Normal || mode == InputMode::Trajectory || mode
            == InputMode::TrajectoryFilter || mode == InputMode::Visual || mode
            == InputMode::Monitor ==> {
            &&& key.code == KeyCode::Char('j') ==> builtin(mode, key, false) == Decoded::Is(
                Command::MoveDown,
            )
            &&& key.code == KeyCode::Char('k') ==> builtin(mode, key, false) == Decoded::Is(
                Command::MoveUp,
            )
        },
        mode == InputMode::Picker || mode == InputMode::Search || mode == InputMode::ApprovalList
            || mode == InputMode::ModelCatalog || mode == InputMode::CommandPalette || mode
            == InputMode::Mention || mode == InputMode::Subagent ==> {
            &&& key.code == KeyCode::Char('j') ==> builtin(mode, key, false) == Decoded::Is(
                Command::PickerDown,
            )
            &&& key.code == KeyCode::Char('k') ==> builtin(mode, key, false) == Decoded::Is(
                Command::PickerUp,
            )
        },
        mode == InputMode::Picker || mode == InputMode::Search || mode == InputMode::Mention ==> {
            &&& key.code == KeyCode::Down ==> builtin(mode, key, false) == Decoded::Is(
                Command::PickerDown,
            )
            &&& key.code == KeyCode::Up ==> builtin(mode, key, false) == Decoded::Is(
                Command::PickerUp,
            )
        },
{
}

/// Only a key that was meant for it decides an approval: allowing takes `y`,
/// allowing always `a`, allowing all `A`, rejecting `n`, each by itself and on
/// an approval or in their list, and every such key decides.
pub proof fn law_approvals_take_their_keys(mode: InputMode, key: KeyEvent, pending: bool)
    ensures
        builtin(mode, key, pending) == Decoded::Is(Command::ApprovalAllow) <==> (mode
            == InputMode::Approval || mode == InputMode::ApprovalList) && bare(key) && key.code
            == KeyCode::Char('y'),
        builtin(mode, key, pending) == Decoded::Is(Command::ApprovalAlways) <==> (mode
            == InputMode::Approval || mode == InputMode::ApprovalList) && bare(key) && key.code
            == KeyCode::Char('a'),
        builtin(mode, key, pending) == Decoded::Is(Command::ApprovalReject) <==> (mode
            == InputMode::Approval || mode == InputMode::ApprovalList) && bare(key) && key.code
            == KeyCode::Char('n'),
        builtin(mode, key, pending) == Decoded::Is(Command::ApprovalBatchAllow) <==> mode
            == InputMode::ApprovalList && bare(key) && key.code == KeyCode::Char('A'),
        builtin(mode, key, pending) == Decoded::Is(Command::ApprovalRetry) <==> mode
            == InputMode::ApprovalList && bare(key) && key.code == KeyCode::Char('r'),
        builtin(mode, key, pending) == Decoded::Is(Command::ApprovalCancel) <==> mode
            == InputMode::Approval && (key.code == KeyCode::Esc || (bare(key) && key.code
            == KeyCode::Char('q'))),
        builtin(mode, key, pending) == Decoded::Is(Command::OpenApprovalList) <==> mode
            == InputMode::Approval && bare(key) && key.code == KeyCode::Char('L'),
        builtin(mode, key, pending) == Decoded::Is(Command::CloseApprovalList) <==> mode
            == InputMode::ApprovalList && (key.code == KeyCode::Esc || (bare(key) && (key.code
            == KeyCode::Char('q') || key.code == KeyCode::Char('L')))),
{
}

/// Quitting takes `q` in a mode without an input line that is no overlay, or
/// control-c; no other key quits.
pub proof fn law_quitting_takes_its_keys(mode: InputMode, key: KeyEvent, pending: bool)
    ensures
        builtin(mode, key, pending) == Decoded::Is(Command::Quit) <==> {
            ||| key.code == KeyCode::Char('c') && key.modifiers.control && (mode
                == InputMode::Normal || mode == InputMode::Trajectory || mode
                == InputMode::TrajectoryFilter || mode == InputMode::Insert || mode
                == InputMode::Monitor)
            ||| key.code == KeyCode::Char('q') && !key.modifiers.control && (mode
                == InputMode::Normal || mode == InputMode::Trajectory || mode
                == InputMode::Monitor)
            ||| key.code == KeyCode::Char('q') && mode == InputMode::Help
        },
{
}

/// The keys of normal mode that open something, with nothing pending.
pub proof fn law_normal_mode_opens(key: KeyEvent)
    requires
        !key.modifiers.control,
    ensures
        builtin(InputMode::Normal, key, false) == Decoded::Is(Command::OpenPicker) <==> key.code
            == KeyCode::Char('f'),
        builtin(InputMode::Normal, key, false) == Decoded::Is(Command::InsertMode) <==> key.code
            == KeyCode::Char('i'),
        builtin(InputMode::Normal, key, false) == Decoded::Is(Command::OpenHelp) <==> key.code
            == KeyCode::Char('?'),
        builtin(InputMode::Normal, key, false) == Decoded::Is(Command::StartSearch) <==> key.code
            == KeyCode::Char('/'),
        builtin(InputMode::Normal, key, false) == Decoded::Is(Command::OpenSelected) <==> key.code
            == KeyCode::Char('o'),
        builtin(InputMode::Normal, key, false) == Decoded::Is(Command::OpenOutline) <==> key.code
            == KeyCode::Char('O'),
        builtin(InputMode::Normal, key, false) == Decoded::Is(Command::OpenModelCatalog)
            <==> key.code == KeyCode::Char('M'),
        builtin(InputMode::Normal, key, false) == Decoded::Is(Command::OpenCommandPalette)
            <==> key.code == KeyCode::Char(':'),
        builtin(InputMode::Normal, key, false) == Decoded::Is(Command::OpenFocused) <==> key.code
            == KeyCode::Enter,
        builtin(InputMode::Normal, key, false) == Decoded::Is(Command::ToggleTrajectory)
            <==> key.code == KeyCode::Char('2'),
        builtin(InputMode::Normal, key, false) == Decoded::Is(Command::GotoChat) <==> key.code
            == KeyCode::Char('1'),
        builtin(InputMode::Normal, key, false) == Decoded::Is(
            Command::VisualStart { line: false },
        ) <==> key.code == KeyCode::Char('v'),
        builtin(InputMode::Normal, key, false) == Decoded::Is(
            Command::VisualStart { line: true },
        ) <==> key.code == KeyCode::Char('V'),
{
}

/// The keys of normal mode that act on what is shown, with nothing pending.
pub proof fn law_normal_mode_acts(key: KeyEvent)
    requires
        !key.modifiers.control,
    ensures
        builtin(InputMode::Normal, key, false) == Decoded::Is(Command::StopRunning) <==> key.code
            == KeyCode::Char('s'),
        builtin(InputMode::Normal, key, false) == Decoded::Is(Command::RetryProbe) <==> key.code
            == KeyCode::Char('r'),
        builtin(InputMode::Normal, key, false) == Decoded::Is(Command::YankContext) <==> key.code
            == KeyCode::Char('y'),
        builtin(InputMode::Normal, key, false) == Decoded::Is(Command::CollapseProject)
            <==> key.code == KeyCode::Char('h'),
        builtin(InputMode::Normal, key, false) == Decoded::Is(Command::ExpandProject)
            <==> key.code == KeyCode::Char('l'),
        builtin(InputMode::Normal, key, false) == Decoded::Is(Command::NextTurn) <==> key.code
            == KeyCode::Char(']'),
        builtin(InputMode::Normal, key, false) == Decoded::Is(Command::PrevTurn) <==> key.code
            == KeyCode::Char('['),
        builtin(InputMode::Normal, key, false) == Decoded::Is(Command::GotoBottom) <==> key.code
            == KeyCode::Char('G'),
{
}

/// With control, normal mode scrolls by half a page and changes the focus;
/// control with any other letter but `c` does nothing.
pub proof fn law_control_scrolls(key: KeyEvent, pending: bool)
    requires
        key.modifiers.control,
    ensures
        builtin(InputMode::Normal, key, pending) == Decoded::Is(Command::HalfPageDown)
            <==> key.code == KeyCode::Char('d'),
        builtin(InputMode::Normal, key, pending) == Decoded::Is(Command::HalfPageUp) <==> key.code
            == KeyCode::Char('u'),
        builtin(InputMode::Normal, key, pending) == Decoded::Is(Command::CycleFocus) <==> key.code
            == KeyCode::Char('w'),
        builtin(InputMode::Normal, key, pending) is Is ==> key.code == KeyCode::Char('d')
            || key.code == KeyCode::Char('u') || key.code == KeyCode::Char('w') || key.code
            == KeyCode::Char('c'),
{
}

/// The trajectory folds with `z`, shows a detail with `d` and Enter, and has
/// the keys to search, copy and go back.
pub proof fn law_trajectory_has_its_keys(key: KeyEvent)
    requires
        !key.modifiers.control,
    ensures
        builtin(InputMode::Trajectory, key, false) == Decoded::Is(Command::ToggleFold)
            <==> key.code == KeyCode::Char('z'),
        builtin(InputMode::Trajectory, key, false) == Decoded::Is(Command::OpenDetail)
            <==> key.code == KeyCode::Char('d') || key.code == KeyCode::Enter,
        builtin(InputMode::Trajectory, key, false) == Decoded::Is(Command::StartSearch)
            <==> key.code == KeyCode::Char('/'),
        builtin(InputMode::Trajectory, key, false) == Decoded::Is(Command::YankContext)
            <==> key.code == KeyCode::Char('y'),
        builtin(InputMode::Trajectory, key, false) == Decoded::Is(Command::GotoChat)
            <==> key.code == KeyCode::Char('1'),
        builtin(InputMode::Trajectory, key, false) == Decoded::Is(Command::ToggleTrajectory)
            <==> key.code == KeyCode::Char('2'),
        builtin(InputMode::Trajectory, key, false) == Decoded::Is(Command::GotoBottom)
            <==> key.code == KeyCode::Char('G'),
{
}

/// The viewer of an image copies, opens and closes with its letters alone; the
/// panel of subagents interrupts with `x` alone; the monitor has its own.
pub proof fn law_panels_have_their_keys(key: KeyEvent, pending: bool)
    ensures
        builtin(InputMode::ImageView, key, pending) == Decoded::Is(Command::ImageViewCopy)
            <==> bare(key) && key.code == KeyCode::Char('y'),
        builtin(InputMode::ImageView, key, pending) == Decoded::Is(
            Command::ImageViewOpenExternal,
        ) <==> bare(key) && key.code == KeyCode::Char('o'),
        builtin(InputMode::ImageView, key, pending) == Decoded::Is(Command::ImageViewClose)
            <==> bare(key) && key.code == KeyCode::Char('q'),
        builtin(InputMode::Subagent, key, pending) == Decoded::Is(Command::SubagentInterrupt)
            <==> bare(key) && key.code == KeyCode::Char('x'),
        builtin(InputMode::Subagent, key, pending) == Decoded::Is(Command::PickerConfirm)
            <==> bare(key) && key.code == KeyCode::Enter,
        !key.modifiers.control ==> {
            &&& builtin(InputMode::Monitor, key, pending) == Decoded::Is(Command::MonitorOpenChat)
                <==> key.code == KeyCode::Char('c')
            &&& builtin(InputMode::Monitor, key, pending) == Decoded::Is(Command::MonitorCheer)
                <==> key.code == KeyCode::Char('f')
            &&& builtin(InputMode::Monitor, key, pending) == Decoded::Is(Command::MonitorLocate)
                <==> key.code == KeyCode::Char('l')
            &&& builtin(InputMode::Monitor, key, pending) == Decoded::Is(Command::MonitorStats)
                <==> key.code == KeyCode::Char('s')
            &&& builtin(InputMode::Monitor, key, pending) == Decoded::Is(Command::OpenFocused)
                <==> key.code == KeyCode::Enter
            &&& builtin(InputMode::Monitor, key, pending) == Decoded::Is(Command::OpenHelp)
                <==> key.code == KeyCode::Char('?')
        },
        builtin(InputMode::Help, key, pending) == Decoded::Is(Command::CloseHelp) <==> key.code
            == KeyCode::Esc || key.code == KeyCode::Char('?'),
        builtin(InputMode::Search, key, pending) == Decoded::Is(Command::SearchNext) <==> bare(
            key,
        ) && key.code == KeyCode::Char('n'),
        builtin(InputMode::Search, key, pending) == Decoded::Is(Command::SearchPrev) <==> bare(
            key,
        ) && key.code == KeyCode::Char('N'),
        builtin(InputMode::Visual, key, pending) == Decoded::Is(Command::YankContext) <==> bare(
            key,
        ) && key.code == KeyCode::Char('y'),
{
}

/// Behind the prefix `g` the letters `t`, `T` and `v` change what is shown in
/// the modes with a transcript; every other key but a second `g` means what it
/// means without the prefix.
pub proof fn law_prefix_changes_the_view(mode: InputMode, key: KeyEvent)
    requires
        mode == InputMode::Normal || mode == InputMode::Trajectory,
        !key.modifiers.control,
    ensures
        key.code == KeyCode::Char('t') ==> builtin(mode, key, true) == Decoded::Is(
            Command::ToggleTrajectory,
        ),
        key.code == KeyCode::Char('T') ==> builtin(mode, key, true) == Decoded::Is(
            Command::GotoChat,
        ),
        key.code == KeyCode::Char('v') ==> builtin(mode, key, true) == Decoded::Is(
            Command::CycleSidebarView,
        ),
        key.code != KeyCode::Char('t') && key.code != KeyCode::Char('T') && key.code
            != KeyCode::Char('v') && key.code != KeyCode::Char('g') ==> builtin(mode, key, true)
            == builtin(mode, key, false),
{
}

/// The prefix matters only where it is known: in every other mode a key means
/// the same with it and without it, and none becomes pending but in the filter
/// of the trajectory, which leaves it as it is.
pub proof fn law_prefix_is_known_in_three_modes(mode: InputMode, key: KeyEvent, pending: bool)
    ensures
        mode != InputMode::Normal && mode != InputMode::Trajectory && mode != InputMode::Monitor
            ==> builtin(mode, key, pending) == builtin(mode, key, false),
        mode == InputMode::TrajectoryFilter ==> pending_after(mode, key, pending) == pending,
        mode != InputMode::TrajectoryFilter && pending_after(mode, key, pending) ==> !pending
            && key.code == KeyCode::Char('g') && !key.modifiers.control && (mode
            == InputMode::Normal || mode == InputMode::Trajectory || mode == InputMode::Monitor),
{
}

/// A command that can be bound is the one that its default key gives: the list
/// of such commands and the keys themselves say the same.
pub proof fn law_listed_keys_give_their_commands(mode: InputMode, i: int, key: KeyEvent)
    requires
        0 <= i < rows_of(mode).len(),
        key.code == KeyCode::Char(rows_of(mode)[i].key),
        bare(key),
    ensures
        builtin(mode, key, false) == Decoded::Is(rows_of(mode)[i].command),
{
}

/// What a decoder with overrides makes of a key is what its overrides make of
/// it, behind the first key that is pending; without overrides it leaves every
/// key to the mode.
pub proof fn law_overrides_go_first(d: KeyDecoder, mode: InputMode, key: KeyEvent)
    ensures
        d.overrides() is Some ==> d.outcome(mode, key) == overridden(
            d.overrides()->0,
            mode,
            key,
            d.pending(),
        ),
        d.overrides() is None ==> d.outcome(mode, key) is None,
{
}

/// What one binding of a mode makes of the default keymap, as long as it binds
/// no two keys.
proof fn lemma_one_binding(
    mode: InputMode,
    command: Seq<char>,
    keyspec: Seq<char>,
    other: InputMode,
    key: KeyEvent,
    first: Option<char>,
)
    requires
        slot_of(mode) is Some,
        bind(
            Bound {
                table: default_bindings(mode),
                chords: Seq::empty(),
                warnings: Seq::empty(),
            },
            rows_of(mode),
            name_of_mode(mode),
            command,
            keyspec,
        ).chords.len() == 0,
    ensures
        ({
            let cfg: Seq<ModeBinds> = seq![(name_of_mode(mode), seq![(command, keyspec)])];
            let k = keymap_of(cfg, 1);
            let done = bind(
                Bound {
                    table: default_bindings(mode),
                    chords: Seq::empty(),
                    warnings: Seq::empty(),
                },
                rows_of(mode),
                name_of_mode(mode),
                command,
                keyspec,
            );
            let s = slot_of(mode)->0;
            &&& k.tables[s] == done.table
            &&& k.chords[s] == done.chords
            &&& k.warnings == done.warnings
            &&& other != mode ==> overridden(k, other, key, first) is None
        }),
{
    let rows = rows_of(mode);
    let s = slot_of(mode)->0;
    let binds = seq![(command, keyspec)];
    let cfg: Seq<ModeBinds> = seq![(name_of_mode(mode), binds)];
    let k0 = default_keymap();
    let k = keymap_of(cfg, 1);
    lemma_mode_names(mode);
    assert(mode_at(s) == mode);
    assert(keymap_of(cfg, 0) == k0);
    let start = Bound { table: k0.tables[s], chords: k0.chords[s], warnings: k0.warnings };
    assert(start.table == default_bindings(mode));
    assert(start.chords == Seq::<Chord>::empty());
    let done = bind(start, rows, name_of_mode(mode), command, keyspec);
    assert(bind_all(start, rows, name_of_mode(mode), binds, 0) == start);
    assert(bind_all(start, rows, name_of_mode(mode), binds, 1) == done);
    assert(k == with_mode(k0, cfg[0]));
    if other != mode {
        match (key.code, slot_of(other)) {
            (KeyCode::Char(c), Some(t)) => {
                assert(mode_at(t) == other);
                assert(t != s);
                assert(k.tables[t] == default_bindings(other));
                assert(k.chords[t] == Seq::<Chord>::empty());
                lemma_row_with_key_bound(rows_of(other), c);
                if (c as int) < 128 {
                    assert((c as int) as char == c);
                }
            },
            _ => {},
        }
    }
}

/// A command can be given another key: the key then gives the command, the key
/// that it had gives nothing any more, and every other key of every mode means
/// what it meant.
pub proof fn law_one_key_can_be_bound(
    mode: InputMode,
    i: int,
    c: char,
    other: InputMode,
    key: KeyEvent,
    x: char,
)
    requires
        slot_of(mode) is Some,
        0 <= i < rows_of(mode).len(),
        forall|j: int| 0 <= j < i ==> (#[trigger] rows_of(mode)[j]).name != rows_of(mode)[i].name,
        32 < c as int && (c as int) < 127,
        !whitespace(c),
        c != 'g',
        c != rows_of(mode)[i].key,
        key.code == KeyCode::Char(x),
    ensures
        ({
            let cfg: Seq<ModeBinds> = seq![
                (name_of_mode(mode), seq![(rows_of(mode)[i].name, seq![c])]),
            ];
            let k = keymap_of(cfg, 1);
            &&& bare(key) && x == c ==> overridden(k, mode, key, None) == Some(
                (Decoded::Is(rows_of(mode)[i].command), None::<char>),
            )
            &&& bare(key) && x == rows_of(mode)[i].key ==> overridden(k, mode, key, None) == Some(
                (Decoded::Nothing, None::<char>),
            )
            &&& !bare(key) || (x != c && x != rows_of(mode)[i].key) || other != mode
                ==> overridden(k, other, key, None) is None
        }),
{
    let rows = rows_of(mode);
    let s = slot_of(mode)->0;
    let command = rows[i].name;
    let spec = seq![c];
    reveal_strlit("none");
    lemma_row_named(rows, command, i);
    lemma_unique_keys(mode, i);
    lemma_one_binding(mode, command, spec, other, key, None);
    lemma_row_with_key_bound(rows, x);
    if (x as int) < 128 {
        assert((x as int) as char == x);
    }
}

/// A command can be left without a key: the key that it had gives nothing, and
/// every other key of every mode means what it meant.
pub proof fn law_a_key_can_be_freed(
    mode: InputMode,
    i: int,
    other: InputMode,
    key: KeyEvent,
    x: char,
)
    requires
        slot_of(mode) is Some,
        0 <= i < rows_of(mode).len(),
        forall|j: int| 0 <= j < i ==> (#[trigger] rows_of(mode)[j]).name != rows_of(mode)[i].name,
        key.code == KeyCode::Char(x),
    ensures
        ({
            let cfg: Seq<ModeBinds> = seq![
                (name_of_mode(mode), seq![(rows_of(mode)[i].name, "none"@)]),
            ];
            let k = keymap_of(cfg, 1);
            &&& k.warnings.len() == 0
            &&& bare(key) && x == rows_of(mode)[i].key ==> overridden(k, mode, key, None) == Some(
                (Decoded::Nothing, None::<char>),
            )
            &&& !bare(key) || x != rows_of(mode)[i].key || other != mode ==> overridden(
                k,
                other,
                key,
                None,
            ) is None
        }),
{
    let rows = rows_of(mode);
    lemma_row_named(rows, rows[i].name, i);
    lemma_unique_keys(mode, i);
    lemma_one_binding(mode, rows[i].name, "none"@, other, key, None);
    lemma_row_with_key_bound(rows, x);
    if (x as int) < 128 {
        assert((x as int) as char == x);
    }
}

/// A binding that cannot be made is warned of and changes no key: one of a
/// command that the mode does not have, of the prefix `g`, or of a text that
/// names no key.
pub proof fn law_bad_bindings_change_nothing(
    mode: InputMode,
    command: Seq<char>,
    keyspec: Seq<char>,
    other: InputMode,
    key: KeyEvent,
    first: Option<char>,
)
    requires
        slot_of(mode) is Some,
        (forall|j: int| 0 <= j < rows_of(mode).len() ==> (#[trigger] rows_of(mode)[j]).name
            != command) || keyspec == seq!['g'] || (keyspec != "none"@ && keyspec.len() != 1
            && keyspec.len() != 3) || (keyspec.len() == 1 && keyspec[0] as int >= 127),
    ensures
        ({
            let cfg: Seq<ModeBinds> = seq![(name_of_mode(mode), seq![(command, keyspec)])];
            let k = keymap_of(cfg, 1);
            &&& k.warnings.len() == 1
            &&& overridden(k, other, key, first) is None
        }),
{
    let rows = rows_of(mode);
    reveal_strlit("none");
    if forall|j: int| 0 <= j < rows.len() ==> (#[trigger] rows[j]).name != command {
        lemma_row_named(rows, command, rows.len() as int);
    }
    lemma_one_binding(mode, command, keyspec, other, key, first);
    let s = slot_of(mode)->0;
    let cfg: Seq<ModeBinds> = seq![(name_of_mode(mode), seq![(command, keyspec)])];
    let k = keymap_of(cfg, 1);
    assert(k.tables[s] == default_bindings(mode));
    assert(k.chords[s].len() == 0);
    if let KeyCode::Char(c) = key.code {
        lemma_row_with_key_bound(rows, c);
        if (c as int) < 128 {
            assert((c as int) as char == c);
        }
    }
}

/// A command can be given two keys: the first gives nothing by itself, the
/// second behind it gives the command, and the key that the command had gives
/// nothing any more.
pub proof fn law_two_keys_can_be_bound(mode: InputMode, i: int, a: char, b: char, key: KeyEvent)
    requires
        slot_of(mode) is Some,
        0 <= i < rows_of(mode).len(),
        forall|j: int| 0 <= j < i ==> (#[trigger] rows_of(mode)[j]).name != rows_of(mode)[i].name,
        32 < a as int && (a as int) < 127,
        32 < b as int && (b as int) < 127,
        !whitespace(a),
        !whitespace(b),
        a != 'g',
        a != rows_of(mode)[i].key,
        bare(key),
    ensures
        ({
            let cfg: Seq<ModeBinds> = seq![
                (name_of_mode(mode), seq![(rows_of(mode)[i].name, seq![a, ' ', b])]),
            ];
            let k = keymap_of(cfg, 1);
            &&& key.code == KeyCode::Char(a) ==> overridden(k, mode, key, None) == Some(
                (Decoded::Nothing, Some(a)),
            )
            &&& key.code == KeyCode::Char(b) ==> overridden(k, mode, key, Some(a)) == Some(
                (Decoded::Is(rows_of(mode)[i].command), None::<char>),
            )
            &&& key.code == KeyCode::Char(rows_of(mode)[i].key) ==> overridden(k, mode, key, None)
                == Some((Decoded::Nothing, None::<char>))
        }),
{
    let rows = rows_of(mode);
    let s = slot_of(mode)->0;
    let command = rows[i].name;
    let spec = seq![a, ' ', b];
    reveal_strlit("none");
    assert("none"@.len() == 4);
    lemma_row_named(rows, command, i);
    lemma_unique_keys(mode, i);
    lemma_mode_names(mode);
    let binds = seq![(command, spec)];
    let cfg: Seq<ModeBinds> = seq![(name_of_mode(mode), binds)];
    let k0 = default_keymap();
    let k = keymap_of(cfg, 1);
    assert(mode_at(s) == mode);
    assert(keymap_of(cfg, 0) == k0);
    let start = Bound { table: k0.tables[s], chords: k0.chords[s], warnings: k0.warnings };
    assert(start.table == default_bindings(mode));
    assert(start.chords == Seq::<Chord>::empty());
    let done = bind(start, rows, name_of_mode(mode), command, spec);
    assert(bind_all(start, rows, name_of_mode(mode), binds, 0) == start);
    assert(bind_all(start, rows, name_of_mode(mode), binds, 1) == done);
    assert(k == with_mode(k0, cfg[0]));
    let chord = Chord { first: a, second: b, own: rows[i].key };
    assert(spec.last() == b);
    assert(done.chords =~= seq![chord]);
    assert(k.chords[s] == seq![chord]);
    assert(k.chords[s][0].first == a);
    if let KeyCode::Char(x) = key.code {
        lemma_row_with_key_bound(rows, x);
        if (x as int) < 128 {
            assert((x as int) as char == x);
        }
    }
}

} // verus!
