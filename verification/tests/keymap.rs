//! Keys and what they mean in each mode.

use dshtui::config::{Cli, Config, KeymapConfig};
use dshtui::input::keymap::{
    default_key_tables, map_key, Command, Event, InputMode, KeyCode, KeyDecoder, KeyEvent,
    KeyEventKind, KeyModifiers, Keymap,
};

fn key(code: KeyCode) -> Event {
    Event::Key(KeyEvent::new(code, KeyModifiers::none()))
}

fn ctrl(c: char) -> Event {
    Event::Key(KeyEvent::new(KeyCode::Char(c), KeyModifiers::control()))
}

#[test]
fn normal_vim_navigation_and_global_keys() {
    let mut d = KeyDecoder::new();
    assert_eq!(
        d.decode(InputMode::Normal, key(KeyCode::Char('j'))),
        Some(Command::MoveDown)
    );
    assert_eq!(
        d.decode(InputMode::Normal, key(KeyCode::Char('k'))),
        Some(Command::MoveUp)
    );
    assert_eq!(
        d.decode(InputMode::Normal, ctrl('d')),
        Some(Command::HalfPageDown)
    );
    assert_eq!(
        d.decode(InputMode::Normal, ctrl('u')),
        Some(Command::HalfPageUp)
    );
    assert_eq!(
        d.decode(InputMode::Normal, key(KeyCode::Char('G'))),
        Some(Command::GotoBottom)
    );
    assert_eq!(
        d.decode(InputMode::Normal, key(KeyCode::Char('f'))),
        Some(Command::OpenPicker)
    );
    assert_eq!(
        d.decode(InputMode::Normal, key(KeyCode::Char('?'))),
        Some(Command::OpenHelp)
    );
    assert_eq!(
        d.decode(InputMode::Normal, key(KeyCode::Char('q'))),
        Some(Command::Quit)
    );
    assert_eq!(d.decode(InputMode::Normal, ctrl('c')), Some(Command::Quit));
    assert_eq!(
        d.decode(InputMode::Normal, ctrl('w')),
        Some(Command::CycleFocus)
    );
    assert_eq!(
        d.decode(InputMode::Normal, key(KeyCode::Char('s'))),
        Some(Command::StopRunning)
    );
    assert_eq!(
        d.decode(InputMode::Normal, key(KeyCode::Char('h'))),
        Some(Command::CollapseProject)
    );
    assert_eq!(
        d.decode(InputMode::Normal, key(KeyCode::Char('l'))),
        Some(Command::ExpandProject)
    );
    assert_eq!(
        d.decode(InputMode::Normal, key(KeyCode::Char('o'))),
        Some(Command::OpenSelected)
    );
    assert_eq!(
        d.decode(InputMode::Normal, key(KeyCode::Char('M'))),
        Some(Command::OpenModelCatalog)
    );
}

#[test]
fn model_catalog_mode_keys_filter_navigate_and_close_ac006() {
    let mut d = KeyDecoder::new();
    assert_eq!(
        d.decode(InputMode::ModelCatalog, key(KeyCode::Char('v'))),
        Some(Command::PickerInput("v".into()))
    );
    assert_eq!(
        d.decode(InputMode::ModelCatalog, key(KeyCode::Char('4'))),
        Some(Command::PickerInput("4".into()))
    );
    assert_eq!(
        d.decode(InputMode::ModelCatalog, key(KeyCode::Char('j'))),
        Some(Command::PickerDown)
    );
    assert_eq!(
        d.decode(InputMode::ModelCatalog, key(KeyCode::Char('k'))),
        Some(Command::PickerUp)
    );
    assert_eq!(
        d.decode(InputMode::ModelCatalog, key(KeyCode::Enter)),
        Some(Command::PickerConfirm)
    );
    assert_eq!(
        d.decode(InputMode::ModelCatalog, key(KeyCode::Backspace)),
        Some(Command::PickerBackspace)
    );
    assert_eq!(
        d.decode(InputMode::ModelCatalog, key(KeyCode::Esc)),
        Some(Command::ClosePicker)
    );
    assert_eq!(
        d.decode(InputMode::ModelCatalog, key(KeyCode::Char('q'))),
        Some(Command::ClosePicker),
    );
}

#[test]
fn gg_is_a_two_key_goto_top_command() {
    let mut d = KeyDecoder::new();
    assert_eq!(d.decode(InputMode::Normal, key(KeyCode::Char('g'))), None);
    assert_eq!(
        d.decode(InputMode::Normal, key(KeyCode::Char('g'))),
        Some(Command::GotoTop)
    );
    assert_eq!(d.decode(InputMode::Normal, key(KeyCode::Char('g'))), None);
    assert_eq!(
        d.decode(InputMode::Normal, key(KeyCode::Char('j'))),
        Some(Command::MoveDown)
    );
}

#[test]
fn picker_accepts_text_and_navigation() {
    let mut d = KeyDecoder::new();
    assert_eq!(
        d.decode(InputMode::Picker, key(KeyCode::Char('a'))),
        Some(Command::PickerInput("a".into()))
    );
    assert_eq!(
        d.decode(InputMode::Picker, key(KeyCode::Down)),
        Some(Command::PickerDown)
    );
    assert_eq!(
        d.decode(InputMode::Picker, key(KeyCode::Up)),
        Some(Command::PickerUp)
    );
    assert_eq!(
        d.decode(InputMode::Picker, key(KeyCode::Backspace)),
        Some(Command::PickerBackspace)
    );
    assert_eq!(
        d.decode(InputMode::Picker, key(KeyCode::Enter)),
        Some(Command::PickerConfirm)
    );
    assert_eq!(
        d.decode(InputMode::Picker, key(KeyCode::Esc)),
        Some(Command::ClosePicker)
    );
    assert_eq!(
        d.decode(InputMode::Insert, key(KeyCode::Enter)),
        Some(Command::SubmitInput)
    );
    assert_eq!(
        d.decode(InputMode::Insert, key(KeyCode::Esc)),
        Some(Command::ClosePicker)
    );
}

#[test]
fn approval_list_keys_navigate_retry_batch_and_close_ac006() {
    let mut d = KeyDecoder::new();
    assert_eq!(
        d.decode(InputMode::Approval, key(KeyCode::Char('L'))),
        Some(Command::OpenApprovalList)
    );
    assert_eq!(
        d.decode(InputMode::ApprovalList, key(KeyCode::Char('j'))),
        Some(Command::PickerDown)
    );
    assert_eq!(
        d.decode(InputMode::ApprovalList, key(KeyCode::Char('k'))),
        Some(Command::PickerUp)
    );
    assert_eq!(
        d.decode(InputMode::ApprovalList, key(KeyCode::Char('r'))),
        Some(Command::ApprovalRetry)
    );
    assert_eq!(
        d.decode(InputMode::ApprovalList, key(KeyCode::Char('A'))),
        Some(Command::ApprovalBatchAllow)
    );
    assert_eq!(
        d.decode(InputMode::ApprovalList, key(KeyCode::Char('q'))),
        Some(Command::CloseApprovalList)
    );
    assert_eq!(
        d.decode(InputMode::ApprovalList, key(KeyCode::Esc)),
        Some(Command::CloseApprovalList)
    );
    assert_eq!(
        d.decode(InputMode::ApprovalList, key(KeyCode::Char('y'))),
        Some(Command::ApprovalAllow)
    );
    assert_eq!(
        d.decode(InputMode::ApprovalList, key(KeyCode::Char('n'))),
        Some(Command::ApprovalReject)
    );
    assert_ne!(
        d.decode(InputMode::ApprovalList, key(KeyCode::Char('q'))),
        Some(Command::Quit)
    );
}

#[test]
fn approval_single_slot_still_decides_with_y_n_q_a_ac003() {
    let mut d = KeyDecoder::new();
    assert_eq!(
        d.decode(InputMode::Approval, key(KeyCode::Char('y'))),
        Some(Command::ApprovalAllow)
    );
    assert_eq!(
        d.decode(InputMode::Approval, key(KeyCode::Char('n'))),
        Some(Command::ApprovalReject)
    );
    assert_eq!(
        d.decode(InputMode::Approval, key(KeyCode::Char('q'))),
        Some(Command::ApprovalCancel)
    );
    assert_eq!(
        d.decode(InputMode::Approval, key(KeyCode::Esc)),
        Some(Command::ApprovalCancel)
    );
    assert_eq!(
        d.decode(InputMode::Approval, key(KeyCode::Char('a'))),
        Some(Command::ApprovalAlways)
    );
}

#[test]
fn resize_and_key_release_are_handled() {
    let mut d = KeyDecoder::new();
    assert_eq!(
        d.decode(InputMode::Normal, Event::Resize(120, 40)),
        Some(Command::Resize {
            width: 120,
            height: 40
        })
    );
    let release = Event::Key(KeyEvent::new_with_kind(
        KeyCode::Char('j'),
        KeyModifiers::none(),
        KeyEventKind::Release,
    ));
    assert_eq!(d.decode(InputMode::Normal, release), None);
}

#[test]
fn insert_enter_ctrl_or_alt_is_newline_plain_is_submit() {
    let mut d = KeyDecoder::new();
    let ctrl_enter = Event::Key(KeyEvent::new(KeyCode::Enter, KeyModifiers::control()));
    assert_eq!(
        d.decode(InputMode::Insert, ctrl_enter),
        Some(Command::PickerInput("\n".into()))
    );
    let alt_enter = Event::Key(KeyEvent::new(KeyCode::Enter, KeyModifiers::alt()));
    assert_eq!(
        d.decode(InputMode::Insert, alt_enter),
        Some(Command::PickerInput("\n".into()))
    );
    let plain_enter = Event::Key(KeyEvent::new(KeyCode::Enter, KeyModifiers::none()));
    assert_eq!(
        d.decode(InputMode::Insert, plain_enter),
        Some(Command::SubmitInput)
    );
    let shift_enter = Event::Key(KeyEvent::new(KeyCode::Enter, KeyModifiers::shift()));
    assert_ne!(
        d.decode(InputMode::Insert, shift_enter),
        Some(Command::SubmitInput)
    );
    let ctrl_c = Event::Key(KeyEvent::new(KeyCode::Char('c'), KeyModifiers::control()));
    assert_eq!(
        d.decode(InputMode::Insert, ctrl_c),
        Some(Command::Quit),
    );
}

#[test]
fn image_view_keys_map_to_viewer_copy_close() {
    let mut d = KeyDecoder::new();
    assert_eq!(
        d.decode(InputMode::ImageView, key(KeyCode::Char('o'))),
        Some(Command::ImageViewOpenExternal)
    );
    assert_eq!(
        d.decode(InputMode::ImageView, key(KeyCode::Char('y'))),
        Some(Command::ImageViewCopy)
    );
    assert_eq!(
        d.decode(InputMode::ImageView, key(KeyCode::Char('q'))),
        Some(Command::ImageViewClose)
    );
    assert_eq!(
        d.decode(InputMode::ImageView, key(KeyCode::Char('j'))),
        None
    );
    assert_eq!(d.decode(InputMode::ImageView, key(KeyCode::Enter)), None);
}

#[test]
fn normal_enter_emits_open_focused() {
    let mut d = KeyDecoder::new();
    assert_eq!(
        d.decode(InputMode::Normal, key(KeyCode::Enter)),
        Some(Command::OpenFocused)
    );
    assert_eq!(
        d.decode(InputMode::Normal, key(KeyCode::Char('o'))),
        Some(Command::OpenSelected)
    );
}

fn config(mode: &str, rows: &[(&str, &str)]) -> KeymapConfig {
    KeymapConfig {
        modes: vec![(
            mode.to_string(),
            rows.iter().map(|(k, v)| (k.to_string(), v.to_string())).collect(),
        )],
    }
}

#[test]
fn keys_can_be_moved_and_taken_away() {
    let keymap = Keymap::build(&config("normal", &[("move_down", "x"), ("quit", "none")]));
    assert!(keymap.warnings.is_empty(), "{:?}", keymap.warnings);
    let mut d = KeyDecoder::with_keymap(keymap);
    assert_eq!(
        d.decode(InputMode::Normal, key(KeyCode::Char('x'))),
        Some(Command::MoveDown)
    );
    assert_eq!(d.decode(InputMode::Normal, key(KeyCode::Char('j'))), None);
    assert_eq!(d.decode(InputMode::Normal, key(KeyCode::Char('q'))), None);
    assert_eq!(
        d.decode(InputMode::Normal, key(KeyCode::Char('k'))),
        Some(Command::MoveUp)
    );
}

#[test]
fn unknown_names_are_warned_of() {
    let mode = Keymap::build(&config("nowhere", &[("move_down", "x")]));
    assert_eq!(mode.warnings.len(), 1);
    let action = Keymap::build(&config("normal", &[("fly", "x")]));
    assert_eq!(action.warnings.len(), 1);
    let text = Keymap::build(&config("normal", &[("move_down", "xy")]));
    assert_eq!(text.warnings.len(), 1);
}

#[test]
fn a_keymap_without_entries_changes_nothing() {
    let mut plain = KeyDecoder::new();
    let eff = Config::default().resolve(&Cli::default(), None, None).unwrap();
    let mut mapped = KeyDecoder::from_effective(&eff);
    for c in ['j', 'k', 'q', 'G', 'f', '?', 'z', 'g', 'g'] {
        assert_eq!(
            plain.decode(InputMode::Normal, key(KeyCode::Char(c))),
            mapped.decode(InputMode::Normal, key(KeyCode::Char(c)))
        );
    }
}

#[test]
fn overridden_keys_are_listed_by_mode() {
    let keymap = Keymap::build(&config("normal", &[("move_down", "x")]));
    let lines = keymap.override_lines();
    assert_eq!(
        lines,
        vec!["[normal] x → MoveDown（默认 无）", "[normal] j unbind（MoveDown）"]
    );
}

#[test]
fn other_keys_clear_the_prefix() {
    let mut d = KeyDecoder::new();
    assert_eq!(d.decode(InputMode::Normal, key(KeyCode::Char('g'))), None);
    d.reset();
    assert_eq!(d.decode(InputMode::Normal, key(KeyCode::Char('g'))), None);
    assert_eq!(map_key(InputMode::Normal, key(KeyCode::Char('j'))), Some(Command::MoveDown));
}

#[test]
fn default_tables_agree_with_the_decoder() {
    for mode in [InputMode::Normal, InputMode::Monitor, InputMode::ImageView] {
        for row in default_key_tables(mode) {
            assert_eq!(
                map_key(mode, key(KeyCode::Char(row.key))),
                Some(row.command.clone()),
                "{} in {mode:?}",
                row.name
            );
        }
    }
}

fn plain(c: char) -> Event {
    key(KeyCode::Char(c))
}

#[test]
fn two_keys_can_be_bound() {
    let keymap = Keymap::build(&config("normal", &[("goto_bottom", "z z")]));
    assert!(keymap.warnings.is_empty(), "{:?}", keymap.warnings);
    assert_eq!(
        keymap.override_lines(),
        vec!["[normal] z z → GotoBottom", "[normal] G unbind（GotoBottom）"]
    );
    let mut d = KeyDecoder::with_keymap(keymap);
    assert_eq!(d.decode(InputMode::Normal, plain('z')), None);
    assert_eq!(d.decode(InputMode::Normal, plain('z')), Some(Command::GotoBottom));
    assert_eq!(d.decode(InputMode::Normal, plain('z')), None);
    assert_eq!(d.decode(InputMode::Normal, plain('j')), Some(Command::MoveDown));
    assert_eq!(d.decode(InputMode::Normal, plain('G')), None);
    assert_eq!(d.decode(InputMode::Normal, plain('z')), None);
    d.reset();
    assert_eq!(d.decode(InputMode::Normal, plain('z')), None);
    assert_eq!(d.decode(InputMode::Normal, plain('z')), Some(Command::GotoBottom));
}

#[test]
fn two_keys_may_begin_with_the_prefix() {
    let keymap = Keymap::build(&config("normal", &[("goto_bottom", "g g"), ("quit", "g x")]));
    assert!(keymap.warnings.is_empty(), "{:?}", keymap.warnings);
    let mut d = KeyDecoder::with_keymap(keymap);
    assert_eq!(d.decode(InputMode::Normal, plain('g')), None);
    assert_eq!(d.decode(InputMode::Normal, plain('g')), Some(Command::GotoBottom));
    assert_eq!(d.decode(InputMode::Normal, plain('g')), None);
    assert_eq!(d.decode(InputMode::Normal, plain('x')), Some(Command::Quit));
    let visual = Keymap::build(&config("visual", &[("move_down", "g j")]));
    assert!(visual.warnings.is_empty(), "{:?}", visual.warnings);
    let mut d = KeyDecoder::with_keymap(visual);
    assert_eq!(d.decode(InputMode::Visual, plain('g')), None);
    assert_eq!(d.decode(InputMode::Visual, plain('j')), Some(Command::MoveDown));
}

#[test]
fn two_keys_are_warned_of_like_one() {
    let taken = Keymap::build(&config("normal", &[("goto_bottom", "j j")]));
    assert_eq!(taken.warnings, vec!["normal.goto_bottom=j j 位移默认绑定 MoveDown（j）"]);
    let wide = Keymap::build(&config("normal", &[("goto_bottom", "é z")]));
    assert_eq!(wide.warnings.len(), 1);
    let three = Keymap::build(&config("normal", &[("goto_bottom", "z z z")]));
    assert_eq!(three.warnings.len(), 1);
    let prefix = Keymap::build(&config("normal", &[("goto_bottom", "g")]));
    assert_eq!(prefix.warnings, vec!["normal.goto_bottom: g 为前缀键不可重绑（保留默认）"]);
    let again = Keymap::build(&config("normal", &[("goto_bottom", "z z"), ("quit", "z z")]));
    let mut d = KeyDecoder::with_keymap(again);
    assert_eq!(d.decode(InputMode::Normal, plain('z')), None);
    assert_eq!(d.decode(InputMode::Normal, plain('z')), Some(Command::Quit));
}

#[test]
fn the_panels_of_goals_and_jobs_have_no_keys_yet() {
    for mode in [InputMode::Goal, InputMode::Jobs] {
        assert_eq!(map_key(mode, plain('j')), None);
        assert!(default_key_tables(mode).is_empty());
    }
}
