//! Colours by their role.

use dshtui::model::theme::{find_named, ThemeKeymapConfig};

fn builtin() -> Vec<(String, String)> {
    let mut m = Vec::new();
    m.push(("normal".into(), "#888888".into()));
    m
}

#[test]
fn override_wins_over_builtin() {
    let mut cfg = ThemeKeymapConfig {
        theme: "dark".into(),
        ..Default::default()
    };
    cfg.palette.push(("normal".into(), "#ffffff".into()));
    assert_eq!(
        cfg.color_for("normal", &builtin()).map(String::as_str),
        Some("#ffffff"),
    );
}

#[test]
fn missing_role_falls_back_to_builtin_or_none() {
    let cfg = ThemeKeymapConfig::default();
    assert_eq!(
        cfg.color_for("normal", &builtin()).map(String::as_str),
        Some("#888888"),
    );
    assert_eq!(cfg.color_for("unknown", &builtin()), None);
}

#[test]
fn defaults_no_clear_empty_maps() {
    let cfg = ThemeKeymapConfig::default();
    assert!(!cfg.drafts_clear);
    assert!(cfg.palette.is_empty());
    assert!(cfg.keymap.is_empty());
}

#[test]
fn names_are_looked_up() {
    assert_eq!(find_named(&builtin(), "normal").map(String::as_str), Some("#888888"));
    assert_eq!(find_named(&builtin(), "other"), None);
}
