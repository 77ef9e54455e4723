//! The panel of settings.

use dshtui::json::{parse, Json};
use dshtui::model::settings::{flatten_namespace_rows, SettingsPanelState};

fn json(text: &str) -> Json {
    parse(text).unwrap()
}

#[test]
fn flatten_selects_whitelisted_scalars_and_marks_secrets() {
    let value = json(r#"{"preference": "dark","fontSize": 14,"secretToken": "never","nested": {"x": 1}}"#);
    let rows = flatten_namespace_rows(
        "ui-theme",
        &value,
        Some(&json(r#"{"preference": "dark"}"#)),
        &["secretToken".into()],
        4,
        &["ui-theme.preference", "ui-theme.fontSize"],
    );
    assert_eq!(rows.len(), 2);
    assert_eq!(rows[0].key, "ui-theme.fontSize");
    assert_eq!(rows[0].value_display, "14");
    assert_eq!(rows[1].key, "ui-theme.preference");
    assert!(rows[1].user_set);
    assert!(!rows[1].secret);
    let rows = flatten_namespace_rows(
        "credentials",
        &json(r#"{"token": "abc"}"#),
        None,
        &["token".into()],
        1,
        &["credentials.token"],
    );
    assert_eq!(rows[0].value_display, "••• (set)");
    assert!(rows[0].secret);
}

#[test]
fn empty_and_non_object_value_yield_no_rows() {
    assert!(flatten_namespace_rows("ui-theme", &json(r#"{}"#), None, &[], 0, &[]).is_empty());
    assert!(flatten_namespace_rows("ui-theme", &json(r#""nope""#), None, &[], 0, &[]).is_empty());
}

#[test]
fn selection_clamped() {
    let mut s = SettingsPanelState::default();
    s.open();
    s.set_rows(
        flatten_namespace_rows("a", &json(r#"{"x": 1}"#), None, &[], 1, &["a.x"]),
        true,
    );
    assert_eq!(s.rows.len(), 1);
    assert!(!s.loading);
    s.move_selection(9);
    assert_eq!(s.selected, 0);
}

#[test]
fn secrets_that_are_not_set_show_so() {
    let rows = flatten_namespace_rows(
        "credentials",
        &json(r#"{"token": "", "other": true, "none": null}"#),
        None,
        &["token".into()],
        1,
        &["credentials.token", "credentials.other", "credentials.none"],
    );
    let token = rows.iter().find(|r| r.key == "credentials.token").unwrap();
    assert!(!token.value_display.is_empty());
    assert!(token.secret);
    let other = rows.iter().find(|r| r.key == "credentials.other").unwrap();
    assert_eq!(other.value_display, "true");
    assert_eq!(other.namespace, "credentials");
}
