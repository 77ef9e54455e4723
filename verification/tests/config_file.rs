//! The configuration file and the document format that it is written in.

use dshtui::config::ConfigError;
use dshtui::config_file::{
    default_config_path, default_state_path, save_keymap_config, save_theme_config,
};
use dshtui::toml_doc::{parse, print, Toml};

fn pairs(list: &[(&str, &str)]) -> Vec<(String, String)> {
    list.iter().map(|(k, v)| (k.to_string(), v.to_string())).collect()
}

fn at<'a>(t: &'a Toml, path: &[&str]) -> Option<&'a Toml> {
    let mut cur = t;
    for key in path {
        match cur {
            Toml::Table(es) => {
                cur = &es.iter().find(|(k, _)| k == key)?.1;
            }
            _ => return None,
        }
    }
    Some(cur)
}

fn text_at<'a>(t: &'a Toml, path: &[&str]) -> Option<&'a str> {
    match at(t, path) {
        Some(Toml::Text(s)) => Some(s),
        _ => None,
    }
}

#[test]
fn save_theme_config_preserves_other_sections() {
    let raw = r##"
[server]
url = "http://127.0.0.1:3081"

[ui]
theme = "dark"
sidebar_width_cells = 24
"##;
    let saved =
        save_theme_config("/c.toml", Some(raw), "light", &pairs(&[("accent", "#123456")]))
            .unwrap()
            .unwrap();
    let doc = parse(&saved).unwrap();
    assert_eq!(text_at(&doc, &["server", "url"]), Some("http://127.0.0.1:3081"));
    assert_eq!(at(&doc, &["ui", "sidebar_width_cells"]), Some(&Toml::Integer(24)));
    assert_eq!(text_at(&doc, &["ui", "theme"]), Some("light"));
    assert_eq!(text_at(&doc, &["ui", "palette", "accent"]), Some("#123456"));
}

#[test]
fn save_keymap_config_writes_modes_and_keeps_rest() {
    let raw = "[server]\nurl = \"http://127.0.0.1:3082\"\n";
    let modes = vec![("normal".to_string(), pairs(&[("move_down", "k")]))];
    let saved = save_keymap_config("/c.toml", Some(raw), &modes).unwrap().unwrap();
    let doc = parse(&saved).unwrap();
    assert_eq!(text_at(&doc, &["server", "url"]), Some("http://127.0.0.1:3082"));
    assert_eq!(text_at(&doc, &["keymap", "modes", "normal", "move_down"]), Some("k"));
}

#[test]
fn save_theme_to_missing_file_creates_it() {
    let saved = save_theme_config("/c.toml", None, "dark", &Vec::new()).unwrap().unwrap();
    let doc = parse(&saved).unwrap();
    assert_eq!(text_at(&doc, &["ui", "theme"]), Some("dark"));
}

#[test]
fn broken_files_are_not_overwritten() {
    let broken = "not [ valid toml";
    assert!(matches!(
        save_theme_config("/c.toml", Some(broken), "dark", &Vec::new()),
        Err(ConfigError::Toml { ref path, .. }) if path == "/c.toml"
    ));
    assert!(matches!(
        save_keymap_config("/c.toml", Some(broken), &Vec::new()),
        Err(ConfigError::Toml { .. })
    ));
}

#[test]
fn a_second_save_replaces_the_first() {
    let one = save_theme_config("/c", None, "dark", &pairs(&[("a", "red")])).unwrap().unwrap();
    let two =
        save_theme_config("/c", Some(&one), "light", &pairs(&[("b", "blue")])).unwrap().unwrap();
    let doc = parse(&two).unwrap();
    assert_eq!(text_at(&doc, &["ui", "theme"]), Some("light"));
    assert_eq!(text_at(&doc, &["ui", "palette", "b"]), Some("blue"));
    assert_eq!(text_at(&doc, &["ui", "palette", "a"]), None);
}

#[test]
fn files_stand_below_the_directory_that_is_set() {
    assert_eq!(
        default_config_path(Some("/x"), Some("/h")),
        "/x/dshtui/config.toml"
    );
    assert_eq!(default_config_path(None, Some("/h")), "/h/.config/dshtui/config.toml");
    assert_eq!(default_config_path(Some(""), Some("/h")), "/h/.config/dshtui/config.toml");
    assert!(default_state_path(Some("/s"), None).starts_with("/s/dshtui/"));
    assert!(default_state_path(None, Some("/h")).starts_with("/h/.local/state/dshtui/"));
}

#[test]
fn documents_are_read_into_their_values() {
    let doc = parse("a = 1\nb = true\nc = [\"x\", 2.5]\nd = 2020-01-02\n[t]\nk = \"v\"\n").unwrap();
    assert_eq!(at(&doc, &["a"]), Some(&Toml::Integer(1)));
    assert_eq!(at(&doc, &["b"]), Some(&Toml::Bool(true)));
    assert_eq!(
        at(&doc, &["c"]),
        Some(&Toml::Array(vec![Toml::Text("x".into()), Toml::Real("2.5".into())]))
    );
    assert_eq!(at(&doc, &["d"]), Some(&Toml::Date("2020-01-02".into())));
    assert_eq!(text_at(&doc, &["t", "k"]), Some("v"));
    assert!(parse("= 1").is_err());
}

#[test]
fn printed_documents_are_read_back() {
    let doc = Toml::Table(vec![
        ("n".into(), Toml::Integer(-3)),
        ("r".into(), Toml::Real("0.5".into())),
        ("s".into(), Toml::Text("line one\n\"quoted\" \\ 你好".into())),
        ("t".into(), Toml::Table(vec![("k".into(), Toml::Bool(false))])),
    ]);
    assert!(doc.is_printable());
    let text = print(&doc).unwrap();
    assert_eq!(parse(&text).unwrap(), doc);
    assert!(!Toml::Text("\"".repeat(256)).is_printable());
}
