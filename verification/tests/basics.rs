//! Values, texts, orders and sets.

use dshtui::fuzzy::{better_of, can_search_all, rank_matches, scores};
use dshtui::json::{dup_opt, parse, Json, Num};
use dshtui::order::{rank, rank_texts};
use dshtui::sets::{SeqSet, TextSet};
use dshtui::text::{
    after_last, ascii_lower, before, cat, cat3, chars_of, contains, dec, find, holds_whitespace,
    is_before, is_blank, is_whitespace, join, lines, signed_dec, starts_with, text_of, trim, trim_end,
};
use dshtui::wire::{
    SessionLogOffset, SessionRequestId, SessionSeq, SessionWireEvent, WorkspaceId,
};

fn owned(list: &[&str]) -> Vec<String> {
    list.iter().map(|s| s.to_string()).collect()
}

#[test]
fn json_is_read_into_values() {
    let v = parse(r#"{"b": [1, -2, 0.5, true, null], "a": "x"}"#).unwrap();
    assert_eq!(v.str_at("a"), Some("x"));
    assert_eq!(
        v.get("b"),
        Some(&Json::Array(vec![
            Json::Number(Num::Unsigned(1)),
            Json::Number(Num::Negative(-2)),
            Json::Number(Num::Decimal("0.5".into())),
            Json::Bool(true),
            Json::Null,
        ]))
    );
    assert!(parse("{").is_none());
    assert_eq!(v.dup(), v);
    assert_eq!(dup_opt(&None), None);
}

#[test]
fn members_are_read_by_their_type() {
    let v = parse(r#"{"n": 7, "m": -7, "t": true, "e": "", "s": "x"}"#).unwrap();
    assert_eq!(v.u64_at("n"), Some(7));
    assert_eq!(v.u64_at("m"), None);
    assert_eq!(v.i64_at("m"), Some(-7));
    assert_eq!(v.bool_at("t"), Some(true));
    assert_eq!(v.text_at("e"), None);
    assert_eq!(v.text_at("s").as_deref(), Some("x"));
    assert_eq!(v.string_at("e").as_deref(), Some(""));
    assert_eq!(Json::Null.get("n"), None);
    assert_eq!(v.get("n").unwrap().as_i64(), Some(7));
    assert_eq!(v.get("n").unwrap().as_u64(), Some(7));
    assert_eq!(v.get("t").unwrap().as_bool(), Some(true));
}

#[test]
fn the_first_of_two_members_counts() {
    let v = Json::Object(vec![
        ("k".into(), Json::Bool(true)),
        ("k".into(), Json::Bool(false)),
    ]);
    assert_eq!(v.bool_at("k"), Some(true));
}

#[test]
fn texts_are_cut_and_joined() {
    let cs = chars_of("a.b.c");
    assert_eq!(text_of(&before(&cs, '.'), 0, 1), "a");
    assert_eq!(after_last(&cs, '.'), vec!['c']);
    assert_eq!(find(&cs, &chars_of("b."), 0), Some(2));
    assert_eq!(find(&cs, &chars_of("z"), 0), None);
    assert_eq!(cat("a", "b"), "ab");
    assert_eq!(cat3("a", "b", "c"), "abc");
    assert_eq!(join(&owned(&["x", "y"]), ", "), "x, y");
    assert!(starts_with("abc", "ab") && !starts_with("abc", "b"));
    assert!(contains("abc", "bc") && !contains("abc", "ca"));
    assert_eq!(ascii_lower(&chars_of("AbÉ")), "abÉ");
}

#[test]
fn whitespace_is_that_of_unicode() {
    assert_eq!(trim("\u{3000} x\t"), "x");
    assert_eq!(trim_end(" x \n"), " x");
    assert!(is_blank("\u{a0}\n") && !is_blank("x"));
    assert!(holds_whitespace("a b") && !holds_whitespace("ab"));
}

#[test]
fn lines_end_at_line_feeds() {
    assert_eq!(lines("a\r\nb\n\nc"), owned(&["a", "b", "", "c"]));
    assert_eq!(lines("a\n"), owned(&["a"]));
    assert!(lines("").is_empty());
}

#[test]
fn numbers_are_written_in_digits() {
    assert_eq!(dec(0), "0");
    assert_eq!(dec(u64::MAX), "18446744073709551615");
    assert_eq!(signed_dec(-12), "-12");
    assert_eq!(signed_dec(i64::MIN), "-9223372036854775808");
}

#[test]
fn ranking_is_stable() {
    assert_eq!(rank(&vec![Some(1), None, Some(3), Some(1)]), vec![2, 0, 3]);
    assert_eq!(rank_texts(&owned(&["b", "a", "ab", "a"])), vec![1, 3, 2, 0]);
    assert!(is_before("a", "ab") && is_before("Z", "a") && !is_before("a", "a"));
}

#[test]
fn fuzzy_scores_find_what_is_scattered() {
    let fields = vec![owned(&["deploy-target"]), owned(&["other"]), owned(&["x", "Deploy"])];
    let found = scores("dply", &fields);
    assert!(found[0].is_some());
    assert!(found[1].is_none());
    assert!(found[2].is_some());
    assert_eq!(rank_matches(&vec![None, Some(2), Some(7)]), vec![2, 1]);
    assert_eq!(better_of(Some(1), Some(4)), Some(4));
    assert_eq!(better_of(None, Some(4)), Some(4));
    assert_eq!(better_of(None, None), None);
}

#[test]
fn sets_hold_what_was_put_in() {
    let mut t = TextSet::new();
    t.insert("a".into());
    t.insert("a".into());
    assert!(t.contains("a"));
    t.remove("a");
    assert!(!t.contains("a"));
    t.insert("b".into());
    t.clear();
    assert!(!t.contains("b"));
    let mut s = SeqSet::new();
    s.insert(4);
    assert!(s.contains(4) && !s.contains(5));
}

#[test]
fn events_name_the_request_they_settle() {
    let mut e = SessionWireEvent {
        event_type: "user/message".into(),
        seq: Some(SessionSeq::new(1)),
        time: None,
        request_id: Some("outer".into()),
        ignorable: None,
        source_event_seqs: None,
        surface_op: None,
        data: Some(parse(r#"{"source": {"user-rpc": {"rpcId": "inner"}}}"#).unwrap()),
    };
    assert!(e.reconcile_id().is_some());
    e.request_id = None;
    assert_eq!(e.reconcile_id(), Some("inner"));
    e.data = None;
    assert_eq!(e.reconcile_id(), None);
    assert_eq!(SessionLogOffset::new(-1).get(), -1);
    assert_eq!(SessionRequestId::new("r".into()).get(), "r");
    assert_eq!(WorkspaceId::new("w".into()).get(), "w");
}

#[test]
fn every_character_is_whitespace_as_std_has_it() {
    for c in '\0'..=char::MAX {
        assert_eq!(is_whitespace(c), c.is_whitespace(), "{:?}", c);
    }
    assert!(is_blank("\u{3000}\t\n"));
    assert_eq!(trim("\u{a0} x\u{200b}"), "x\u{200b}");
}

#[test]
fn unevenly_folded_letters_are_not_searched_where_accents_count() {
    let greek = vec![owned(&["ςσxä"])];
    assert!(!can_search_all("σä", &greek));
    assert!(can_search_all("σ", &greek));
    assert!(can_search_all("x", &greek));
    assert_eq!(scores("σx", &greek).len(), 1);
    let latin = vec![owned(&["ÄPFEL", "straße"])];
    assert!(can_search_all("äpfel", &latin));
    assert!(scores("äpfel", &latin)[0].is_some());
    assert!(scores("部署", &vec![owned(&["ς 部署 ſ"])])[0].is_some());
}

#[test]
fn long_queries_are_not_searched() {
    let fields = vec![owned(&["x"])];
    assert!(can_search_all(&"a".repeat(2500), &fields));
    assert!(!can_search_all(&"a".repeat(2501), &fields));
    assert!(can_search_all(&"\\".repeat(1250), &fields));
    assert!(!can_search_all(&"\\".repeat(1251), &fields));
    let long = vec![owned(&[&"a".repeat(3000)])];
    assert!(scores(&"a".repeat(2500), &long)[0].is_some());
    let slashes = vec![owned(&[&format!("é{}", "\\".repeat(3000))])];
    assert!(scores(&format!("é{}", "\\".repeat(1249)), &slashes)[0].is_some());
}
