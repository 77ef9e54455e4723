//! What the projections of a session say.

use dshtui::json::{parse, Json};
use dshtui::model::goal::GoalPhase;
use dshtui::model::projections::{
    goal_phase, ContextPressure, ModelSelection, ProjectionSnapshot, SessionStats, TokenUsage,
};

fn json(text: &str) -> Json {
    parse(text).unwrap()
}

fn sample() -> ProjectionSnapshot {
    ProjectionSnapshot::new(json(r#"{"title": "部署排查","cwd": "/home/nd","running": true,"contextPressure": {"pressureTokens": 4000, "projectedTokens": 8000, "contextWindow": 128000},"tokenUsage": {"input": 100, "output": 250, "cacheRead": 30, "cacheWrite": 5},"sessionStats": {"turns": 27, "steps": 1144, "llmMs": 1000, "toolMs": 500,"ttftMs": 200, "ttftSteps": 1, "decodeMs": 800, "decodeTokens": 300},"modelSelection": {"lastUsed": "deepseek-chat", "next": "deepseek-chat"}}"#))
}

#[test]
fn reads_official_projection_values() {
    let p = sample();
    assert_eq!(p.title().as_deref(), Some("部署排查"));
    assert_eq!(p.cwd().as_deref(), Some("/home/nd"));
    assert_eq!(p.running(), Some(true));
    let ctx = p.context_pressure();
    assert_eq!(ctx.pressure_tokens, Some(4000));
    assert_eq!(ctx.percent(), Some(50));
    let tok = p.token_usage();
    assert_eq!(tok.output, Some(250));
    assert_eq!(tok.cache_read, Some(30));
    let stats = p.session_stats();
    assert_eq!(stats.turns, Some(27));
    assert_eq!(stats.steps, Some(1144));
    assert_eq!(
        p.model_selection().last_used.as_deref(),
        Some("deepseek-chat"),
    );
}

#[test]
fn missing_fields_tolerated() {
    let p = ProjectionSnapshot::new(json(r#"{}"#));
    assert_eq!(p.title(), None);
    assert_eq!(p.running(), None);
    assert_eq!(p.context_pressure().percent(), None);
    assert_eq!(p.token_usage(), TokenUsage::default());
    assert_eq!(p.session_stats(), SessionStats::default());
    assert_eq!(p.model_selection(), ModelSelection::default());
    assert!(!p.model_selection_changed());
}

#[test]
fn model_selection_tolerates_object_and_string_shapes_ac006_08() {
    let p = ProjectionSnapshot::new(json(r#"{"modelSelection": {"lastUsed": {"provider": "deepseek_official", "model": "deepseek-chat"},"next": {"provider": "deepseek_official", "model": "deepseek-reasoner", "reasoningEffort": "high"}}}"#));
    assert_eq!(
        p.model_selection().last_used.as_deref(),
        Some("deepseek_official/deepseek-chat"),
    );
    assert_eq!(
        p.model_selection().next.as_deref(),
        Some("deepseek_official/deepseek-reasoner"),
    );
    assert!(p.model_selection_changed());

    let p = ProjectionSnapshot::new(json(r#"{"modelSelection": {"lastUsed": "deepseek-chat", "next": "deepseek-chat"}}"#));
    assert_eq!(
        p.model_selection().last_used.as_deref(),
        Some("deepseek-chat"),
    );
    assert!(!p.model_selection_changed());
}

#[test]
fn context_percent_never_self_computed_elsewhere() {
    let p = ProjectionSnapshot::new(json(r#"{"contextPressure": {"pressureTokens": 10, "projectedTokens": 0}}"#));
    assert_eq!(p.context_pressure().percent(), None);
    let p = ProjectionSnapshot::new(json(r#"{"contextPressure": {"pressureTokens": 0, "projectedTokens": 100}}"#));
    assert_eq!(p.context_pressure().percent(), Some(0));
}

#[test]
fn wrong_shape_returns_none_not_panic() {
    let p = ProjectionSnapshot::new(json(r#"{"contextPressure": "not-an-object","tokenUsage": [1, 2]}"#));
    assert_eq!(p.context_pressure(), ContextPressure::default());
    assert_eq!(p.token_usage(), TokenUsage::default());
}


#[test]
fn goal_projection_reads_singleton_snapshot_ac007_11() {
    let p = ProjectionSnapshot::new(json(r#"{"goal": {"goal": {"id": "g1", "revision": 3, "objective": "交付","phase": "active", "maxGoalRounds": 5},"roundsStarted": 2, "createdAt": 100, "updatedAt": 200}}"#));
    let g = p.goal().unwrap();
    assert_eq!(g.id, "g1");
    assert_eq!(g.revision, 3);
    assert_eq!(g.objective, "交付");
    assert_eq!(g.max_goal_rounds, Some(5));
    assert_eq!(g.rounds_started, Some(2));
    assert!(ProjectionSnapshot::new(json(r#"{}"#))
        .goal()
        .is_none());
    assert!(ProjectionSnapshot::new(json(r#"{"goal": null}"#))
        .goal()
        .is_none());
}

#[test]
fn todos_projection_reads_content_and_status() {
    let p = ProjectionSnapshot::new(json(r#"{"todos": [{"content": "实现 api", "status": "done"},{"content": "写测试"}]}"#));
    let todos = p.todos();
    assert_eq!(todos.len(), 2);
    assert_eq!(todos[0], ("实现 api".into(), "done".into()));
    assert_eq!(todos[1].1, "");
    assert!(ProjectionSnapshot::new(json(r#"{}"#))
        .todos()
        .is_empty());
}

#[test]
fn plan_projection_is_active_pending_only_ac007_26() {
    let p = ProjectionSnapshot::new(
        json(r#"{"plan": {"active": true, "pending": false}}"#),
    );
    assert_eq!(p.plan(), Some((true, false)));
    let p = ProjectionSnapshot::new(json(r#"{"plan": null}"#));
    assert_eq!(p.plan(), None);
    let p = ProjectionSnapshot::new(json(r#"{}"#));
    assert_eq!(p.plan(), None);
}

#[test]
fn subagent_projection_tolerates_both_shapes() {
    let p = ProjectionSnapshot::new(json(r#"{"subagentTiming": [{"id": "c1"}, {"id": "c2"}]}"#));
    assert_eq!(p.subagent_running_children(), vec!["c1", "c2"]);
    let p = ProjectionSnapshot::new(json(r#"{"subagents": {"c3": {}}}"#));
    assert_eq!(p.subagent_running_children(), vec!["c3"]);
    assert!(ProjectionSnapshot::new(json(r#"{}"#))
        .subagent_running_children()
        .is_empty());
}

#[test]
fn phases_are_read_from_words() {
    assert_eq!(goal_phase(&Some(json(r#""active""#))), Some(GoalPhase::Active));
    assert_eq!(goal_phase(&Some(json(r#""paused""#))), Some(GoalPhase::Paused));
    assert_eq!(goal_phase(&None), None);
}

#[test]
fn limits_and_breakdowns_are_read() {
    let p = ProjectionSnapshot::new(json(
        r#"{"imageLimits": {"maxImageBytes": 5, "maxImagesPerMessage": 2, "mediaTypes": ["image/png"]}}"#,
    ));
    let limits = p.image_limits();
    assert_eq!(limits.max_image_bytes, Some(5));
    assert_eq!(limits.max_images_per_message, Some(2));
    assert_eq!(limits.media_types, vec!["image/png"]);
    assert!(p.context_breakdown().is_empty());
}

#[test]
fn the_context_can_be_over_full() {
    let full = ContextPressure {
        pressure_tokens: Some(300),
        projected_tokens: Some(100),
        context_window: None,
    };
    assert_eq!(full.percent(), Some(300));
}

#[test]
fn a_goal_that_is_no_object_is_none() {
    for raw in [
        r#"{"goal": "ship it"}"#,
        r#"{"goal": 7}"#,
        r#"{"goal": []}"#,
        r#"{"goal": {"goal": null, "roundsStarted": 2}}"#,
        r#"{"goal": {"goal": "ship it"}}"#,
    ] {
        assert!(ProjectionSnapshot::new(json(raw)).goal().is_none(), "{raw}");
    }
    let flat = ProjectionSnapshot::new(json(r#"{"goal": {"id": "g2", "revision": 1}}"#));
    assert_eq!(flat.goal().unwrap().id, "g2");
}
