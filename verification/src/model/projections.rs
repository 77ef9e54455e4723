//! What the server reports of a session, read for the status bar. Every number
//! is the server's; a field that is missing, or not as expected, reads as none.

use vstd::prelude::*;

use crate::json::{json_parsed, opt_json, opt_json_ref, parse, Json, JsonView};
use crate::model::goal::{GoalPhase, GoalView};
use crate::text::{cat3, opt_text, same, same_opt, texts};

verus! {

/// The report of a session.
#[derive(Debug)]
pub struct ProjectionSnapshot {
    pub raw: Json,
}

impl Clone for ProjectionSnapshot {
    fn clone(&self) -> (r: Self)
        ensures
            r.raw@ == self.raw@,
    {
        ProjectionSnapshot { raw: self.raw.dup() }
    }
}

impl Default for ProjectionSnapshot {
    fn default() -> (r: Self)
        ensures
            r.raw@ == JsonView::Null,
    {
        ProjectionSnapshot { raw: Json::Null }
    }
}

/// A part of a report; null where it is missing.
pub open spec fn part(v: JsonView, key: Seq<char>) -> JsonView {
    match v.get(key) {
        Some(x) => x,
        None => JsonView::Null,
    }
}

/// How full the context is.
#[derive(Debug, Clone, Copy, PartialEq, Eq, Structural)]
pub struct ContextPressure {
    pub pressure_tokens: Option<u64>,
    pub projected_tokens: Option<u64>,
    pub context_window: Option<u64>,
}

impl Default for ContextPressure {
    fn default() -> (r: Self)
        ensures
            r == (ContextPressure {
                pressure_tokens: None,
                projected_tokens: None,
                context_window: None,
            }),
    {
        ContextPressure {
            pressure_tokens: None,
            projected_tokens: None,
            context_window: None,
        }
    }
}

/// Tokens that were used.
#[derive(Debug, Clone, Copy, PartialEq, Eq, Structural)]
pub struct TokenUsage {
    pub input: Option<u64>,
    pub output: Option<u64>,
    pub cache_read: Option<u64>,
    pub cache_write: Option<u64>,
}

impl Default for TokenUsage {
    fn default() -> (r: Self)
        ensures
            r == (TokenUsage {
                input: None,
                output: None,
                cache_read: None,
                cache_write: None,
            }),
    {
        TokenUsage {
            input: None,
            output: None,
            cache_read: None,
            cache_write: None,
        }
    }
}

/// What a session took.
#[derive(Debug, Clone, Copy, PartialEq, Eq, Structural)]
pub struct SessionStats {
    pub turns: Option<u64>,
    pub steps: Option<u64>,
    pub llm_ms: Option<u64>,
    pub tool_ms: Option<u64>,
    pub ttft_ms: Option<u64>,
    pub ttft_steps: Option<u64>,
    pub decode_ms: Option<u64>,
    pub decode_tokens: Option<u64>,
}

impl Default for SessionStats {
    fn default() -> (r: Self)
        ensures
            r == (SessionStats {
                turns: None,
                steps: None,
                llm_ms: None,
                tool_ms: None,
                ttft_ms: None,
                ttft_steps: None,
                decode_ms: None,
                decode_tokens: None,
            }),
    {
        SessionStats {
            turns: None,
            steps: None,
            llm_ms: None,
            tool_ms: None,
            ttft_ms: None,
            ttft_steps: None,
            decode_ms: None,
            decode_tokens: None,
        }
    }
}

impl ContextPressure {
    /// The share that is used, in percent; none where one of the two numbers is
    /// missing or the whole is 0.
    pub fn percent(&self) -> (r: Option<u64>)
        ensures
            r == match (self.pressure_tokens, self.projected_tokens) {
                (Some(p), Some(total)) => if total == 0 {
                    None
                } else if p * 100 > u64::MAX {
                    Some((u64::MAX as int / total as int) as u64)
                } else {
                    Some((p * 100 / total as int) as u64)
                },
                _ => None,
            },
    {
        match (self.pressure_tokens, self.projected_tokens) {
            (Some(p), Some(total)) => if total == 0 {
                None
            } else if p > u64::MAX / 100 {
                Some(u64::MAX / total)
            } else {
                Some(p * 100 / total)
            },
            _ => None,
        }
    }
}

/// The model that was used last, and the one that is used next.
#[derive(Debug, Clone, PartialEq, Eq)]
pub struct ModelSelection {
    pub last_used: Option<String>,
    pub next: Option<String>,
}

impl Default for ModelSelection {
    fn default() -> (r: Self)
        ensures
            r.last_used is None,
            r.next is None,
    {
        ModelSelection { last_used: None, next: None }
    }
}

/// What images the server takes.
#[derive(Debug, Clone, PartialEq, Eq)]
pub struct ImageLimits {
    pub max_image_bytes: Option<u64>,
    pub max_images_per_message: Option<u64>,
    pub media_types: Vec<String>,
}

impl Default for ImageLimits {
    fn default() -> (r: Self)
        ensures
            r.max_image_bytes is None,
            r.max_images_per_message is None,
            r.media_types@.len() == 0,
    {
        ImageLimits {
            max_image_bytes: None,
            max_images_per_message: None,
            media_types: Vec::new(),
        }
    }
}

/// A text, or the empty one.
pub open spec fn or_empty(t: Option<Seq<char>>) -> Seq<char> {
    match t {
        Some(s) => s,
        None => Seq::empty(),
    }
}

fn text_or_empty(v: &Json, key: &str) -> (r: String)
    ensures
        r@ == or_empty(v@.str_at(key@)),
{
    match v.string_at(key) {
        Some(t) => t,
        None => String::new(),
    }
}

/// The name that a model is shown by: a text as it is, of an object provider
/// and model.
pub open spec fn model_name(v: Option<JsonView>) -> Option<Seq<char>> {
    match v {
        Some(JsonView::Str(s)) => if s.len() > 0 {
            Some(s)
        } else {
            None
        },
        Some(JsonView::Object(es)) => {
            let provider = or_empty(JsonView::Object(es).str_at("provider"@));
            let model = or_empty(JsonView::Object(es).str_at("model"@));
            if model.len() == 0 && provider.len() == 0 {
                None
            } else if provider.len() == 0 {
                Some(model)
            } else if model.len() == 0 {
                Some(provider)
            } else {
                Some(provider + "/"@ + model)
            }
        },
        _ => None,
    }
}

fn wire_model_display(value: Option<&Json>) -> (r: Option<String>)
    ensures
        opt_text(r) == model_name(opt_json_ref(value)),
{
    match value {
        Some(v) => match v {
            Json::Str(s) => if s.as_str().is_empty() {
                None
            } else {
                Some(s.clone())
            },
            Json::Object(_) => {
                let provider = text_or_empty(v, "provider");
                let model = text_or_empty(v, "model");
                if model.as_str().is_empty() && provider.as_str().is_empty() {
                    None
                } else if provider.as_str().is_empty() {
                    Some(model)
                } else if model.as_str().is_empty() {
                    Some(provider)
                } else {
                    Some(cat3(provider.as_str(), "/", model.as_str()))
                }
            },
            _ => None,
        },
        None => None,
    }
}

/// Tokens of a part of the context: a number, or an object that holds one.
pub open spec fn part_tokens(v: JsonView) -> Option<u64> {
    match v {
        JsonView::Number(_) => v.as_u64(),
        JsonView::Object(_) => match v.get("tokens"@) {
            Some(t) => t.as_u64(),
            None => v.u64_at("token"@),
        },
        _ => None,
    }
}

fn tokens_of(v: &Json) -> (r: Option<u64>)
    ensures
        r == part_tokens(v@),
{
    match v {
        Json::Number(_) => v.as_u64(),
        Json::Object(_) => match v.get("tokens") {
            Some(t) => t.as_u64(),
            None => v.u64_at("token"),
        },
        _ => None,
    }
}

/// The row of a part of the context, where it is reported.
pub open spec fn breakdown_row(v: JsonView, key: Seq<char>) -> Seq<(Seq<char>, u64)> {
    match v.get(key) {
        Some(p) => match part_tokens(p) {
            Some(n) => seq![(key, n)],
            None => Seq::empty(),
        },
        None => Seq::empty(),
    }
}

/// Rows with names, as texts.
pub open spec fn named_rows(v: Seq<(&'static str, u64)>) -> Seq<(Seq<char>, u64)> {
    v.map_values(|p: (&'static str, u64)| (p.0@, p.1))
}

fn add_row(v: &Json, key: &'static str, out: &mut Vec<(&'static str, u64)>)
    ensures
        named_rows(final(out)@) == named_rows(old(out)@) + breakdown_row(v@, key@),
{
    let ghost before = named_rows(out@);
    if let Some(p) = v.get(key) {
        if let Some(n) = tokens_of(p) {
            out.push((key, n));
            assert(named_rows(out@) =~= before + seq![(key@, n)]);
            return;
        }
    }
    assert(named_rows(out@) =~= before + Seq::empty());
}

/// The texts among the first `n` items of an array.
pub open spec fn text_items(items: Seq<JsonView>, n: int) -> Seq<Seq<char>>
    decreases n,
{
    if n <= 0 {
        Seq::empty()
    } else {
        match items[n - 1].as_str() {
            Some(t) => text_items(items, n - 1).push(t),
            None => text_items(items, n - 1),
        }
    }
}

/// The texts under `key` in the first `n` items of an array.
pub open spec fn texts_under(items: Seq<JsonView>, key: Seq<char>, n: int) -> Seq<Seq<char>>
    decreases n,
{
    if n <= 0 {
        Seq::empty()
    } else {
        match items[n - 1].str_at(key) {
            Some(t) => texts_under(items, key, n - 1).push(t),
            None => texts_under(items, key, n - 1),
        }
    }
}

/// What is to be done, with its state, of the first `n` items of an array; an
/// item without a content is left out.
pub open spec fn todo_items(items: Seq<JsonView>, n: int) -> Seq<(Seq<char>, Seq<char>)>
    decreases n,
{
    if n <= 0 {
        Seq::empty()
    } else {
        match items[n - 1].str_at("content"@) {
            Some(t) => todo_items(items, n - 1).push((t, or_empty(items[n - 1].str_at("status"@)))),
            None => todo_items(items, n - 1),
        }
    }
}

/// Pairs of texts.
pub open spec fn text_pairs(v: Seq<(String, String)>) -> Seq<(Seq<char>, Seq<char>)> {
    v.map_values(|p: (String, String)| (p.0@, p.1@))
}

/// The keys of an object, in its order.
pub open spec fn keys_of(entries: Seq<(Seq<char>, JsonView)>) -> Seq<Seq<char>> {
    entries.map_values(|e: (Seq<char>, JsonView)| e.0)
}

/// Whether a phase is the one that a word names.
pub open spec fn names_phase(word: Seq<char>, phase: GoalPhase) -> bool {
    match phase {
        GoalPhase::Active => word == "active"@,
        GoalPhase::Paused => word == "paused"@,
        GoalPhase::Other(t) => word == t@ && word != "active"@ && word != "paused"@,
    }
}

/// The phase of a goal, from the value that its word was read as.
pub fn goal_phase(read: &Option<Json>) -> (r: Option<GoalPhase>)
    ensures
        match opt_json(*read) {
            Some(JsonView::Str(word)) => r is Some && names_phase(word, r->0),
            _ => r is None,
        },
{
    match read {
        Some(Json::Str(word)) => if same(word.as_str(), "active") {
            Some(GoalPhase::Active)
        } else if same(word.as_str(), "paused") {
            Some(GoalPhase::Paused)
        } else {
            Some(GoalPhase::Other(word.clone()))
        },
        _ => None,
    }
}

/// The value that the word of a phase is read as.
pub open spec fn read_phase(word: Option<Seq<char>>) -> Option<JsonView> {
    match word {
        Some(w) => json_parsed("\""@ + w + "\""@),
        None => None,
    }
}

/// Why a goal is blocked: a text, or the message of an object.
pub open spec fn blocked_text(v: Option<JsonView>) -> Option<Seq<char>> {
    match v {
        Some(JsonView::Str(s)) => Some(s),
        Some(x) => x.str_at("message"@),
        None => None,
    }
}

/// The goal itself: under its own key, or the report as a whole.
pub open spec fn goal_part(g: JsonView) -> JsonView {
    match g.get("goal"@) {
        Some(x) => x,
        None => g,
    }
}

/// Whether a goal is the one that a report describes.
pub open spec fn describes(g: JsonView, r: GoalView) -> bool {
    let goal = goal_part(g);
    &&& r.id@ == or_empty(goal.str_at("id"@))
    &&& r.revision == match goal.u64_at("revision"@) {
        Some(n) => n,
        None => 0,
    }
    &&& r.objective@ == or_empty(goal.str_at("objective"@))
    &&& match read_phase(goal.str_at("phase"@)) {
        Some(JsonView::Str(word)) => r.phase is Some && names_phase(word, r.phase->0),
        _ => r.phase is None,
    }
    &&& opt_text(r.blocked_reason) == blocked_text(goal.get("blockedReason"@))
    &&& r.max_goal_rounds == goal.u64_at("maxGoalRounds"@)
    &&& r.rounds_started == g.u64_at("roundsStarted"@)
    &&& r.created_at == g.i64_at("createdAt"@)
    &&& r.updated_at == g.i64_at("updatedAt"@)
}

fn read_word(goal: &Json) -> (r: Option<Json>)
    ensures
        opt_json(r) == read_phase(goal@.str_at("phase"@)),
{
    match goal.str_at("phase") {
        Some(p) => parse(cat3("\"", p, "\"").as_str()),
        None => None,
    }
}

fn read_blocked(goal: &Json) -> (r: Option<String>)
    ensures
        opt_text(r) == blocked_text(goal@.get("blockedReason"@)),
{
    match goal.get("blockedReason") {
        Some(v) => match v {
            Json::Str(s) => Some(s.clone()),
            _ => v.string_at("message"),
        },
        None => None,
    }
}

impl ProjectionSnapshot {
    /// Takes a report.
    pub fn new(raw: Json) -> (r: ProjectionSnapshot)
        ensures
            r.raw == raw,
    {
        ProjectionSnapshot { raw }
    }

    fn u64_in(&self, group: &str, key: &str) -> (r: Option<u64>)
        ensures
            r == part(self.raw@, group@).u64_at(key@),
    {
        match self.raw.get(group) {
            Some(v) => v.u64_at(key),
            None => None,
        }
    }

    /// The title, where one is set: the session's own, else that of the list.
    pub fn title(&self) -> (r: Option<String>)
        ensures
            opt_text(r) == match self.raw@.text_at("title"@) {
                Some(t) => Some(t),
                None => part(self.raw@, "sessionListMetadata"@).text_at("title"@),
            },
    {
        match self.raw.text_at("title") {
            Some(t) => Some(t),
            None => match self.raw.get("sessionListMetadata") {
                Some(v) => v.text_at("title"),
                None => None,
            },
        }
    }

    /// The working directory, where one is set.
    pub fn cwd(&self) -> (r: Option<String>)
        ensures
            opt_text(r) == self.raw@.text_at("cwd"@),
    {
        self.raw.text_at("cwd")
    }

    /// Whether the session runs.
    pub fn running(&self) -> (r: Option<bool>)
        ensures
            r == self.raw@.bool_at("running"@),
    {
        self.raw.bool_at("running")
    }

    /// How full the context is.
    pub fn context_pressure(&self) -> (r: ContextPressure)
        ensures
            r == (ContextPressure {
                pressure_tokens: part(self.raw@, "contextPressure"@).u64_at("pressureTokens"@),
                projected_tokens: part(self.raw@, "contextPressure"@).u64_at("projectedTokens"@),
                context_window: part(self.raw@, "contextPressure"@).u64_at("contextWindow"@),
            }),
    {
        ContextPressure {
            pressure_tokens: self.u64_in("contextPressure", "pressureTokens"),
            projected_tokens: self.u64_in("contextPressure", "projectedTokens"),
            context_window: self.u64_in("contextPressure", "contextWindow"),
        }
    }

    /// Tokens that were used.
    pub fn token_usage(&self) -> (r: TokenUsage)
        ensures
            r == (TokenUsage {
                input: part(self.raw@, "tokenUsage"@).u64_at("input"@),
                output: part(self.raw@, "tokenUsage"@).u64_at("output"@),
                cache_read: part(self.raw@, "tokenUsage"@).u64_at("cacheRead"@),
                cache_write: part(self.raw@, "tokenUsage"@).u64_at("cacheWrite"@),
            }),
    {
        TokenUsage {
            input: self.u64_in("tokenUsage", "input"),
            output: self.u64_in("tokenUsage", "output"),
            cache_read: self.u64_in("tokenUsage", "cacheRead"),
            cache_write: self.u64_in("tokenUsage", "cacheWrite"),
        }
    }

    /// What the session took.
    pub fn session_stats(&self) -> (r: SessionStats)
        ensures
            r == (SessionStats {
                turns: part(self.raw@, "sessionStats"@).u64_at("turns"@),
                steps: part(self.raw@, "sessionStats"@).u64_at("steps"@),
                llm_ms: part(self.raw@, "sessionStats"@).u64_at("llmMs"@),
                tool_ms: part(self.raw@, "sessionStats"@).u64_at("toolMs"@),
                ttft_ms: part(self.raw@, "sessionStats"@).u64_at("ttftMs"@),
                ttft_steps: part(self.raw@, "sessionStats"@).u64_at("ttftSteps"@),
                decode_ms: part(self.raw@, "sessionStats"@).u64_at("decodeMs"@),
                decode_tokens: part(self.raw@, "sessionStats"@).u64_at("decodeTokens"@),
            }),
    {
        SessionStats {
            turns: self.u64_in("sessionStats", "turns"),
            steps: self.u64_in("sessionStats", "steps"),
            llm_ms: self.u64_in("sessionStats", "llmMs"),
            tool_ms: self.u64_in("sessionStats", "toolMs"),
            ttft_ms: self.u64_in("sessionStats", "ttftMs"),
            ttft_steps: self.u64_in("sessionStats", "ttftSteps"),
            decode_ms: self.u64_in("sessionStats", "decodeMs"),
            decode_tokens: self.u64_in("sessionStats", "decodeTokens"),
        }
    }

    /// The models, by the names that they are shown by.
    pub fn model_selection(&self) -> (r: ModelSelection)
        ensures
            opt_text(r.last_used) == model_name(
                part(self.raw@, "modelSelection"@).get("lastUsed"@),
            ),
            opt_text(r.next) == model_name(part(self.raw@, "modelSelection"@).get("next"@)),
    {
        match self.raw.get("modelSelection") {
            Some(m) => ModelSelection {
                last_used: wire_model_display(m.get("lastUsed")),
                next: wire_model_display(m.get("next")),
            },
            None => ModelSelection { last_used: None, next: None },
        }
    }

    /// Whether another model is used next than was used last.
    pub fn model_selection_changed(&self) -> (r: bool)
        ensures
            ({
                let m = part(self.raw@, "modelSelection"@);
                let next = model_name(m.get("next"@));
                r == (next is Some && next != model_name(m.get("lastUsed"@)))
            }),
    {
        let sel = self.model_selection();
        sel.next.is_some() && !same_opt(&sel.next, &sel.last_used)
    }

    /// Tokens of the parts of the context that are reported: system, tools,
    /// messages.
    pub fn context_breakdown(&self) -> (r: Vec<(&'static str, u64)>)
        ensures
            ({
                let v = part(self.raw@, "contextBreakdown"@);
                named_rows(r@) == breakdown_row(v, "system"@) + breakdown_row(v, "tools"@)
                    + breakdown_row(v, "message"@)
            }),
    {
        let mut out: Vec<(&'static str, u64)> = Vec::new();
        let ghost v = part(self.raw@, "contextBreakdown"@);
        assert(named_rows(out@) =~= Seq::empty());
        if let Some(b) = self.raw.get("contextBreakdown") {
            add_row(b, "system", &mut out);
            assert(named_rows(out@) =~= breakdown_row(v, "system"@));
            add_row(b, "tools", &mut out);
            add_row(b, "message", &mut out);
        } else {
            assert(breakdown_row(v, "system"@) + breakdown_row(v, "tools"@) + breakdown_row(
                v,
                "message"@,
            ) =~= Seq::empty());
        }
        out
    }

    /// The goal, where the session has one; none where the report has none, or
    /// one that is malformed.
    pub fn goal(&self) -> (r: Option<GoalView>)
        ensures
            match r {
                Some(view) => {
                    &&& self.raw@.get("goal"@) is Some
                    &&& goal_part(self.raw@.get("goal"@)->0) is Object
                    &&& describes(self.raw@.get("goal"@)->0, view)
                },
                None => self.raw@.get("goal"@) is None || !(goal_part(
                    self.raw@.get("goal"@)->0,
                ) is Object),
            },
    {
        let g = match self.raw.get("goal") {
            Some(g) => g,
            None => return None,
        };
        let goal = match g.get("goal") {
            Some(x) => x,
            None => g,
        };
        match goal {
            Json::Object(_) => {},
            _ => {
                return None;
            },
        }
        let revision: u64 = match goal.u64_at("revision") {
            Some(n) => n,
            None => 0,
        };
        Some(
            GoalView {
                id: text_or_empty(goal, "id"),
                revision,
                objective: text_or_empty(goal, "objective"),
                phase: goal_phase(&read_word(goal)),
                blocked_reason: read_blocked(goal),
                max_goal_rounds: goal.u64_at("maxGoalRounds"),
                rounds_started: g.u64_at("roundsStarted"),
                created_at: g.i64_at("createdAt"),
                updated_at: g.i64_at("updatedAt"),
            },
        )
    }

    /// What is to be done: content and state of each item.
    pub fn todos(&self) -> (r: Vec<(String, String)>)
        ensures
            text_pairs(r@) == match part(self.raw@, "todos"@) {
                JsonView::Array(items) => todo_items(items, items.len() as int),
                _ => Seq::empty(),
            },
    {
        let mut out: Vec<(String, String)> = Vec::new();
        assert(text_pairs(out@) =~= Seq::empty());
        if let Some(v) = self.raw.get("todos") {
            if let Json::Array(items) = v {
                let ghost view = v@->Array_0;
                let mut i: usize = 0;
                while i < items.len()
                    invariant
                        i <= items@.len(),
                        *v == Json::Array(*items),
                        view == v@->Array_0,
                        view.len() == items@.len(),
                        text_pairs(out@) == todo_items(view, i as int),
                    decreases items@.len() - i,
                {
                    let item = &items[i];
                    assert(view[i as int] == item@);
                    if let Some(content) = item.string_at("content") {
                        let ghost before = text_pairs(out@);
                        let status = text_or_empty(item, "status");
                        let ghost added = (content@, status@);
                        out.push((content, status));
                        assert(text_pairs(out@) =~= before.push(added));
                    }
                    i = i + 1;
                }
            }
        }
        out
    }

    /// Whether plan mode is on, and whether a change of it is under way.
    pub fn plan(&self) -> (r: Option<(bool, bool)>)
        ensures
            r == match self.raw@.get("plan"@) {
                None => None,
                Some(JsonView::Null) => None,
                Some(p) => Some(
                    (
                        p.bool_at("active"@) == Some(true),
                        p.bool_at("pending"@) == Some(true),
                    ),
                ),
            },
    {
        match self.raw.get("plan") {
            None => None,
            Some(p) => match p {
                Json::Null => None,
                _ => {
                    let active = match p.bool_at("active") {
                        Some(b) => b,
                        None => false,
                    };
                    let pending = match p.bool_at("pending") {
                        Some(b) => b,
                        None => false,
                    };
                    Some((active, pending))
                },
            },
        }
    }

    /// What images the server takes; where it does not say, there is no limit.
    pub fn image_limits(&self) -> (r: ImageLimits)
        ensures
            ({
                let l = part(self.raw@, "imageLimits"@);
                &&& r.max_image_bytes == l.u64_at("maxImageBytes"@)
                &&& r.max_images_per_message == l.u64_at("maxImagesPerMessage"@)
                &&& texts(r.media_types@) == match part(l, "mediaTypes"@) {
                    JsonView::Array(items) => text_items(items, items.len() as int),
                    _ => Seq::empty(),
                }
            }),
    {
        let l = match self.raw.get("imageLimits") {
            Some(l) => l,
            None => {
                let r = ImageLimits::default();
                assert(texts(r.media_types@) =~= Seq::empty());
                return r;
            },
        };
        let mut media_types: Vec<String> = Vec::new();
        assert(texts(media_types@) =~= Seq::empty());
        if let Some(v) = l.get("mediaTypes") {
            if let Json::Array(items) = v {
                let ghost view = v@->Array_0;
                let mut i: usize = 0;
                while i < items.len()
                    invariant
                        i <= items@.len(),
                        *v == Json::Array(*items),
                        view == v@->Array_0,
                        view.len() == items@.len(),
                        texts(media_types@) == text_items(view, i as int),
                    decreases items@.len() - i,
                {
                    assert(view[i as int] == items@[i as int]@);
                    if let Some(t) = items[i].as_str() {
                        let ghost before = texts(media_types@);
                        media_types.push(t.to_owned());
                        assert(texts(media_types@) =~= before.push(t@));
                    }
                    i = i + 1;
                }
            }
        }
        ImageLimits {
            max_image_bytes: l.u64_at("maxImageBytes"),
            max_images_per_message: l.u64_at("maxImagesPerMessage"),
            media_types,
        }
    }

    /// The children that run: by the items of a list, or by the keys of an
    /// object.
    pub fn subagent_running_children(&self) -> (r: Vec<String>)
        ensures
            ({
                let v = match self.raw@.get("subagentTiming"@) {
                    Some(x) => x,
                    None => part(self.raw@, "subagents"@),
                };
                texts(r@) == match v {
                    JsonView::Array(items) => texts_under(items, "id"@, items.len() as int),
                    JsonView::Object(entries) => keys_of(entries),
                    _ => Seq::empty(),
                }
            }),
    {
        let mut out: Vec<String> = Vec::new();
        assert(texts(out@) =~= Seq::empty());
        let v = match self.raw.get("subagentTiming") {
            Some(v) => v,
            None => match self.raw.get("subagents") {
                Some(v) => v,
                None => return out,
            },
        };
        match v {
            Json::Array(items) => {
                let ghost view = v@->Array_0;
                let mut i: usize = 0;
                while i < items.len()
                    invariant
                        i <= items@.len(),
                        *v == Json::Array(*items),
                        view == v@->Array_0,
                        view.len() == items@.len(),
                        texts(out@) == texts_under(view, "id"@, i as int),
                    decreases items@.len() - i,
                {
                    assert(view[i as int] == items@[i as int]@);
                    if let Some(id) = items[i].string_at("id") {
                        let ghost before = texts(out@);
                        let ghost added = id@;
                        out.push(id);
                        assert(texts(out@) =~= before.push(added));
                    }
                    i = i + 1;
                }
            },
            Json::Object(entries) => {
                let ghost keys = keys_of(v@->Object_0);
                let mut i: usize = 0;
                assert(texts(out@) =~= keys.take(0));
                while i < entries.len()
                    invariant
                        i <= entries@.len(),
                        *v == Json::Object(*entries),
                        keys == keys_of(v@->Object_0),
                        keys.len() == entries@.len(),
                        texts(out@) == keys.take(i as int),
                    decreases entries@.len() - i,
                {
                    let ghost before = texts(out@);
                    assert(v@->Object_0[i as int].0 == entries@[i as int].0@);
                    out.push(entries[i].0.clone());
                    assert(texts(out@) =~= before.push(keys[i as int]));
                    assert(keys.take(i + 1) =~= keys.take(i as int).push(keys[i as int]));
                    i = i + 1;
                }
                assert(keys.take(i as int) =~= keys);
            },
            _ => {},
        }
        out
    }
}

/// A part of a report is what stands under its key; of a part that is missing
/// nothing is read.
pub proof fn law_missing_parts_read_as_none(v: JsonView, key: Seq<char>, inner: Seq<char>)
    ensures
        v.get(key) is Some ==> part(v, key) == v.get(key)->0,
        v.get(key) is None ==> part(v, key).u64_at(inner) is None && part(v, key).text_at(inner)
            is None && part(v, key).get(inner) is None,
{
}

/// A model is shown by its text, or by provider and model where both are
/// named, or by the one that is.
pub proof fn law_models_are_shown_by_name(v: JsonView, t: Seq<char>, p: Seq<char>, m: Seq<char>)
    ensures
        t.len() > 0 ==> model_name(Some(JsonView::Str(t))) == Some(t),
        model_name(Some(JsonView::Str(Seq::empty()))) is None,
        model_name(None) is None,
        v is Object && v.str_at("provider"@) == Some(p) && v.str_at("model"@) == Some(m)
            && p.len() > 0 && m.len() > 0 ==> model_name(Some(v)) == Some(p + "/"@ + m),
        v is Object && v.str_at("provider"@) is None && v.str_at("model"@) == Some(m) && m.len()
            > 0 ==> model_name(Some(v)) == Some(m),
        v is Object && v.str_at("model"@) is None && v.str_at("provider"@) == Some(p) && p.len()
            > 0 ==> model_name(Some(v)) == Some(p),
        v is Object && v.str_at("model"@) is None && v.str_at("provider"@) is None ==> model_name(
            Some(v),
        ) is None,
{
    if v is Object {
        assert(JsonView::Object(v->Object_0) == v);
    }
}

/// A part of the context that is reported has a row under its name with its
/// tokens, given as a number or in an object; one that is not has none.
pub proof fn law_reported_parts_have_a_row(v: JsonView, key: Seq<char>, p: JsonView, n: u64)
    ensures
        v.get(key) is None ==> breakdown_row(v, key).len() == 0,
        v.get(key) == Some(p) && p.as_u64() == Some(n) ==> breakdown_row(v, key) == seq![(key, n)],
        v.get(key) == Some(p) && p.u64_at("tokens"@) == Some(n) ==> breakdown_row(v, key) == seq![
            (key, n),
        ],
        v.get(key) == Some(p) && p.get("tokens"@) is None && p.u64_at("token"@) == Some(n)
            ==> breakdown_row(v, key) == seq![(key, n)],
        breakdown_row(v, key).len() <= 1,
{
}

/// Lists are read item by item: a text adds itself, an item with the wanted
/// member adds that, and any other adds nothing.
pub proof fn law_lists_are_read_item_by_item(
    items: Seq<JsonView>,
    more: JsonView,
    key: Seq<char>,
)
    ensures
        ({
            let n = items.len() as int;
            let all = items.push(more);
            &&& more is Str ==> text_items(all, n + 1) == text_items(items, n).push(more->Str_0)
            &&& !(more is Str) ==> text_items(all, n + 1) == text_items(items, n)
            &&& more.str_at(key) is Some ==> texts_under(all, key, n + 1) == texts_under(
                items,
                key,
                n,
            ).push(more.str_at(key)->0)
            &&& more.str_at(key) is None ==> texts_under(all, key, n + 1) == texts_under(
                items,
                key,
                n,
            )
            &&& more.str_at("content"@) is Some && more.str_at("status"@) is Some ==> todo_items(
                all,
                n + 1,
            ) == todo_items(items, n).push(
                (more.str_at("content"@)->0, more.str_at("status"@)->0),
            )
            &&& more.str_at("content"@) is None ==> todo_items(all, n + 1) == todo_items(items, n)
        }),
{
    lemma_lists_grow(items, more, key, items.len() as int);
    assert(items.push(more)[items.len() as int] == more);
}

proof fn lemma_lists_grow(items: Seq<JsonView>, more: JsonView, key: Seq<char>, n: int)
    requires
        0 <= n <= items.len(),
    ensures
        text_items(items.push(more), n) == text_items(items, n),
        texts_under(items.push(more), key, n) == texts_under(items, key, n),
        todo_items(items.push(more), n) == todo_items(items, n),
    decreases n,
{
    if n > 0 {
        lemma_lists_grow(items, more, key, n - 1);
        assert(items.push(more)[n - 1] == items[n - 1]);
    }
}

/// A goal is read whole: its id, revision, objective and limits are those of
/// the report, and so are its times.
pub proof fn law_goals_are_read_whole(g: JsonView, goal: JsonView, r: GoalView)
    requires
        g.get("goal"@) == Some(goal),
        describes(g, r),
    ensures
        goal.str_at("id"@) is Some ==> r.id@ == goal.str_at("id"@)->0,
        goal.u64_at("revision"@) is Some ==> r.revision == goal.u64_at("revision"@)->0,
        goal.u64_at("revision"@) is None ==> r.revision == 0,
        goal.str_at("objective"@) is Some ==> r.objective@ == goal.str_at("objective"@)->0,
        r.max_goal_rounds == goal.u64_at("maxGoalRounds"@),
        r.rounds_started == g.u64_at("roundsStarted"@),
        r.created_at == g.i64_at("createdAt"@),
        r.updated_at == g.i64_at("updatedAt"@),
        goal.str_at("blockedReason"@) is Some ==> opt_text(r.blocked_reason) == goal.str_at(
            "blockedReason"@,
        ),
        goal.get("blockedReason"@) is None ==> r.blocked_reason is None,
        goal.str_at("phase"@) is None ==> r.phase is None,
{
}

/// The words `active` and `paused` name those phases and no others; any other
/// word is kept as it is.
pub proof fn law_phases_are_named_by_their_words(word: Seq<char>, phase: GoalPhase)
    requires
        names_phase(word, phase),
    ensures
        word == "active"@ <==> phase is Active,
        word == "paused"@ <==> phase is Paused,
        phase is Other ==> phase->Other_0@ == word,
{
    reveal_strlit("active");
    reveal_strlit("paused");
    assert("active"@[0] == 'a' && "paused"@[0] == 'p');
}

} // verus!
