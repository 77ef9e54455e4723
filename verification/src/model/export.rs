//! The export of a session. The server's own archive comes first; where the
//! server has none, the records of the session are written down line by line.

use vstd::prelude::*;

use crate::json::{
    compact, entry_views, json_compact, json_parsed, json_views, key_index, lemma_key_index,
    lemma_object_view, lookup, same_value, tidy, within, Json, JsonView, Num, NumView, DEPTH_MAX,
};
use crate::order::{law_full_ranking, law_ranking_is_stable, numbers, rank, ranked, stands_before};
use crate::text::{
    chars_of, has_prefix, opt_text, same, starts_with, text_of, trim, trimmed, whitespace,
};
use crate::text_laws::{law_blank_texts_are_whitespace, law_parts_of_texts};

verus! {

/// How far an export is.
#[derive(Debug, Clone, Copy, PartialEq, Eq, Structural, Default)]
pub enum ExportPhase {
    #[default]
    Idle,
    /// The user picks a path.
    PickingPath,
    Downloading,
    /// The records are written down line by line.
    Rebuilding,
    Done,
    Failed,
}

/// The export of a session.
#[derive(Debug, Clone, PartialEq, Eq)]
pub struct ExportState {
    pub visible: bool,
    pub phase: ExportPhase,
    pub session_id: Option<String>,
    pub path: String,
    pub bytes_streamed: u64,
    pub records_collected: u64,
    pub cancelled: bool,
    pub last_error_code: Option<String>,
}

/// Whether the export is as at the start.
pub open spec fn is_blank_export(s: ExportState) -> bool {
    &&& !s.visible
    &&& s.phase == ExportPhase::Idle
    &&& s.session_id is None
    &&& s.path@.len() == 0
    &&& s.bytes_streamed == 0
    &&& s.records_collected == 0
    &&& !s.cancelled
    &&& s.last_error_code is None
}

/// Whether there is a session to export and a path to write to.
pub open spec fn can_export(s: ExportState) -> bool {
    s.session_id is Some && s.session_id->0@.len() > 0 && trimmed(s.path@).len() > 0
}

/// The state after a download was to start, and whether it started.
pub open spec fn download_begun(s: ExportState) -> (ExportState, bool) {
    if can_export(s) && s.phase != ExportPhase::Downloading && s.phase != ExportPhase::Rebuilding {
        (
            ExportState {
                phase: ExportPhase::Downloading,
                bytes_streamed: 0,
                cancelled: false,
                last_error_code: None,
                ..s
            },
            true,
        )
    } else {
        (s, false)
    }
}

/// The state after the records were to be written down, and whether that
/// started.
pub open spec fn rebuild_begun(s: ExportState) -> (ExportState, bool) {
    if can_export(s) && s.phase != ExportPhase::Rebuilding {
        (
            ExportState {
                phase: ExportPhase::Rebuilding,
                records_collected: 0,
                cancelled: false,
                last_error_code: None,
                ..s
            },
            true,
        )
    } else {
        (s, false)
    }
}

/// The state after an export failed.
pub open spec fn export_failed(s: ExportState, code: String) -> ExportState {
    ExportState { phase: ExportPhase::Failed, last_error_code: Some(code), ..s }
}

impl Default for ExportState {
    fn default() -> (r: Self)
        ensures
            is_blank_export(r),
    {
        ExportState {
            visible: false,
            phase: ExportPhase::Idle,
            session_id: None,
            path: String::new(),
            bytes_streamed: 0,
            records_collected: 0,
            cancelled: false,
            last_error_code: None,
        }
    }
}

impl ExportState {
    /// Opens the export of a session, with a path to begin with.
    pub fn open(&mut self, session_id: &str, default_path: &str)
        ensures
            final(self).visible,
            opt_text(final(self).session_id) == Some(session_id@),
            final(self).path@ == default_path@,
            final(self).phase == ExportPhase::PickingPath,
            final(self).bytes_streamed == 0,
            final(self).records_collected == 0,
            !final(self).cancelled,
            final(self).last_error_code is None,
    {
        self.visible = true;
        self.session_id = Some(session_id.to_owned());
        self.path = default_path.to_owned();
        self.phase = ExportPhase::PickingPath;
        self.bytes_streamed = 0;
        self.records_collected = 0;
        self.cancelled = false;
        self.last_error_code = None;
    }

    /// Closes the export and forgets it.
    pub fn close(&mut self)
        ensures
            is_blank_export(*final(self)),
    {
        *self = ExportState::default();
    }

    fn ready(&self) -> (r: bool)
        ensures
            r == can_export(*self),
    {
        let has_session = match &self.session_id {
            Some(s) => !s.as_str().is_empty(),
            None => false,
        };
        has_session && !trim(self.path.as_str()).as_str().is_empty()
    }

    /// Starts the download, unless an export is under way; says whether it
    /// started.
    pub fn begin_download(&mut self) -> (r: bool)
        ensures
            (*final(self), r) == download_begun(*old(self)),
    {
        if !self.ready() || self.phase == ExportPhase::Downloading || self.phase
            == ExportPhase::Rebuilding {
            return false;
        }
        self.phase = ExportPhase::Downloading;
        self.bytes_streamed = 0;
        self.cancelled = false;
        self.last_error_code = None;
        true
    }

    /// Starts to write down the records, unless that is under way; says whether
    /// it started.
    pub fn begin_rebuild(&mut self) -> (r: bool)
        ensures
            (*final(self), r) == rebuild_begun(*old(self)),
    {
        if !self.ready() || self.phase == ExportPhase::Rebuilding {
            return false;
        }
        self.phase = ExportPhase::Rebuilding;
        self.records_collected = 0;
        self.cancelled = false;
        self.last_error_code = None;
        true
    }

    /// Records how much was downloaded.
    pub fn mark_progress(&mut self, bytes: u64)
        ensures
            *final(self) == (ExportState { bytes_streamed: bytes, ..*old(self) }),
    {
        self.bytes_streamed = bytes;
    }

    /// Records how many records there are so far.
    pub fn mark_rebuild_progress(&mut self, records: u64)
        ensures
            *final(self) == (ExportState { records_collected: records, ..*old(self) }),
    {
        self.records_collected = records;
    }

    /// The export is done.
    pub fn finish(&mut self)
        ensures
            *final(self) == (ExportState { phase: ExportPhase::Done, ..*old(self) }),
    {
        self.phase = ExportPhase::Done;
    }

    /// The export failed.
    pub fn fail(&mut self, code: String)
        ensures
            *final(self) == export_failed(*old(self), code),
    {
        self.phase = ExportPhase::Failed;
        self.last_error_code = Some(code);
    }
}

/// The line for a value whose text is `t`; one that has none is an empty
/// object.
pub open spec fn line_of(t: Option<Seq<char>>) -> Seq<char> {
    match t {
        Some(s) => s.push('\n'),
        None => "{}"@.push('\n'),
    }
}

/// The line for a value whose text is `t`.
pub fn finish_line(t: Option<String>) -> (r: String)
    ensures
        r@ == line_of(opt_text(t)),
{
    let mut out = match t {
        Some(s) => s,
        None => "{}".to_owned(),
    };
    out.push('\n');
    out
}

/// The first line of an export: which session it is.
pub open spec fn header(session_id: Seq<char>) -> JsonView {
    JsonView::Object(
        seq![
            ("type"@, JsonView::Str("session"@)),
            ("version"@, JsonView::Number(NumView::Unsigned(0))),
            ("id"@, JsonView::Str(session_id)),
        ],
    )
}

/// How many line feeds a text has.
pub open spec fn line_feeds(s: Seq<char>) -> nat
    decreases s.len(),
{
    if s.len() == 0 {
        0
    } else {
        line_feeds(s.drop_last()) + if s.last() == '\n' {
            1nat
        } else {
            0nat
        }
    }
}

proof fn lemma_no_line_feeds(s: Seq<char>)
    requires
        !s.contains('\n'),
    ensures
        line_feeds(s) == 0,
    decreases s.len(),
{
    if s.len() > 0 {
        assert forall|c: char| s.drop_last().contains(c) implies s.contains(c) by {
            let i = choose|i: int| 0 <= i < s.drop_last().len() && s.drop_last()[i] == c;
            assert(s[i] == c);
        }
        assert(s[s.len() - 1] != '\n');
        lemma_no_line_feeds(s.drop_last());
    }
}

proof fn lemma_line_feeds_add(a: Seq<char>, b: Seq<char>)
    ensures
        line_feeds(a + b) == line_feeds(a) + line_feeds(b),
    decreases b.len(),
{
    if b.len() > 0 {
        assert((a + b).drop_last() =~= a + b.drop_last());
        lemma_line_feeds_add(a, b.drop_last());
    } else {
        assert(a + b =~= a);
    }
}

proof fn lemma_one_line(t: Option<Seq<char>>)
    requires
        t is Some ==> !t->0.contains('\n'),
    ensures
        line_feeds(line_of(t)) == 1,
        line_of(t).last() == '\n',
{
    reveal_strlit("{}");
    let s = match t {
        Some(s) => s,
        None => "{}"@,
    };
    assert(!"{}"@.contains('\n'));
    lemma_no_line_feeds(s);
    assert(s.push('\n').drop_last() =~= s);
}

/// The first line of an export.
pub fn rebuild_header_line(session_id: &str) -> (r: String)
    ensures
        r@ == line_of(json_compact(header(session_id@))),
        line_feeds(r@) == 1,
        json_compact(header(session_id@)) is Some,
        json_parsed(json_compact(header(session_id@))->0) is Some,
        same_value(
            json_parsed(json_compact(header(session_id@))->0)->0,
            header(session_id@),
        ),
{
    let mut es: Vec<(String, Json)> = Vec::new();
    es.push(("type".to_owned(), Json::Str("session".to_owned())));
    es.push(("version".to_owned(), Json::Number(Num::Unsigned(0))));
    es.push(("id".to_owned(), Json::Str(session_id.to_owned())));
    let j = Json::Object(es);
    proof {
        lemma_object_view(es);
        assert(entry_views(es@) =~= header(session_id@)->Object_0);
        reveal_strlit("type");
        reveal_strlit("version");
        reveal_strlit("id");
        assert("type"@.len() == 4 && "version"@.len() == 7 && "id"@.len() == 2);
        reveal_with_fuel(tidy, 2);
        let es = j@->Object_0;
        assert(es[0].0 == "type"@ && es[1].0 == "version"@ && es[2].0 == "id"@);
        assert(tidy(j@, DEPTH_MAX as nat));
    }
    let t = compact(&j);
    proof {
        lemma_one_line(opt_text(t));
    }
    finish_line(t)
}

/// Members with one under `k`: in place of the first with that key, else
/// behind the others.
pub open spec fn with_entry(
    es: Seq<(Seq<char>, JsonView)>,
    k: Seq<char>,
    v: JsonView,
) -> Seq<(Seq<char>, JsonView)> {
    if key_index(es, k) < es.len() {
        es.update(key_index(es, k), (k, v))
    } else {
        es.push((k, v))
    }
}

/// The first `n` members but for those under `k`.
pub open spec fn without_entry(es: Seq<(Seq<char>, JsonView)>, k: Seq<char>, n: int) -> Seq<
    (Seq<char>, JsonView),
>
    decreases n,
{
    if n <= 0 {
        Seq::empty()
    } else if es[n - 1].0 == k {
        without_entry(es, k, n - 1)
    } else {
        without_entry(es, k, n - 1).push(es[n - 1])
    }
}

/// Members with what stands under `from` put under `to`.
pub open spec fn renamed(
    es: Seq<(Seq<char>, JsonView)>,
    from: Seq<char>,
    to: Seq<char>,
) -> Seq<(Seq<char>, JsonView)> {
    match lookup(es, from) {
        Some(v) => with_entry(without_entry(es, from, es.len() as int), to, v),
        None => es,
    }
}

/// What a record wraps: the event of a page's record, any other as it is.
pub open spec fn unwrapped(rec: JsonView) -> JsonView {
    let t = rec.str_at("type"@);
    if t == Some("event"@) || t == Some("chunks"@) {
        match rec.get("event"@) {
            Some(e) => e,
            None => rec,
        }
    } else {
        rec
    }
}

/// What is written of a record: its event, and of rows of chunks the names that
/// a log gives them.
pub open spec fn written(rec: JsonView) -> JsonView {
    let inner = unwrapped(rec);
    match inner.str_at("type"@) {
        Some(t) => if has_prefix(t, "chunkrow/"@) {
            let es = with_entry(
                inner->Object_0,
                "type"@,
                JsonView::Str(t.skip("chunkrow/"@.len() as int)),
            );
            JsonView::Object(renamed(renamed(es, "seq"@, "seq0"@), "time"@, "time0"@))
        } else {
            inner
        },
        None => inner,
    }
}

fn put(es: &mut Vec<(String, Json)>, k: &str, v: Json)
    ensures
        entry_views(final(es)@) == with_entry(entry_views(old(es)@), k@, v@),
{
    let ghost views = entry_views(es@);
    let ghost added = v@;
    let mut i: usize = 0;
    while i < es.len()
        invariant
            i <= es@.len(),
            views == entry_views(es@),
            forall|j: int| 0 <= j < i ==> (#[trigger] views[j]).0 != k@,
        ensures
            i <= es@.len(),
            views == entry_views(es@),
            forall|j: int| 0 <= j < i ==> (#[trigger] views[j]).0 != k@,
            i < es@.len() ==> views[i as int].0 == k@,
        decreases es@.len() - i,
    {
        assert(views[i as int].0 == es@[i as int].0@);
        if same(es[i].0.as_str(), k) {
            break;
        }
        i = i + 1;
    }
    proof {
        lemma_key_index(views, k@, i as int);
    }
    if i < es.len() {
        es.set(i, (k.to_owned(), v));
        assert(entry_views(es@) =~= views.update(i as int, (k@, added)));
    } else {
        es.push((k.to_owned(), v));
        assert(entry_views(es@) =~= views.push((k@, added)));
    }
}

fn drop_entry(es: &Vec<(String, Json)>, k: &str) -> (r: Vec<(String, Json)>)
    ensures
        entry_views(r@) == without_entry(entry_views(es@), k@, es@.len() as int),
{
    let ghost views = entry_views(es@);
    let mut r: Vec<(String, Json)> = Vec::new();
    let mut i: usize = 0;
    assert(entry_views(r@) =~= Seq::empty());
    while i < es.len()
        invariant
            i <= es@.len(),
            views == entry_views(es@),
            entry_views(r@) == without_entry(views, k@, i as int),
        decreases es@.len() - i,
    {
        assert(views[i as int] == (es@[i as int].0@, es@[i as int].1@));
        if !same(es[i].0.as_str(), k) {
            let ghost before = entry_views(r@);
            r.push((es[i].0.clone(), es[i].1.dup()));
            assert(entry_views(r@) =~= before.push(views[i as int]));
        }
        i = i + 1;
    }
    r
}

fn rename(es: Vec<(String, Json)>, from: &str, to: &str) -> (r: Vec<(String, Json)>)
    ensures
        entry_views(r@) == renamed(entry_views(es@), from@, to@),
{
    proof {
        lemma_object_view(es);
    }
    let j = Json::Object(es);
    let v: Option<Json> = match j.get(from) {
        Some(v) => Some(v.dup()),
        None => None,
    };
    match j {
        Json::Object(es) => match v {
            Some(v) => {
                let mut r = drop_entry(&es, from);
                put(&mut r, to, v);
                r
            },
            None => es,
        },
        _ => Vec::new(),
    }
}

/// What is written of a record.
pub fn rebuild_record_to_line(rec: &Json) -> (r: Json)
    ensures
        r@ == written(rec@),
{
    let wrapped = match rec.str_at("type") {
        Some(t) => same(t, "event") || same(t, "chunks"),
        None => false,
    };
    let inner: &Json = if wrapped {
        match rec.get("event") {
            Some(e) => e,
            None => rec,
        }
    } else {
        rec
    };
    assert(inner@ == unwrapped(rec@));
    let stripped: String = match inner.str_at("type") {
        Some(t) => if starts_with(t, "chunkrow/") {
            let cs = chars_of(t);
            let p = chars_of("chunkrow/");
            let rest = text_of(&cs, p.len(), cs.len());
            assert(rest@ =~= t@.skip("chunkrow/"@.len() as int));
            rest
        } else {
            return inner.dup();
        },
        None => return inner.dup(),
    };
    match inner {
        Json::Object(es) => {
            let copy = inner.dup();
            match copy {
                Json::Object(mut out) => {
                    proof {
                        lemma_object_view(*es);
                        lemma_object_view(out);
                    }
                    put(&mut out, "type", Json::Str(stripped));
                    let a = rename(out, "seq", "seq0");
                    let b = rename(a, "time", "time0");
                    proof {
                        lemma_object_view(b);
                    }
                    Json::Object(b)
                },
                _ => Json::Null,
            }
        },
        _ => inner.dup(),
    }
}

/// What is written of a record has no more levels than the record.
pub proof fn law_written_records_are_no_deeper(rec: JsonView, depth: nat)
    requires
        within(rec, depth),
    ensures
        within(written(rec), depth),
{
    let inner = unwrapped(rec);
    if inner != rec {
        lemma_member_within(rec->Object_0, "event"@, depth);
        lemma_within_grows(inner, (depth - 1) as nat, depth);
    }
    match inner.str_at("type"@) {
        Some(t) => if has_prefix(t, "chunkrow/"@) {
            let d = (depth - 1) as nat;
            let es = with_entry(
                inner->Object_0,
                "type"@,
                JsonView::Str(t.skip("chunkrow/"@.len() as int)),
            );
            lemma_key_index_bound(inner->Object_0, "type"@);
            assert(members_within(es, d));
            lemma_renamed_within(es, "seq"@, "seq0"@, d);
            lemma_renamed_within(renamed(es, "seq"@, "seq0"@), "time"@, "time0"@, d);
        },
        None => {},
    }
}

/// Whether members have `depth` levels at most.
spec fn members_within(es: Seq<(Seq<char>, JsonView)>, depth: nat) -> bool {
    forall|i: int| 0 <= i < es.len() ==> within((#[trigger] es[i]).1, depth)
}

/// A member of an object has fewer levels than the object.
proof fn lemma_member_within(es: Seq<(Seq<char>, JsonView)>, k: Seq<char>, depth: nat)
    requires
        within(JsonView::Object(es), depth),
        lookup(es, k) is Some,
    ensures
        depth > 0,
        within(lookup(es, k)->0, (depth - 1) as nat),
{
    let v = JsonView::Object(es);
    assert(v->Object_0 == es);
    assert(members_within(es, (depth - 1) as nat));
    let i = key_index(es, k);
    assert(within(es[i].1, (depth - 1) as nat));
}

proof fn lemma_key_index_bound(es: Seq<(Seq<char>, JsonView)>, k: Seq<char>)
    ensures
        0 <= key_index(es, k) <= es.len(),
    decreases es.len(),
{
    if es.len() > 0 && es[0].0 != k {
        lemma_key_index_bound(es.skip(1), k);
    }
}

/// A value with `a` levels has `b` levels too, where `b` is no smaller.
proof fn lemma_within_grows(v: JsonView, a: nat, b: nat)
    requires
        within(v, a),
        a <= b,
    ensures
        within(v, b),
    decreases v,
{
    match v {
        JsonView::Array(items) => {
            assert forall|i: int| 0 <= i < items.len() implies within(
                #[trigger] items[i],
                (b - 1) as nat,
            ) by {
                lemma_within_grows(items[i], (a - 1) as nat, (b - 1) as nat);
            }
        },
        JsonView::Object(es) => {
            assert forall|i: int| 0 <= i < es.len() implies within(
                (#[trigger] es[i]).1,
                (b - 1) as nat,
            ) by {
                lemma_within_grows(es[i].1, (a - 1) as nat, (b - 1) as nat);
            }
        },
        _ => {},
    }
}

proof fn lemma_renamed_within(
    es: Seq<(Seq<char>, JsonView)>,
    from: Seq<char>,
    to: Seq<char>,
    depth: nat,
)
    requires
        members_within(es, depth),
    ensures
        members_within(renamed(es, from, to), depth),
{
    if lookup(es, from) is Some {
        assert(within(es[key_index(es, from)].1, depth));
        lemma_without_within(es, from, es.len() as int, depth);
        lemma_key_index_bound(without_entry(es, from, es.len() as int), to);
    }
}

proof fn lemma_without_within(
    es: Seq<(Seq<char>, JsonView)>,
    k: Seq<char>,
    n: int,
    depth: nat,
)
    requires
        members_within(es, depth),
        n <= es.len(),
    ensures
        members_within(without_entry(es, k, n), depth),
    decreases n,
{
    if n > 0 {
        lemma_without_within(es, k, n - 1, depth);
    }
}

/// Whether the text of a value can be read, unless it has too many levels.
pub open spec fn reads_back(v: JsonView) -> bool {
    within(v, DEPTH_MAX as nat) ==> json_compact(v) is Some && json_parsed(json_compact(v)->0) is Some
}

/// The line of a record. It is one line, and what it says is read back.
pub fn rebuild_record_line(rec: &Json) -> (r: String)
    ensures
        r@ == line_of(json_compact(written(rec@))),
        line_feeds(r@) == 1,
        reads_back(written(rec@)),
        tidy(written(rec@), DEPTH_MAX as nat) ==> {
            let t = json_compact(written(rec@));
            t is Some && json_parsed(t->0) is Some && same_value(
                json_parsed(t->0)->0,
                written(rec@),
            )
        },
{
    let line = rebuild_record_to_line(rec);
    let t = compact(&line);
    proof {
        lemma_one_line(opt_text(t));
    }
    finish_line(t)
}

/// The position of a record, where it has one: that of its event, else its own.
pub open spec fn record_seq(rec: JsonView) -> Option<u64> {
    let inner = match rec.get("event"@) {
        Some(e) => e.get("seq"@),
        None => None,
    };
    match inner {
        Some(v) => v.as_u64(),
        None => rec.u64_at("seq"@),
    }
}

/// The position of a record, where it has one.
pub fn rebuild_record_seq(rec: &Json) -> (r: Option<u64>)
    ensures
        r == record_seq(rec@),
{
    let inner: Option<&Json> = match rec.get("event") {
        Some(e) => e.get("seq"),
        None => None,
    };
    match inner {
        Some(v) => v.as_u64(),
        None => rec.u64_at("seq"),
    }
}

/// What records are ordered by: those without a position come first, then the
/// earliest.
pub open spec fn age(rec: JsonView) -> Option<i128> {
    match record_seq(rec) {
        None => Some(1i128),
        Some(n) => Some((-(n as int)) as i128),
    }
}

/// What records are ordered by.
pub open spec fn ages(recs: Seq<JsonView>) -> Seq<Option<i128>> {
    recs.map_values(|r: JsonView| age(r))
}

/// Records in the order of their positions, equal ones in their order; those
/// without one come first.
pub open spec fn chronological(recs: Seq<JsonView>) -> Seq<JsonView> {
    ranked(ages(recs), recs.len()).map_values(|i: int| recs[i])
}

fn chronological_order(recs: &Vec<Json>) -> (r: Vec<usize>)
    ensures
        numbers(r@) == ranked(ages(json_views(recs@)), recs@.len()),
        r@.len() == recs@.len(),
        forall|k: int| 0 <= k < r@.len() ==> #[trigger] r@[k] < recs@.len(),
{
    let ghost want = ages(json_views(recs@));
    let mut keys: Vec<Option<i128>> = Vec::new();
    let mut i: usize = 0;
    assert(keys@ =~= want.take(0));
    while i < recs.len()
        invariant
            i <= recs@.len(),
            want == ages(json_views(recs@)),
            keys@ == want.take(i as int),
        decreases recs@.len() - i,
    {
        let key: Option<i128> = match rebuild_record_seq(&recs[i]) {
            None => Some(1i128),
            Some(n) => Some(-(n as i128)),
        };
        assert(want[i as int] == age(recs@[i as int]@));
        keys.push(key);
        assert(want.take(i + 1) =~= want.take(i as int).push(want[i as int]));
        i = i + 1;
    }
    assert(want.take(i as int) =~= want);
    let r = rank(&keys);
    proof {
        law_ranking_is_stable(want, recs@.len());
        law_full_ranking(want, recs@.len());
        assert(numbers(r@).len() == r@.len());
        assert forall|k: int| 0 <= k < r@.len() implies #[trigger] r@[k] < recs@.len() by {
            assert(numbers(r@)[k] == r@[k]);
        }
    }
    r
}

/// Puts records into the order of their positions.
pub fn rebuild_sort_chronological(records: &mut Vec<Json>)
    ensures
        json_views(final(records)@) == chronological(json_views(old(records)@)),
{
    let ghost recs = json_views(records@);
    let ghost want = chronological(recs);
    let order = chronological_order(records);
    assert(numbers(order@).len() == order@.len());
    let mut out: Vec<Json> = Vec::new();
    let mut i: usize = 0;
    assert(json_views(out@) =~= want.take(0));
    while i < order.len()
        invariant
            i <= order@.len(),
            recs == json_views(records@),
            want == chronological(recs),
            want.len() == order@.len(),
            numbers(order@) == ranked(ages(recs), recs.len()),
            forall|k: int| 0 <= k < order@.len() ==> #[trigger] order@[k] < records@.len(),
            json_views(out@) == want.take(i as int),
        decreases order@.len() - i,
    {
        let at: usize = order[i];
        assert(numbers(order@)[i as int] == at);
        assert(want[i as int] == records@[at as int]@);
        let ghost before = json_views(out@);
        out.push(records[at].dup());
        assert(json_views(out@) =~= before.push(want[i as int]));
        assert(want.take(i + 1) =~= want.take(i as int).push(want[i as int]));
        i = i + 1;
    }
    assert(want.take(i as int) =~= want);
    *records = out;
}

/// The lines of the first `n` records, one behind the other.
pub open spec fn record_lines(recs: Seq<JsonView>, n: int) -> Seq<char>
    decreases n,
{
    if n <= 0 {
        Seq::empty()
    } else {
        record_lines(recs, n - 1) + line_of(json_compact(written(recs[n - 1])))
    }
}

/// The export of a session from its records: the line of the session, then a
/// line for each record, in the order of their positions. It has one line more
/// than there are records, and each line can be read.
pub fn rebuild_jsonl(session_id: &str, records: &Vec<Json>) -> (r: String)
    ensures
        r@ == line_of(json_compact(header(session_id@))) + record_lines(
            chronological(json_views(records@)),
            records@.len() as int,
        ),
        line_feeds(r@) == records@.len() + 1,
        reads_back(header(session_id@)),
        forall|k: int|
            0 <= k < records@.len() ==> reads_back(
                written(#[trigger] chronological(json_views(records@))[k]),
            ),
{
    let mut out = rebuild_header_line(session_id);
    let ghost head = out@;
    let ghost recs = json_views(records@);
    let ghost want = chronological(recs);
    let order = chronological_order(records);
    assert(numbers(order@).len() == order@.len());
    let mut i: usize = 0;
    assert(out@ =~= head + record_lines(want, 0));
    while i < order.len()
        invariant
            i <= order@.len(),
            order@.len() == records@.len(),
            recs == json_views(records@),
            want == chronological(recs),
            want.len() == order@.len(),
            numbers(order@) == ranked(ages(recs), recs.len()),
            forall|k: int| 0 <= k < order@.len() ==> #[trigger] order@[k] < records@.len(),
            out@ == head + record_lines(want, i as int),
            line_feeds(out@) == i + 1,
            forall|k: int| 0 <= k < i ==> reads_back(written(#[trigger] want[k])),
        decreases order@.len() - i,
    {
        let at: usize = order[i];
        assert(numbers(order@)[i as int] == at);
        assert(want[i as int] == records@[at as int]@);
        let line = rebuild_record_line(&records[at]);
        proof {
            lemma_line_feeds_add(out@, line@);
        }
        out.append(line.as_str());
        assert(out@ =~= head + record_lines(want, i + 1));
        i = i + 1;
    }
    out
}

/// The earliest position among the first `n` records.
pub open spec fn earliest(recs: Seq<JsonView>, n: int) -> Option<u64>
    decreases n,
{
    if n <= 0 {
        None
    } else {
        match (earliest(recs, n - 1), record_seq(recs[n - 1])) {
            (Some(a), Some(b)) => Some(
                if b < a {
                    b
                } else {
                    a
                },
            ),
            (Some(a), None) => Some(a),
            (None, x) => x,
        }
    }
}

/// Where the next page ends, and whether there is none: the last page, an
/// empty one, one without positions, one that does not go back, or too many.
pub open spec fn next_cursor(
    before_seq: Option<u64>,
    recs: Seq<JsonView>,
    has_more: bool,
    pages_seen: u64,
    max_pages: u64,
) -> (Option<u64>, bool) {
    let low = earliest(recs, recs.len() as int);
    if !has_more || recs.len() == 0 || pages_seen >= max_pages || low is None || (before_seq is Some
        && low->0 >= before_seq->0) {
        (None, true)
    } else {
        (low, false)
    }
}

/// Where the next page ends, and whether there is none.
pub fn rebuild_next_cursor(
    before_seq: Option<u64>,
    records: &Vec<Json>,
    has_more: bool,
    pages_seen: u64,
    max_pages: u64,
) -> (r: (Option<u64>, bool))
    ensures
        r == next_cursor(before_seq, json_views(records@), has_more, pages_seen, max_pages),
{
    let ghost recs = json_views(records@);
    let mut low: Option<u64> = None;
    let mut i: usize = 0;
    while i < records.len()
        invariant
            i <= records@.len(),
            recs == json_views(records@),
            low == earliest(recs, i as int),
        decreases records@.len() - i,
    {
        assert(recs[i as int] == records@[i as int]@);
        let seq = rebuild_record_seq(&records[i]);
        low = match (low, seq) {
            (Some(a), Some(b)) => if b < a {
                Some(b)
            } else {
                Some(a)
            },
            (Some(a), None) => Some(a),
            (None, x) => x,
        };
        i = i + 1;
    }
    if !has_more || records.len() == 0 || pages_seen >= max_pages {
        return (None, true);
    }
    match low {
        None => (None, true),
        Some(m) => match before_seq {
            Some(b) => if m >= b {
                (None, true)
            } else {
                (Some(m), false)
            },
            None => (Some(m), false),
        },
    }
}

/// Where the walk over the pages goes on, it goes back, and leaves out no
/// record of the page: none is earlier than where the next page ends.
pub proof fn law_walk_goes_back(
    before_seq: Option<u64>,
    recs: Seq<JsonView>,
    has_more: bool,
    pages_seen: u64,
    max_pages: u64,
    i: int,
)
    requires
        0 <= i < recs.len(),
    ensures
        ({
            let (next, stop) = next_cursor(before_seq, recs, has_more, pages_seen, max_pages);
            &&& stop <==> next is None
            &&& !stop ==> {
                &&& pages_seen < max_pages
                &&& before_seq is Some ==> next->0 < before_seq->0
                &&& record_seq(recs[i]) is Some ==> next->0 <= record_seq(recs[i])->0
            }
        }),
{
    lemma_earliest(recs, recs.len() as int, i);
}

proof fn lemma_earliest(recs: Seq<JsonView>, n: int, i: int)
    requires
        0 <= i < n <= recs.len(),
    ensures
        record_seq(recs[i]) is Some ==> earliest(recs, n) is Some && earliest(recs, n)->0
            <= record_seq(recs[i])->0,
    decreases n,
{
    if i < n - 1 {
        lemma_earliest(recs, n - 1, i);
    }
}

/// Records in order keep their number, and a record never stands behind one
/// with a later position.
pub proof fn law_chronological(recs: Seq<JsonView>, i: int, j: int)
    requires
        0 <= i < j < recs.len(),
    ensures
        chronological(recs).len() == recs.len(),
        ({
            let a = record_seq(chronological(recs)[i]);
            let b = record_seq(chronological(recs)[j]);
            a is Some ==> b is Some && a->0 <= b->0
        }),
{
    let keys = ages(recs);
    let n = recs.len();
    law_full_ranking(keys, n);
    law_ranking_is_stable(keys, n);
    let r = ranked(keys, n);
    assert(stands_before(keys, r[i], r[j]));
    assert(keys[r[i]] == age(recs[r[i]]));
    assert(keys[r[j]] == age(recs[r[j]]));
}

/// One export is under way at a time: a download is not started again, nor is
/// writing down the records, and no download is started over it. One that
/// failed can be started, by either way.
pub proof fn law_one_export_at_a_time(s: ExportState, code: String)
    requires
        can_export(s),
    ensures
        download_begun(download_begun(s).0) == (download_begun(s).0, false),
        rebuild_begun(rebuild_begun(s).0) == (rebuild_begun(s).0, false),
        download_begun(rebuild_begun(s).0) == (rebuild_begun(s).0, false),
        download_begun(export_failed(s, code)).1,
        rebuild_begun(export_failed(s, code)).1,
{
}

/// Without a session and a path nothing starts.
pub proof fn law_nothing_is_exported_to_nowhere(s: ExportState)
    requires
        !can_export(s),
    ensures
        download_begun(s) == (s, false),
        rebuild_begun(s) == (s, false),
{
}

proof fn lemma_with_entry_get(
    es: Seq<(Seq<char>, JsonView)>,
    k: Seq<char>,
    v: JsonView,
    q: Seq<char>,
)
    ensures
        lookup(with_entry(es, k, v), q) == if q == k {
            Some(v)
        } else {
            lookup(es, q)
        },
{
    let out = with_entry(es, k, v);
    let at = lemma_first_key(es, k);
    let b = lemma_first_key(es, q);
    if q == k {
        lemma_key_index(out, k, at);
    } else {
        assert forall|j: int| 0 <= j < b implies (#[trigger] out[j]).0 != q by {
            if j < es.len() && j != at {
                assert(out[j] == es[j]);
            }
        }
        if b < es.len() {
            assert(out[b] == es[b]);
            lemma_key_index(out, q, b);
        } else if at < es.len() {
            lemma_key_index(out, q, b);
        } else {
            assert forall|j: int| 0 <= j < out.len() implies (#[trigger] out[j]).0 != q by {
                if j < es.len() {
                    assert(out[j] == es[j]);
                }
            }
            lemma_key_index(out, q, out.len() as int);
        }
    }
}

/// Where the first member under a key is.
proof fn lemma_first_key(es: Seq<(Seq<char>, JsonView)>, k: Seq<char>) -> (i: int)
    ensures
        0 <= i <= es.len(),
        i == key_index(es, k),
        forall|j: int| 0 <= j < i ==> (#[trigger] es[j]).0 != k,
        i < es.len() ==> es[i].0 == k,
    decreases es.len(),
{
    if es.len() == 0 || es[0].0 == k {
        0
    } else {
        let rest = es.skip(1);
        let i = lemma_first_key(rest, k);
        assert forall|j: int| 0 <= j < i + 1 implies (#[trigger] es[j]).0 != k by {
            if j > 0 {
                assert(rest[j - 1] == es[j]);
            }
        }
        i + 1
    }
}

proof fn lemma_without_entry_get(
    es: Seq<(Seq<char>, JsonView)>,
    k: Seq<char>,
    n: int,
    q: Seq<char>,
)
    requires
        0 <= n <= es.len(),
    ensures
        lookup(without_entry(es, k, n), q) == if q == k {
            None
        } else {
            lookup(es.take(n), q)
        },
    decreases n,
{
    if n > 0 {
        lemma_without_entry_get(es, k, n - 1, q);
        let before = without_entry(es, k, n - 1);
        let last = es[n - 1];
        let front = es.take(n - 1);
        assert(es.take(n) =~= front.push(last));
        lemma_push_get(front, last, q);
        lemma_push_get(before, last, q);
    } else {
        assert(es.take(0) =~= Seq::<(Seq<char>, JsonView)>::empty());
    }
}

/// A member behind the others is found where no other has its key.
proof fn lemma_push_get(es: Seq<(Seq<char>, JsonView)>, e: (Seq<char>, JsonView), q: Seq<char>)
    ensures
        lookup(es.push(e), q) == if lookup(es, q) is Some {
            lookup(es, q)
        } else if e.0 == q {
            Some(e.1)
        } else {
            None
        },
{
    let out = es.push(e);
    let b = lemma_first_key(es, q);
    assert forall|j: int| 0 <= j < b implies (#[trigger] out[j]).0 != q by {
        assert(out[j] == es[j]);
    }
    if b < es.len() {
        lemma_key_index(out, q, b);
    } else if e.0 == q {
        lemma_key_index(out, q, b);
    } else {
        lemma_key_index(out, q, out.len() as int);
    }
}

/// What stands under the old name stands under the new one, nothing stands
/// under the old one any more, and every other member is as it was.
pub proof fn law_renaming_moves_one_member(
    es: Seq<(Seq<char>, JsonView)>,
    from: Seq<char>,
    to: Seq<char>,
    q: Seq<char>,
)
    requires
        from != to,
    ensures
        lookup(es, from) is None ==> renamed(es, from, to) == es,
        lookup(es, from) is Some ==> {
            &&& lookup(renamed(es, from, to), to) == lookup(es, from)
            &&& lookup(renamed(es, from, to), from) is None
            &&& q != from && q != to ==> lookup(renamed(es, from, to), q) == lookup(es, q)
        },
{
    if let Some(v) = lookup(es, from) {
        let rest = without_entry(es, from, es.len() as int);
        assert(es.take(es.len() as int) =~= es);
        lemma_with_entry_get(rest, to, v, to);
        lemma_with_entry_get(rest, to, v, from);
        lemma_with_entry_get(rest, to, v, q);
        lemma_without_entry_get(es, from, es.len() as int, from);
        lemma_without_entry_get(es, from, es.len() as int, q);
    }
}

/// What is written of the record of an event is the event itself, unless it is
/// a row of chunks; a record that wraps nothing is written as it is.
pub proof fn law_events_are_written_as_they_are(rec: JsonView, e: JsonView)
    ensures
        (rec.str_at("type"@) == Some("event"@) || rec.str_at("type"@) == Some("chunks"@))
            && rec.get("event"@) == Some(e) && !(e.str_at("type"@) is Some && has_prefix(
            e.str_at("type"@)->0,
            "chunkrow/"@,
        )) ==> written(rec) == e,
        rec.str_at("type"@) != Some("event"@) && rec.str_at("type"@) != Some("chunks"@) && !(
        rec.str_at("type"@) is Some && has_prefix(rec.str_at("type"@)->0, "chunkrow/"@))
            ==> written(rec) == rec,
{
}

/// A row of chunks is written under the type without its prefix, with its first
/// position and time under the names of a log; every other member stays.
pub proof fn law_chunk_rows_are_written_as_in_a_log(e: JsonView, kind: Seq<char>, q: Seq<char>)
    requires
        e.str_at("type"@) == Some("chunkrow/"@ + kind),
    ensures
        written(e).get("type"@) == Some(JsonView::Str(kind)),
        e.get("seq"@) is Some ==> written(e).get("seq0"@) == e.get("seq"@) && written(e).get(
            "seq"@,
        ) is None,
        e.get("time"@) is Some ==> written(e).get("time0"@) == e.get("time"@) && written(e).get(
            "time"@,
        ) is None,
        q != "type"@ && q != "seq"@ && q != "seq0"@ && q != "time"@ && q != "time0"@
            ==> written(e).get(q) == e.get(q),
{
    let t = "chunkrow/"@ + kind;
    reveal_strlit("chunkrow/");
    reveal_strlit("event");
    reveal_strlit("chunks");
    reveal_strlit("type");
    reveal_strlit("seq");
    reveal_strlit("seq0");
    reveal_strlit("time");
    reveal_strlit("time0");
    assert("event"@.len() == 5 && "chunks"@.len() == 6 && "chunkrow/"@.len() == 9);
    assert("type"@.len() == 4 && "seq"@.len() == 3 && "seq0"@.len() == 4 && "time"@.len() == 4
        && "time0"@.len() == 5);
    assert("type"@[1] == 'y' && "time"@[1] == 'i' && "seq0"@[1] == 'e');
    law_parts_of_texts(t, "chunkrow/"@, kind, kind);
    assert(t.skip("chunkrow/"@.len() as int) =~= kind);
    let es = e->Object_0;
    let typed = with_entry(es, "type"@, JsonView::Str(kind));
    let one = renamed(typed, "seq"@, "seq0"@);
    lemma_with_entry_get(es, "type"@, JsonView::Str(kind), "type"@);
    lemma_with_entry_get(es, "type"@, JsonView::Str(kind), "seq"@);
    lemma_with_entry_get(es, "type"@, JsonView::Str(kind), "time"@);
    lemma_with_entry_get(es, "type"@, JsonView::Str(kind), q);
    law_renaming_moves_one_member(typed, "seq"@, "seq0"@, "type"@);
    law_renaming_moves_one_member(typed, "seq"@, "seq0"@, "time"@);
    law_renaming_moves_one_member(typed, "seq"@, "seq0"@, q);
    law_renaming_moves_one_member(one, "time"@, "time0"@, "type"@);
    law_renaming_moves_one_member(one, "time"@, "time0"@, "seq"@);
    law_renaming_moves_one_member(one, "time"@, "time0"@, "seq0"@);
    law_renaming_moves_one_member(one, "time"@, "time0"@, q);
}

/// Putting records in order loses none and makes none up.
pub proof fn law_ordering_keeps_every_record(recs: Seq<JsonView>)
    ensures
        chronological(recs).len() == recs.len(),
        forall|i: int|
            0 <= i < recs.len() ==> chronological(recs).contains(#[trigger] recs[i]),
        forall|k: int|
            0 <= k < recs.len() ==> recs.contains(#[trigger] chronological(recs)[k]),
{
    let keys = ages(recs);
    let order = ranked(keys, recs.len());
    assert forall|k: int| 0 <= k < recs.len() implies #[trigger] keys[k] is Some by {}
    law_full_ranking(keys, recs.len());
    law_ranking_is_stable(keys, recs.len());
    let out = chronological(recs);
    assert forall|i: int| 0 <= i < recs.len() implies out.contains(#[trigger] recs[i]) by {
        assert(keys[i] is Some);
        assert(order.contains(i));
        let k = choose|k: int| 0 <= k < order.len() && order[k] == i;
        assert(out[k] == recs[i]);
    }
    assert forall|k: int| 0 <= k < recs.len() implies recs.contains(#[trigger] out[k]) by {
        assert(0 <= order[k] < recs.len());
        assert(out[k] == recs[order[k]]);
    }
}

/// The position of a record is that of its event, or its own without one.
pub proof fn law_records_have_the_position_of_their_event(rec: JsonView, e: JsonView, n: u64)
    ensures
        rec.get("event"@) == Some(e) && e.u64_at("seq"@) == Some(n) ==> record_seq(rec) == Some(
            n,
        ),
        rec.get("event"@) is None && rec.u64_at("seq"@) == Some(n) ==> record_seq(rec) == Some(n),
{
}

/// The walk over the pages goes on as long as it can: while there is more, not
/// too many pages were seen, and the page holds a record from before where it
/// ended.
pub proof fn law_walk_goes_on(
    before_seq: Option<u64>,
    recs: Seq<JsonView>,
    pages_seen: u64,
    max_pages: u64,
    i: int,
)
    requires
        0 <= i < recs.len(),
        pages_seen < max_pages,
        record_seq(recs[i]) is Some,
        before_seq is Some ==> record_seq(recs[i])->0 < before_seq->0,
    ensures
        !next_cursor(before_seq, recs, true, pages_seen, max_pages).1,
        exists|k: int|
            0 <= k < recs.len() && record_seq(#[trigger] recs[k]) == next_cursor(
                before_seq,
                recs,
                true,
                pages_seen,
                max_pages,
            ).0,
        next_cursor(before_seq, recs, false, pages_seen, max_pages).1,
{
    lemma_earliest(recs, recs.len() as int, i);
    lemma_earliest_is_one(recs, recs.len() as int);
}

proof fn lemma_earliest_is_one(recs: Seq<JsonView>, n: int)
    requires
        0 <= n <= recs.len(),
    ensures
        earliest(recs, n) is Some ==> exists|k: int|
            0 <= k < n && record_seq(#[trigger] recs[k]) == earliest(recs, n),
    decreases n,
{
    if n > 0 {
        lemma_earliest_is_one(recs, n - 1);
        if earliest(recs, n) == record_seq(recs[n - 1]) {
            assert(record_seq(recs[n - 1]) == earliest(recs, n));
        } else if earliest(recs, n) is Some {
            let k = choose|k: int|
                0 <= k < n - 1 && record_seq(#[trigger] recs[k]) == earliest(recs, n - 1);
            assert(record_seq(recs[k]) == earliest(recs, n));
        }
    }
}

/// An export starts where there is a session and a path that is not blank: it
/// counts from nothing, forgets earlier failures, and keeps session and path.
pub proof fn law_exports_start_afresh(s: ExportState, k: int)
    requires
        s.session_id is Some,
        s.session_id->0@.len() > 0,
        0 <= k < s.path@.len(),
        !whitespace(s.path@[k]),
    ensures
        s.phase != ExportPhase::Downloading && s.phase != ExportPhase::Rebuilding ==> {
            let (d, begun) = download_begun(s);
            &&& begun
            &&& d.phase == ExportPhase::Downloading
            &&& d.bytes_streamed == 0
            &&& !d.cancelled
            &&& d.last_error_code is None
            &&& d.session_id == s.session_id && d.path == s.path && d.visible == s.visible
        },
        s.phase != ExportPhase::Rebuilding ==> {
            let (r, begun) = rebuild_begun(s);
            &&& begun
            &&& r.phase == ExportPhase::Rebuilding
            &&& r.records_collected == 0
            &&& !r.cancelled
            &&& r.last_error_code is None
            &&& r.session_id == s.session_id && r.path == s.path && r.visible == s.visible
        },
{
    law_blank_texts_are_whitespace(s.path@);
}

/// A failure is kept with its code, and nothing else of the export changes.
pub proof fn law_failed_exports_say_why(s: ExportState, code: String)
    ensures
        export_failed(s, code).phase == ExportPhase::Failed,
        export_failed(s, code).last_error_code == Some(code),
        export_failed(s, code).path == s.path,
        export_failed(s, code).session_id == s.session_id,
        export_failed(s, code).records_collected == s.records_collected,
        export_failed(s, code).bytes_streamed == s.bytes_streamed,
{
}

/// The first line of an export names the session, under the type `session`.
pub proof fn law_header_names_the_session(id: Seq<char>)
    ensures
        header(id).str_at("id"@) == Some(id),
        header(id).str_at("type"@) == Some("session"@),
{
    reveal_strlit("type");
    reveal_strlit("version");
    reveal_strlit("id");
    assert("type"@.len() == 4 && "version"@.len() == 7 && "id"@.len() == 2);
    lemma_key_index(header(id)->Object_0, "type"@, 0);
    lemma_key_index(header(id)->Object_0, "id"@, 2);
}

/// Every record has its line, one behind the other: that of one more record
/// stands behind the lines before it and ends with a line feed.
pub proof fn law_records_have_their_lines(recs: Seq<JsonView>, n: int)
    requires
        0 <= n < recs.len(),
    ensures
        record_lines(recs, 0).len() == 0,
        record_lines(recs, n).is_prefix_of(record_lines(recs, n + 1)),
        record_lines(recs, n + 1).last() == '\n',
        json_compact(written(recs[n])) is Some ==> record_lines(recs, n + 1) == record_lines(
            recs,
            n,
        ) + json_compact(written(recs[n]))->0 + seq!['\n'],
{
    let line = line_of(json_compact(written(recs[n])));
    assert(record_lines(recs, n + 1) == record_lines(recs, n) + line);
    assert(record_lines(recs, n) =~= record_lines(recs, n + 1).take(
        record_lines(recs, n).len() as int,
    ));
    if let Some(t) = json_compact(written(recs[n])) {
        assert(record_lines(recs, n) + t + seq!['\n'] =~= record_lines(recs, n) + t.push('\n'));
    }
}

} // verus!
