//! JSON values as the model layer reads them, and the calls into `serde_json`
//! that turn them into text and back.

use serde_json::Value;
use vstd::prelude::*;

use crate::text::same;

verus! {

/// A JSON number.
#[derive(Debug, PartialEq, Eq)]
pub enum Num {
    /// A non-negative integer.
    Unsigned(u64),
    /// A negative integer.
    Negative(i64),
    /// Anything else, in the notation of `serde_json`.
    Decimal(String),
}

/// A JSON value. Entries of an object keep their order; of two entries with
/// one key the first counts.
#[derive(Debug, PartialEq, Eq)]
pub enum Json {
    Null,
    Bool(bool),
    Number(Num),
    Str(String),
    Array(Vec<Json>),
    Object(Vec<(String, Json)>),
}

/// The mathematical number.
pub enum NumView {
    Unsigned(u64),
    Negative(i64),
    Decimal(Seq<char>),
}

/// The mathematical JSON value.
#[verifier::ext_equal]
pub enum JsonView {
    Null,
    Bool(bool),
    Number(NumView),
    Str(Seq<char>),
    Array(Seq<JsonView>),
    Object(Seq<(Seq<char>, JsonView)>),
}

impl View for Num {
    type V = NumView;

    open spec fn view(&self) -> NumView {
        match *self {
            Num::Unsigned(n) => NumView::Unsigned(n),
            Num::Negative(n) => NumView::Negative(n),
            Num::Decimal(t) => NumView::Decimal(t@),
        }
    }
}

/// The view of a JSON value.
pub open spec fn json_view(j: Json) -> JsonView
    decreases j,
{
    match j {
        Json::Null => JsonView::Null,
        Json::Bool(b) => JsonView::Bool(b),
        Json::Number(n) => JsonView::Number(n@),
        Json::Str(s) => JsonView::Str(s@),
        Json::Array(items) => JsonView::Array(
            Seq::new(
                items@.len(),
                |i: int|
                    if 0 <= i < items@.len() {
                        json_view(items@[i])
                    } else {
                        JsonView::Null
                    },
            ),
        ),
        Json::Object(entries) => JsonView::Object(
            Seq::new(
                entries@.len(),
                |i: int|
                    if 0 <= i < entries@.len() {
                        (entries@[i].0@, json_view(entries@[i].1))
                    } else {
                        (Seq::<char>::empty(), JsonView::Null)
                    },
            ),
        ),
    }
}

impl View for Json {
    type V = JsonView;

    open spec fn view(&self) -> JsonView {
        json_view(*self)
    }
}

/// Index of the first entry of `entries` under `key`, or the number of entries.
pub open spec fn key_index(entries: Seq<(Seq<char>, JsonView)>, key: Seq<char>) -> int
    decreases entries.len(),
{
    if entries.len() == 0 || entries[0].0 == key {
        0
    } else {
        1 + key_index(entries.skip(1), key)
    }
}

/// The value of the first entry of `entries` under `key`.
pub open spec fn lookup(entries: Seq<(Seq<char>, JsonView)>, key: Seq<char>) -> Option<JsonView> {
    let i = key_index(entries, key);
    if 0 <= i < entries.len() {
        Some(entries[i].1)
    } else {
        None
    }
}

/// `i` is the first index under `key`, or the end, where no earlier entry has it.
pub proof fn lemma_key_index(entries: Seq<(Seq<char>, JsonView)>, key: Seq<char>, i: int)
    requires
        0 <= i <= entries.len(),
        i < entries.len() ==> entries[i].0 == key,
        forall|j: int| 0 <= j < i ==> (#[trigger] entries[j]).0 != key,
    ensures
        key_index(entries, key) == i,
    decreases i,
{
    if i > 0 {
        assert(entries[0].0 != key);
        assert forall|j: int| 0 <= j < i - 1 implies (#[trigger] entries.skip(1)[j]).0 != key by {
            assert(entries.skip(1)[j] == entries[j + 1]);
        }
        lemma_key_index(entries.skip(1), key, i - 1);
    }
}

impl JsonView {
    /// The member of an object under `key`.
    pub open spec fn get(self, key: Seq<char>) -> Option<JsonView> {
        match self {
            JsonView::Object(entries) => lookup(entries, key),
            _ => None,
        }
    }

    /// The text of a string value.
    pub open spec fn as_str(self) -> Option<Seq<char>> {
        match self {
            JsonView::Str(s) => Some(s),
            _ => None,
        }
    }

    /// The value of a boolean.
    pub open spec fn as_bool(self) -> Option<bool> {
        match self {
            JsonView::Bool(b) => Some(b),
            _ => None,
        }
    }

    /// The value of a non-negative integer.
    pub open spec fn as_u64(self) -> Option<u64> {
        match self {
            JsonView::Number(NumView::Unsigned(n)) => Some(n),
            _ => None,
        }
    }

    /// The value of an integer that fits 64 signed bits.
    pub open spec fn as_i64(self) -> Option<i64> {
        match self {
            JsonView::Number(NumView::Unsigned(n)) => if n <= i64::MAX {
                Some(n as i64)
            } else {
                None
            },
            JsonView::Number(NumView::Negative(n)) => Some(n),
            _ => None,
        }
    }

    /// The text found under `key`.
    pub open spec fn str_at(self, key: Seq<char>) -> Option<Seq<char>> {
        match self.get(key) {
            Some(v) => v.as_str(),
            None => None,
        }
    }

    /// The text found under `key`, where it is not empty.
    pub open spec fn text_at(self, key: Seq<char>) -> Option<Seq<char>> {
        match self.str_at(key) {
            Some(t) => if t.len() > 0 {
                Some(t)
            } else {
                None
            },
            None => None,
        }
    }

    /// The non-negative integer found under `key`.
    pub open spec fn u64_at(self, key: Seq<char>) -> Option<u64> {
        match self.get(key) {
            Some(v) => v.as_u64(),
            None => None,
        }
    }

    /// The integer found under `key`.
    pub open spec fn i64_at(self, key: Seq<char>) -> Option<i64> {
        match self.get(key) {
            Some(v) => v.as_i64(),
            None => None,
        }
    }

    /// The boolean found under `key`.
    pub open spec fn bool_at(self, key: Seq<char>) -> Option<bool> {
        match self.get(key) {
            Some(v) => v.as_bool(),
            None => None,
        }
    }
}

/// A member of an object is smaller than the object.
pub proof fn lemma_member_smaller(v: JsonView, key: Seq<char>)
    requires
        v.get(key) is Some,
    ensures
        decreases_to!(v => v.get(key)->0),
{
    let entries = v->Object_0;
    let i = key_index(entries, key);
    assert(decreases_to!(v => entries));
    assert(decreases_to!(entries => entries[i]));
    assert(decreases_to!(entries[i] => entries[i].1));
}

/// The view of an optional value.
pub open spec fn opt_json(o: Option<Json>) -> Option<JsonView> {
    match o {
        Some(v) => Some(v@),
        None => None,
    }
}

/// The view of an optional borrowed value.
pub open spec fn opt_json_ref(o: Option<&Json>) -> Option<JsonView> {
    match o {
        Some(v) => Some(v@),
        None => None,
    }
}

impl Num {
    /// A copy of the number.
    pub fn dup(&self) -> (r: Num)
        ensures
            r@ == self@,
    {
        match self {
            Num::Unsigned(n) => Num::Unsigned(*n),
            Num::Negative(n) => Num::Negative(*n),
            Num::Decimal(t) => Num::Decimal(t.clone()),
        }
    }
}

impl Json {
    /// A deep copy of the value.
    pub fn dup(&self) -> (r: Json)
        ensures
            r@ == self@,
        decreases *self,
    {
        match self {
            Json::Null => Json::Null,
            Json::Bool(b) => Json::Bool(*b),
            Json::Number(n) => Json::Number(n.dup()),
            Json::Str(s) => Json::Str(s.clone()),
            Json::Array(items) => {
                let mut out: Vec<Json> = Vec::new();
                let mut i: usize = 0;
                while i < items.len()
                    invariant
                        i <= items@.len(),
                        out@.len() == i,
                        *self == Json::Array(*items),
                        forall|k: int| 0 <= k < i ==> (#[trigger] out@[k])@ == items@[k]@,
                    decreases items@.len() - i,
                {
                    assert(decreases_to!(*self => self->Array_0));
                    assert(decreases_to!(*items => items[i as int]));
                    out.push(items[i].dup());
                    i = i + 1;
                }
                let r = Json::Array(out);
                assert(r@->Array_0 =~= self@->Array_0);
                r
            },
            Json::Object(entries) => {
                let mut out: Vec<(String, Json)> = Vec::new();
                let mut i: usize = 0;
                while i < entries.len()
                    invariant
                        i <= entries@.len(),
                        out@.len() == i,
                        *self == Json::Object(*entries),
                        forall|k: int| 0 <= k < i ==> (#[trigger] out@[k]).0@ == entries@[k].0@,
                        forall|k: int| 0 <= k < i ==> (#[trigger] out@[k]).1@ == entries@[k].1@,
                    decreases entries@.len() - i,
                {
                    let entry = &entries[i];
                    assert(decreases_to!(*self => self->Object_0));
                    assert(decreases_to!(*entries => entries[i as int]));
                    assert(decreases_to!(entries[i as int] => entries[i as int].1));
                    out.push((entry.0.clone(), entry.1.dup()));
                    i = i + 1;
                }
                let r = Json::Object(out);
                assert(r@->Object_0 =~= self@->Object_0);
                r
            },
        }
    }

    /// The member of an object under `key`.
    pub fn get(&self, key: &str) -> (r: Option<&Json>)
        ensures
            opt_json_ref(r) == self@.get(key@),
    {
        match self {
            Json::Object(entries) => {
                let ghost view = self@->Object_0;
                let mut i: usize = 0;
                while i < entries.len()
                    invariant
                        i <= entries@.len(),
                        *self == Json::Object(*entries),
                        view == self@->Object_0,
                        view.len() == entries@.len(),
                        forall|j: int| 0 <= j < i ==> (#[trigger] view[j]).0 != key@,
                    decreases entries@.len() - i,
                {
                    let entry = &entries[i];
                    if same(entry.0.as_str(), key) {
                        proof {
                            lemma_key_index(view, key@, i as int);
                        }
                        return Some(&entry.1);
                    }
                    i = i + 1;
                }
                proof {
                    lemma_key_index(view, key@, i as int);
                }
                None
            },
            _ => None,
        }
    }

    /// The text of a string value.
    pub fn as_str(&self) -> (r: Option<&str>)
        ensures
            crate::text::opt_str(r) == self@.as_str(),
    {
        match self {
            Json::Str(s) => Some(s.as_str()),
            _ => None,
        }
    }

    /// The value of a boolean.
    pub fn as_bool(&self) -> (r: Option<bool>)
        ensures
            r == self@.as_bool(),
    {
        match self {
            Json::Bool(b) => Some(*b),
            _ => None,
        }
    }

    /// The value of a non-negative integer.
    pub fn as_u64(&self) -> (r: Option<u64>)
        ensures
            r == self@.as_u64(),
    {
        match self {
            Json::Number(Num::Unsigned(n)) => Some(*n),
            _ => None,
        }
    }

    /// The value of an integer that fits 64 signed bits.
    pub fn as_i64(&self) -> (r: Option<i64>)
        ensures
            r == self@.as_i64(),
    {
        match self {
            Json::Number(Num::Unsigned(n)) => if *n <= i64::MAX as u64 {
                Some(*n as i64)
            } else {
                None
            },
            Json::Number(Num::Negative(n)) => Some(*n),
            _ => None,
        }
    }

    /// The text found under `key`.
    pub fn str_at(&self, key: &str) -> (r: Option<&str>)
        ensures
            crate::text::opt_str(r) == self@.str_at(key@),
    {
        match self.get(key) {
            Some(v) => v.as_str(),
            None => None,
        }
    }

    /// The text found under `key`, as a string of its own.
    pub fn string_at(&self, key: &str) -> (r: Option<String>)
        ensures
            crate::text::opt_text(r) == self@.str_at(key@),
    {
        match self.str_at(key) {
            Some(t) => Some(t.to_owned()),
            None => None,
        }
    }

    /// The text found under `key`, where it is not empty.
    pub fn text_at(&self, key: &str) -> (r: Option<String>)
        ensures
            crate::text::opt_text(r) == self@.text_at(key@),
    {
        match self.str_at(key) {
            Some(t) => if t.is_empty() {
                None
            } else {
                Some(t.to_owned())
            },
            None => None,
        }
    }

    /// The non-negative integer found under `key`.
    pub fn u64_at(&self, key: &str) -> (r: Option<u64>)
        ensures
            r == self@.u64_at(key@),
    {
        match self.get(key) {
            Some(v) => v.as_u64(),
            None => None,
        }
    }

    /// The integer found under `key`.
    pub fn i64_at(&self, key: &str) -> (r: Option<i64>)
        ensures
            r == self@.i64_at(key@),
    {
        match self.get(key) {
            Some(v) => v.as_i64(),
            None => None,
        }
    }

    /// The boolean found under `key`.
    pub fn bool_at(&self, key: &str) -> (r: Option<bool>)
        ensures
            r == self@.bool_at(key@),
    {
        match self.get(key) {
            Some(v) => v.as_bool(),
            None => None,
        }
    }
}

impl Clone for Num {
    fn clone(&self) -> (r: Self)
        ensures
            r@ == self@,
    {
        self.dup()
    }
}

impl Clone for Json {
    fn clone(&self) -> (r: Self)
        ensures
            r@ == self@,
    {
        self.dup()
    }
}

/// The contents of the members of an object.
pub open spec fn entry_views(es: Seq<(String, Json)>) -> Seq<(Seq<char>, JsonView)> {
    es.map_values(|e: (String, Json)| (e.0@, e.1@))
}

/// The contents of values.
pub open spec fn json_views(v: Seq<Json>) -> Seq<JsonView> {
    v.map_values(|j: Json| j@)
}

/// The contents of an object are those of its members.
pub proof fn lemma_object_view(es: Vec<(String, Json)>)
    ensures
        Json::Object(es)@ == JsonView::Object(entry_views(es@)),
{
    assert(Json::Object(es)@->Object_0 =~= entry_views(es@));
}

/// A copy of an optional value.
pub fn dup_opt(o: &Option<Json>) -> (r: Option<Json>)
    ensures
        opt_json(r) == opt_json(*o),
{
    match o {
        Some(v) => Some(v.dup()),
        None => None,
    }
}

/// `serde_json::Value`, carried between the calls below.
#[verifier::external_type_specification]
#[verifier::external_body]
pub struct ExValue(serde_json::Value);

/// A `serde_json::Value` with the contents of `j`. Of entries with one key the
/// first is kept, by handing the entries to the map in reverse order.
#[verifier::external_body]
fn to_value(j: &Json) -> Value {
    match j {
        Json::Null => Value::Null,
        Json::Bool(b) => Value::Bool(*b),
        Json::Number(Num::Unsigned(n)) => Value::from(*n),
        Json::Number(Num::Negative(n)) => Value::from(*n),
        Json::Number(Num::Decimal(t)) => t.parse().map_or(Value::Null, Value::Number),
        Json::Str(s) => Value::String(s.clone()),
        Json::Array(items) => Value::Array(items.iter().map(to_value).collect()),
        Json::Object(es) => es.iter().rev().map(|e| (e.0.clone(), to_value(&e.1))).collect(),
    }
}

/// The contents of a `serde_json::Value`, entries in the order of its map.
#[verifier::external_body]
fn from_value(v: &Value) -> Json {
    match v {
        Value::Null => Json::Null,
        Value::Bool(b) => Json::Bool(*b),
        Value::Number(n) => Json::Number(
            n.as_u64().map(Num::Unsigned).or(n.as_i64().map(Num::Negative)).unwrap_or(
                Num::Decimal(n.to_string()),
            ),
        ),
        Value::String(s) => Json::Str(s.clone()),
        Value::Array(a) => Json::Array(a.iter().map(from_value).collect()),
        Value::Object(o) => Json::Object(o.iter().map(|e| (e.0.clone(), from_value(e.1))).collect()),
    }
}

/// Whether a value has `depth` levels at most.
pub open spec fn within(v: JsonView, depth: nat) -> bool
    decreases v,
{
    match v {
        JsonView::Array(items) => depth > 0 && forall|i: int|
            0 <= i < items.len() ==> within(#[trigger] items[i], (depth - 1) as nat),
        JsonView::Object(es) => depth > 0 && forall|i: int|
            0 <= i < es.len() ==> within((#[trigger] es[i]).1, (depth - 1) as nat),
        _ => true,
    }
}

/// Whether a value can be read back from its text: its keys are distinct, its
/// negative integers are below 0, and it has `depth` levels at most.
pub open spec fn tidy(v: JsonView, depth: nat) -> bool
    decreases v,
{
    match v {
        JsonView::Number(NumView::Negative(n)) => n < 0,
        JsonView::Array(items) => depth > 0 && forall|i: int|
            0 <= i < items.len() ==> tidy(#[trigger] items[i], (depth - 1) as nat),
        JsonView::Object(es) => {
            &&& depth > 0
            &&& forall|i: int|
                0 <= i < es.len() ==> tidy((#[trigger] es[i]).1, (depth - 1) as nat)
            &&& forall|i: int, j: int|
                0 <= i < j < es.len() ==> (#[trigger] es[i]).0 != (#[trigger] es[j]).0
        },
        _ => true,
    }
}

/// Whether `a` is the same value as `b` but for the order in which objects name
/// their members and for decimals: where `b` has one, `a` has a number, or null.
pub open spec fn same_value(a: JsonView, b: JsonView) -> bool
    decreases a,
{
    match (a, b) {
        (_, JsonView::Number(NumView::Decimal(_))) => a is Number || a is Null,
        (JsonView::Array(x), JsonView::Array(y)) => x.len() == y.len() && forall|i: int|
            0 <= i < x.len() ==> same_value(#[trigger] x[i], y[i]),
        (JsonView::Object(x), JsonView::Object(y)) => x.len() == y.len() && forall|i: int|
            0 <= i < x.len() ==> exists|j: int|
                0 <= j < y.len() && (#[trigger] y[j]).0 == (#[trigger] x[i]).0 && same_value(
                    x[i].1,
                    y[j].1,
                ),
        _ => a == b,
    }
}

/// How many levels of a text `serde_json` reads.
pub const DEPTH_MAX: u8 = 127;

/// What `serde_json::to_string` returns on a value.
pub uninterp spec fn json_compact(v: JsonView) -> Option<Seq<char>>;

/// `serde_json::to_string`: the compact text of a value, or nothing where it
/// reports an error. The text itself is named, not restated. It is one line:
/// line feeds in texts are escaped, and none is put between members. What it
/// writes of a value with `DEPTH_MAX` levels at most, `serde_json::from_str`
/// accepts, and where keys are distinct it reads the same value. Of a decimal
/// only that it reads a number is claimed, or null where the decimal is no
/// number: reading rounds in the last place.
#[verifier::external_body]
pub(crate) fn compact(j: &Json) -> (r: Option<String>)
    ensures
        crate::text::opt_text(r) == json_compact(j@),
        r is Some ==> !r->0@.contains('\n'),
        within(j@, DEPTH_MAX as nat) ==> r is Some && json_parsed(r->0@) is Some,
        tidy(j@, DEPTH_MAX as nat) ==> r is Some && json_parsed(r->0@) is Some && same_value(
            json_parsed(r->0@)->0,
            j@,
        ),
{
    serde_json::to_string(&to_value(j)).ok()
}

/// What the `Display` impl of `serde_json::Value` writes.
pub uninterp spec fn json_display(v: JsonView) -> Seq<char>;

/// `to_string` of `serde_json::Value`: the text that its `Display` impl writes.
#[verifier::external_body]
pub(crate) fn display(j: &Json) -> (r: String)
    ensures
        r@ == json_display(j@),
{
    to_value(j).to_string()
}

/// What `serde_json::to_string_pretty` returns on a value.
pub uninterp spec fn json_pretty(v: JsonView) -> Option<Seq<char>>;

/// `serde_json::to_string_pretty`: the indented text of a value, or nothing
/// where it reports an error.
#[verifier::external_body]
pub(crate) fn pretty(j: &Json) -> (r: Option<String>)
    ensures
        crate::text::opt_text(r) == json_pretty(j@),
{
    serde_json::to_string_pretty(&to_value(j)).ok()
}

/// What `serde_json::from_str` reads out of a text.
pub uninterp spec fn json_parsed(text: Seq<char>) -> Option<JsonView>;

/// `serde_json::from_str` into a `serde_json::Value`: the value, or nothing
/// where the text is not one JSON value.
#[verifier::external_body]
fn parse_text(text: &str) -> (r: Option<Json>)
    ensures
        opt_json(r) == json_parsed(text@),
{
    serde_json::from_str::<serde_json::Value>(text).ok().map(|v| from_value(&v))
}

/// The JSON value that `text` denotes, where it denotes one.
pub fn parse(text: &str) -> (r: Option<Json>)
    ensures
        opt_json(r) == json_parsed(text@),
{
    parse_text(text)
}

/// A member is found under its key: it is the first entry with the key, and
/// there is none exactly where no entry has the key or the value is no object.
pub proof fn law_member_is_the_first_under_its_key(v: JsonView, key: Seq<char>, i: int)
    requires
        v is Object,
        0 <= i <= v->Object_0.len(),
        forall|j: int| 0 <= j < i ==> (#[trigger] v->Object_0[j]).0 != key,
        i < v->Object_0.len() ==> v->Object_0[i].0 == key,
    ensures
        i < v->Object_0.len() ==> v.get(key) == Some(v->Object_0[i].1),
        i == v->Object_0.len() ==> v.get(key) is None,
{
    lemma_key_index(v->Object_0, key, i);
}

/// What is read under a key is what stands there, where it is of the kind that
/// is asked for; a value without the member gives nothing.
pub proof fn law_members_are_read_as_they_are(v: JsonView, key: Seq<char>)
    ensures
        forall|t: Seq<char>|
            v.str_at(key) == Some(t) <==> v.get(key) == Some(JsonView::Str(t)),
        forall|t: Seq<char>|
            v.text_at(key) == Some(t) <==> v.get(key) == Some(JsonView::Str(t)) && t.len() > 0,
        forall|n: u64|
            v.u64_at(key) == Some(n) <==> v.get(key) == Some(
                JsonView::Number(NumView::Unsigned(n)),
            ),
        forall|b: bool| v.bool_at(key) == Some(b) <==> v.get(key) == Some(JsonView::Bool(b)),
        forall|n: u64|
            v.get(key) == Some(JsonView::Number(NumView::Unsigned(n))) && n <= i64::MAX
                ==> v.i64_at(key) is Some && v.i64_at(key)->0 == n,
        forall|n: i64|
            v.get(key) == Some(JsonView::Number(NumView::Negative(n))) ==> v.i64_at(key)
                == Some(n),
        !(v is Object) ==> v.get(key) is None,
{
}

} // verus!
