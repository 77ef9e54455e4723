//! TOML values, and the calls that read and write them.

use ::toml::Value;
use vstd::prelude::*;

use crate::text::{chars_of, same, sorts_before};

verus! {

/// A TOML value.
#[derive(Debug, PartialEq, Eq)]
pub enum Toml {
    Text(String),
    Integer(i64),
    /// A number with a fraction, as it is written.
    Real(String),
    Bool(bool),
    /// A date or time, as it is written.
    Date(String),
    Array(Vec<Toml>),
    /// Members in the order of their keys.
    Table(Vec<(String, Toml)>),
}

/// The contents of a TOML value.
#[verifier::ext_equal]
pub enum TomlView {
    Text(Seq<char>),
    Integer(i64),
    Real(Seq<char>),
    Bool(bool),
    Date(Seq<char>),
    Array(Seq<TomlView>),
    Table(Seq<(Seq<char>, TomlView)>),
}

/// The contents of a TOML value.
pub open spec fn toml_view(t: Toml) -> TomlView
    decreases t,
{
    match t {
        Toml::Text(s) => TomlView::Text(s@),
        Toml::Integer(n) => TomlView::Integer(n),
        Toml::Real(s) => TomlView::Real(s@),
        Toml::Bool(b) => TomlView::Bool(b),
        Toml::Date(s) => TomlView::Date(s@),
        Toml::Array(items) => TomlView::Array(
            Seq::new(
                items@.len(),
                |i: int|
                    if 0 <= i < items@.len() {
                        toml_view(items@[i])
                    } else {
                        TomlView::Bool(false)
                    },
            ),
        ),
        Toml::Table(es) => TomlView::Table(
            Seq::new(
                es@.len(),
                |i: int|
                    if 0 <= i < es@.len() {
                        (es@[i].0@, toml_view(es@[i].1))
                    } else {
                        (Seq::<char>::empty(), TomlView::Bool(false))
                    },
            ),
        ),
    }
}

impl View for Toml {
    type V = TomlView;

    open spec fn view(&self) -> TomlView {
        toml_view(*self)
    }
}

/// The contents of the members of a table.
pub open spec fn member_views(es: Seq<(String, Toml)>) -> Seq<(Seq<char>, TomlView)> {
    es.map_values(|e: (String, Toml)| (e.0@, e.1@))
}

/// The contents of a table are those of its members.
pub proof fn lemma_table_view(es: Vec<(String, Toml)>)
    ensures
        Toml::Table(es)@ == TomlView::Table(member_views(es@)),
{
    assert(Toml::Table(es)@->Table_0 =~= member_views(es@));
}

impl Toml {
    /// A copy of the value.
    pub fn dup(&self) -> (r: Toml)
        ensures
            r@ == self@,
        decreases *self,
    {
        match self {
            Toml::Text(s) => Toml::Text(s.clone()),
            Toml::Integer(n) => Toml::Integer(*n),
            Toml::Real(s) => Toml::Real(s.clone()),
            Toml::Bool(b) => Toml::Bool(*b),
            Toml::Date(s) => Toml::Date(s.clone()),
            Toml::Array(items) => {
                let mut out: Vec<Toml> = Vec::new();
                let mut i: usize = 0;
                while i < items.len()
                    invariant
                        i <= items@.len(),
                        out@.len() == i,
                        *self == Toml::Array(*items),
                        forall|k: int| 0 <= k < i ==> (#[trigger] out@[k])@ == items@[k]@,
                    decreases items@.len() - i,
                {
                    assert(decreases_to!(*self => self->Array_0));
                    assert(decreases_to!(*items => items[i as int]));
                    out.push(items[i].dup());
                    i = i + 1;
                }
                let r = Toml::Array(out);
                assert(r@->Array_0 =~= self@->Array_0);
                r
            },
            Toml::Table(es) => {
                let mut out: Vec<(String, Toml)> = Vec::new();
                let mut i: usize = 0;
                while i < es.len()
                    invariant
                        i <= es@.len(),
                        out@.len() == i,
                        *self == Toml::Table(*es),
                        forall|k: int| 0 <= k < i ==> (#[trigger] out@[k]).0@ == es@[k].0@,
                        forall|k: int| 0 <= k < i ==> (#[trigger] out@[k]).1@ == es@[k].1@,
                    decreases es@.len() - i,
                {
                    let e = &es[i];
                    assert(decreases_to!(*self => self->Table_0));
                    assert(decreases_to!(*es => es[i as int]));
                    assert(decreases_to!(es[i as int] => es[i as int].1));
                    out.push((e.0.clone(), e.1.dup()));
                    i = i + 1;
                }
                let r = Toml::Table(out);
                assert(r@->Table_0 =~= self@->Table_0);
                r
            },
        }
    }
}

/// How many equal quotes in a row `toml` cannot count.
pub const QUOTE_RUN: usize = 256;

/// How many of a quote stand at the end of the first `n` characters.
pub open spec fn run_at(s: Seq<char>, q: char, n: int) -> nat
    decreases n,
{
    if n <= 0 || s[n - 1] != q {
        0
    } else {
        run_at(s, q, n - 1) + 1
    }
}

/// Whether a text has fewer equal quotes in a row than `toml` cannot count.
pub open spec fn countable(s: Seq<char>) -> bool {
    forall|n: int|
        0 <= n <= s.len() ==> #[trigger] run_at(s, '"', n) < QUOTE_RUN && run_at(s, '\'', n)
            < QUOTE_RUN
}

/// Whether each text of a value has fewer equal quotes in a row than `toml`
/// cannot count.
pub open spec fn printable(v: TomlView) -> bool
    decreases v,
{
    match v {
        TomlView::Text(s) => countable(s),
        TomlView::Real(s) => countable(s),
        TomlView::Date(s) => countable(s),
        TomlView::Array(items) => forall|i: int|
            0 <= i < items.len() ==> printable(#[trigger] items[i]),
        TomlView::Table(es) => forall|i: int|
            0 <= i < es.len() ==> printable((#[trigger] es[i]).1),
        _ => true,
    }
}

fn is_countable(s: &str) -> (r: bool)
    ensures
        r == countable(s@),
{
    let cs = chars_of(s);
    let mut double: usize = 0;
    let mut single: usize = 0;
    let mut i: usize = 0;
    while i < cs.len()
        invariant
            i <= cs@.len(),
            cs@ == s@,
            double == run_at(s@, '"', i as int),
            single == run_at(s@, '\'', i as int),
            double < QUOTE_RUN,
            single < QUOTE_RUN,
            forall|n: int|
                0 <= n <= i ==> #[trigger] run_at(s@, '"', n) < QUOTE_RUN && run_at(s@, '\'', n)
                    < QUOTE_RUN,
        decreases cs@.len() - i,
    {
        double = if cs[i] == '"' {
            double + 1
        } else {
            0
        };
        single = if cs[i] == '\'' {
            single + 1
        } else {
            0
        };
        i = i + 1;
        assert(double == run_at(s@, '"', i as int));
        if double >= QUOTE_RUN || single >= QUOTE_RUN {
            return false;
        }
    }
    true
}

impl Toml {
    /// Whether each text of the value has fewer equal quotes in a row than
    /// `toml` cannot count.
    pub fn is_printable(&self) -> (r: bool)
        ensures
            r == printable(self@),
        decreases *self,
    {
        match self {
            Toml::Text(s) => is_countable(s.as_str()),
            Toml::Real(s) => is_countable(s.as_str()),
            Toml::Date(s) => is_countable(s.as_str()),
            Toml::Array(items) => {
                let ghost views = self@->Array_0;
                let mut i: usize = 0;
                while i < items.len()
                    invariant
                        i <= items@.len(),
                        *self == Toml::Array(*items),
                        views == self@->Array_0,
                        forall|k: int| 0 <= k < i ==> printable(#[trigger] views[k]),
                    decreases items@.len() - i,
                {
                    assert(decreases_to!(*self => self->Array_0));
                    assert(decreases_to!(*items => items[i as int]));
                    assert(views[i as int] == items@[i as int]@);
                    if !items[i].is_printable() {
                        return false;
                    }
                    i = i + 1;
                }
                true
            },
            Toml::Table(es) => {
                let ghost views = self@->Table_0;
                let mut i: usize = 0;
                while i < es.len()
                    invariant
                        i <= es@.len(),
                        *self == Toml::Table(*es),
                        views == self@->Table_0,
                        forall|k: int| 0 <= k < i ==> printable((#[trigger] views[k]).1),
                    decreases es@.len() - i,
                {
                    assert(decreases_to!(*self => self->Table_0));
                    assert(decreases_to!(*es => es[i as int]));
                    assert(decreases_to!(es[i as int] => es[i as int].1));
                    assert(views[i as int].1 == es@[i as int].1@);
                    if !es[i].1.is_printable() {
                        return false;
                    }
                    i = i + 1;
                }
                true
            },
            _ => true,
        }
    }
}

/// How many levels of tables are said to be read back.
pub const LEVELS: u8 = 8;

/// Whether keys are in order, each once.
pub open spec fn keys_in_order(es: Seq<(Seq<char>, TomlView)>) -> bool {
    forall|i: int, j: int|
        0 <= i < j < es.len() ==> sorts_before((#[trigger] es[i]).0, (#[trigger] es[j]).0)
}

/// Whether a value is made of tables and texts, `levels` deep at most, and no
/// key is the one that `toml` keeps for dates.
pub open spec fn plain(v: TomlView, levels: nat) -> bool
    decreases v,
{
    match v {
        TomlView::Text(s) => countable(s),
        TomlView::Table(es) => {
            &&& levels > 0
            &&& keys_in_order(es)
            &&& forall|i: int|
                0 <= i < es.len() ==> (#[trigger] es[i]).0 != "$__toml_private_datetime"@ && plain(
                    es[i].1,
                    (levels - 1) as nat,
                )
        },
        _ => false,
    }
}

/// `toml::Value`, carried between the calls below.
#[verifier::external_type_specification]
#[verifier::external_body]
pub struct ExTomlValue(::toml::Value);

/// A `toml::Value` with the contents of `t`.
#[verifier::external_body]
fn to_value(t: &Toml) -> Value {
    match t {
        Toml::Text(s) => Value::String(s.clone()),
        Toml::Integer(n) => Value::Integer(*n),
        Toml::Real(s) => s.parse().map_or(Value::String(s.clone()), Value::Float),
        Toml::Bool(b) => Value::Boolean(*b),
        Toml::Date(s) => s.parse().map_or(Value::String(s.clone()), Value::Datetime),
        Toml::Array(items) => Value::Array(items.iter().map(to_value).collect()),
        Toml::Table(es) => Value::Table(es.iter().map(|e| (e.0.clone(), to_value(&e.1))).collect()),
    }
}

/// The contents of a `toml::Value`, members in the order of its map.
#[verifier::external_body]
fn from_value(v: &Value) -> Toml {
    match v {
        Value::String(s) => Toml::Text(s.clone()),
        Value::Integer(n) => Toml::Integer(*n),
        Value::Float(x) => Toml::Real(x.to_string()),
        Value::Boolean(b) => Toml::Bool(*b),
        Value::Datetime(d) => Toml::Date(d.to_string()),
        Value::Array(a) => Toml::Array(a.iter().map(from_value).collect()),
        Value::Table(t) => Toml::Table(t.iter().map(|e| (e.0.clone(), from_value(e.1))).collect()),
    }
}

/// What `toml::from_str` reads out of a text: a value, or the words of its
/// error.
pub uninterp spec fn toml_parsed(text: Seq<char>) -> Result<TomlView, Seq<char>>;

/// A result of reading, by its contents.
pub open spec fn read_view(r: Result<Toml, String>) -> Result<TomlView, Seq<char>> {
    match r {
        Ok(t) => Ok(t@),
        Err(m) => Err(m@),
    }
}

/// `toml::from_str` into a `toml::Value`: the value, or the words of its error.
#[verifier::external_body]
fn parse_text(text: &str) -> (r: Result<Toml, String>)
    ensures
        read_view(r) == toml_parsed(text@),
{
    ::toml::from_str::<::toml::Value>(text).map(|v| from_value(&v)).map_err(|e| e.to_string())
}

/// Whether a text denotes a value.
pub open spec fn reads_as(text: Seq<char>, v: TomlView) -> bool {
    match toml_parsed(text) {
        Ok(t) => t == v,
        Err(_) => false,
    }
}

/// What `toml::to_string` writes of a value: a text, or the words of its error.
pub uninterp spec fn toml_text(v: TomlView) -> Result<Seq<char>, Seq<char>>;

/// A result of writing, by its contents.
pub open spec fn write_view(r: Result<String, String>) -> Result<Seq<char>, Seq<char>> {
    match r {
        Ok(t) => Ok(t@),
        Err(m) => Err(m@),
    }
}

/// `toml::to_string`: the text of a value, or the words of its error. What it
/// writes of tables of texts, `toml::from_str` reads back. It counts quotes in
/// a row in eight bits, so a text with more of them than that is left out.
#[verifier::external_body]
fn print_text(t: &Toml) -> (r: Result<String, String>)
    requires
        printable(t@),
    ensures
        write_view(r) == toml_text(t@),
        t@ is Table && plain(t@, LEVELS as nat) ==> r is Ok && reads_as(r->Ok_0@, t@),
{
    ::toml::to_string(&to_value(t)).map_err(|e| e.to_string())
}

/// The value that a TOML text denotes, or why it denotes none.
pub fn parse(text: &str) -> (r: Result<Toml, String>)
    ensures
        read_view(r) == toml_parsed(text@),
{
    parse_text(text)
}

/// The text of a value, or why it has none.
pub fn print(t: &Toml) -> (r: Result<String, String>)
    requires
        printable(t@),
    ensures
        write_view(r) == toml_text(t@),
        t@ is Table && plain(t@, LEVELS as nat) ==> r is Ok && reads_as(r->Ok_0@, t@),
{
    print_text(t)
}

/// Position of the first member with a key, or the number of members.
pub open spec fn member_index(es: Seq<(Seq<char>, TomlView)>, k: Seq<char>) -> int
    decreases es.len(),
{
    if es.len() == 0 || es[0].0 == k {
        0
    } else {
        1 + member_index(es.skip(1), k)
    }
}

/// The position of a member is that of the first with its key.
pub proof fn lemma_member_index(es: Seq<(Seq<char>, TomlView)>, k: Seq<char>, i: int)
    requires
        0 <= i <= es.len(),
        forall|j: int| 0 <= j < i ==> (#[trigger] es[j]).0 != k,
        i < es.len() ==> es[i].0 == k,
    ensures
        member_index(es, k) == i,
    decreases es.len(),
{
    if i > 0 {
        assert(es[0].0 != k);
        assert forall|j: int| 0 <= j < i - 1 implies (#[trigger] es.skip(1)[j]).0 != k by {
            assert(es.skip(1)[j] == es[j + 1]);
        }
        lemma_member_index(es.skip(1), k, i - 1);
    }
}

/// The member of a table under a key.
pub open spec fn member(es: Seq<(Seq<char>, TomlView)>, k: Seq<char>) -> Option<TomlView> {
    if member_index(es, k) < es.len() {
        Some(es[member_index(es, k)].1)
    } else {
        None
    }
}

/// Position of the first member with a key, or the number of members.
pub fn find_member(es: &Vec<(String, Toml)>, k: &str) -> (r: usize)
    ensures
        r == member_index(member_views(es@), k@),
        r <= es@.len(),
{
    let ghost views = member_views(es@);
    let mut i: usize = 0;
    while i < es.len()
        invariant
            i <= es@.len(),
            views == member_views(es@),
            forall|j: int| 0 <= j < i ==> (#[trigger] views[j]).0 != k@,
        decreases es@.len() - i,
    {
        assert(views[i as int].0 == es@[i as int].0@);
        if same(es[i].0.as_str(), k) {
            proof {
                lemma_member_index(views, k@, i as int);
            }
            return i;
        }
        i = i + 1;
    }
    proof {
        lemma_member_index(views, k@, i as int);
    }
    i
}

/// A key stands for the value of the first member that has it, and for nothing
/// where none does.
pub proof fn law_first_member_counts(es: Seq<(Seq<char>, TomlView)>, k: Seq<char>, i: int)
    ensures
        0 <= i < es.len() && es[i].0 == k && (forall|j: int|
            0 <= j < i ==> (#[trigger] es[j]).0 != k) ==> member(es, k) == Some(es[i].1),
        (forall|j: int| 0 <= j < es.len() ==> (#[trigger] es[j]).0 != k) ==> member(es, k) is None,
    decreases es.len(),
{
    if es.len() > 0 && es[0].0 != k {
        let rest = es.skip(1);
        law_first_member_counts(rest, k, i - 1);
        if 0 < i < es.len() && es[i].0 == k && (forall|j: int|
            0 <= j < i ==> (#[trigger] es[j]).0 != k) {
            assert forall|j: int| 0 <= j < i - 1 implies (#[trigger] rest[j]).0 != k by {
                assert(rest[j] == es[j + 1]);
            }
            assert(rest[i - 1] == es[i]);
            lemma_index_bound(rest, k);
        }
        if forall|j: int| 0 <= j < es.len() ==> (#[trigger] es[j]).0 != k {
            assert forall|j: int| 0 <= j < rest.len() implies (#[trigger] rest[j]).0 != k by {
                assert(rest[j] == es[j + 1]);
            }
        }
    }
}

proof fn lemma_index_bound(es: Seq<(Seq<char>, TomlView)>, k: Seq<char>)
    ensures
        0 <= member_index(es, k) <= es.len(),
    decreases es.len(),
{
    if es.len() > 0 && es[0].0 != k {
        lemma_index_bound(es.skip(1), k);
    }
}

proof fn lemma_run_of_one_quote(s: Seq<char>, q: char, n: int, m: int)
    requires
        0 <= m <= n <= s.len(),
        forall|i: int| n - m <= i < n ==> #[trigger] s[i] == q,
    ensures
        run_at(s, q, n) >= m,
    decreases m,
{
    if m > 0 {
        assert(s[n - 1] == q);
        lemma_run_of_one_quote(s, q, n - 1, m - 1);
    }
}

proof fn lemma_run_is_of_one_quote(s: Seq<char>, q: char, n: int)
    requires
        0 <= n <= s.len(),
    ensures
        run_at(s, q, n) <= n,
        forall|i: int| n - run_at(s, q, n) <= i < n ==> #[trigger] s[i] == q,
    decreases n,
{
    if n > 0 && s[n - 1] == q {
        lemma_run_is_of_one_quote(s, q, n - 1);
    }
}

/// A text with so many of one quote in a row that they are not counted is not
/// written, wherever in it they stand; one without any quote is.
pub proof fn law_long_runs_of_quotes_are_not_written(s: Seq<char>, q: char, from: int)
    requires
        q == '"' || q == '\'',
    ensures
        0 <= from && from + 256 <= s.len() && (forall|i: int|
            from <= i < from + 256 ==> #[trigger] s[i] == q) ==> !countable(s),
        !s.contains('"') && !s.contains('\'') ==> countable(s),
{
    if 0 <= from && from + 256 <= s.len() && (forall|i: int|
        from <= i < from + 256 ==> #[trigger] s[i] == q) {
        lemma_run_of_one_quote(s, q, from + 256, 256);
        assert(run_at(s, '"', from + 256) >= 256 || run_at(s, '\'', from + 256) >= 256);
    }
    if !s.contains('"') && !s.contains('\'') {
        assert forall|n: int| 0 <= n <= s.len() implies #[trigger] run_at(s, '"', n) < QUOTE_RUN
            && run_at(s, '\'', n) < QUOTE_RUN by {
            lemma_run_is_of_one_quote(s, '"', n);
            lemma_run_is_of_one_quote(s, '\'', n);
            if n > 0 {
                assert(s.contains(s[n - 1]));
            }
        }
    }
}

} // verus!
