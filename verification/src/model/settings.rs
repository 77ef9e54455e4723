//! The settings panel: the tree of settings is shown, a listed few can be
//! changed, and secrets are never shown.

use vstd::prelude::*;

use crate::json::{display, json_display, opt_json_ref, Json, JsonView, Num, NumView};
use crate::model::select::{move_in, moved};
use crate::order::{comes_before, law_text_order, numbers, rank_texts, text_order};
use crate::text::{
    cat3, dec, decimal, same, signed_dec, signed_decimal, sorts_before, texts,
};
use crate::text_laws::law_texts_are_ordered;

verus! {

/// A row of the settings.
#[derive(Debug, Clone, PartialEq, Eq)]
pub struct SettingsRow {
    /// Namespace and key, with a dot between.
    pub key: String,
    pub namespace: String,
    pub value_display: String,
    /// Whether the user changed it.
    pub user_set: bool,
    pub secret: bool,
    /// Revision of the namespace, which a change has to name.
    pub revision: u64,
}

/// The contents of a row.
#[verifier::ext_equal]
pub struct SettingsRowView {
    pub key: Seq<char>,
    pub namespace: Seq<char>,
    pub value_display: Seq<char>,
    pub user_set: bool,
    pub secret: bool,
    pub revision: u64,
}

impl View for SettingsRow {
    type V = SettingsRowView;

    open spec fn view(&self) -> SettingsRowView {
        SettingsRowView {
            key: self.key@,
            namespace: self.namespace@,
            value_display: self.value_display@,
            user_set: self.user_set,
            secret: self.secret,
            revision: self.revision,
        }
    }
}

/// The settings panel.
#[derive(Debug, Clone, PartialEq, Eq)]
pub struct SettingsPanelState {
    pub visible: bool,
    pub rows: Vec<SettingsRow>,
    pub selected: usize,
    pub writable: bool,
    /// Key that is being changed.
    pub edit_key: Option<String>,
    pub edit_buffer: String,
    pub risk_confirm: Option<String>,
    pub loading: bool,
    pub last_error_code: Option<String>,
}

/// Whether the panel is as at the start.
pub open spec fn is_blank_panel(s: SettingsPanelState) -> bool {
    &&& !s.visible
    &&& s.rows@.len() == 0
    &&& s.selected == 0
    &&& !s.writable
    &&& s.edit_key is None
    &&& s.edit_buffer@.len() == 0
    &&& s.risk_confirm is None
    &&& !s.loading
    &&& s.last_error_code is None
}

impl Default for SettingsPanelState {
    fn default() -> (r: Self)
        ensures
            is_blank_panel(r),
    {
        SettingsPanelState {
            visible: false,
            rows: Vec::new(),
            selected: 0,
            writable: false,
            edit_key: None,
            edit_buffer: String::new(),
            risk_confirm: None,
            loading: false,
            last_error_code: None,
        }
    }
}

impl SettingsPanelState {
    /// Opens the panel while the settings are fetched.
    pub fn open(&mut self)
        ensures
            *final(self) == (SettingsPanelState {
                visible: true,
                loading: true,
                last_error_code: None,
                ..*old(self)
            }),
    {
        self.visible = true;
        self.loading = true;
        self.last_error_code = None;
    }

    /// Closes the panel and forgets it.
    pub fn close(&mut self)
        ensures
            is_blank_panel(*final(self)),
    {
        *self = SettingsPanelState::default();
    }

    /// Takes the rows; the selection stays within them.
    pub fn set_rows(&mut self, rows: Vec<SettingsRow>, writable: bool)
        ensures
            *final(self) == (SettingsPanelState {
                rows,
                writable,
                loading: false,
                selected: if rows@.len() > 0 && old(self).selected >= rows@.len() {
                    (rows@.len() - 1) as usize
                } else {
                    old(self).selected
                },
                ..*old(self)
            }),
    {
        let n: usize = rows.len();
        self.rows = rows;
        self.writable = writable;
        self.loading = false;
        if n > 0 && self.selected >= n {
            self.selected = n - 1;
        }
    }

    /// Moves the selection.
    pub fn move_selection(&mut self, delta: isize)
        ensures
            *final(self) == (SettingsPanelState {
                selected: if old(self).rows@.len() == 0 {
                    old(self).selected
                } else {
                    moved(
                        old(self).selected as int,
                        delta as int,
                        old(self).rows@.len() as int,
                    ) as usize
                },
                ..*old(self)
            }),
    {
        if self.rows.len() == 0 {
            return;
        }
        self.selected = move_in(self.selected, delta, self.rows.len());
    }
}

/// What a secret shows.
pub open spec fn mask() -> Seq<char> {
    "••• (set)"@
}

/// Whether a value is shown as a row: objects and arrays are not.
pub open spec fn is_scalar(v: JsonView) -> bool {
    !(v is Object) && !(v is Array)
}

/// What a setting shows that is no secret.
pub open spec fn scalar_text(v: JsonView) -> Seq<char> {
    match v {
        JsonView::Str(s) => s,
        JsonView::Bool(b) => if b {
            "true"@
        } else {
            "false"@
        },
        JsonView::Number(NumView::Unsigned(n)) => decimal(n as nat),
        JsonView::Number(NumView::Negative(n)) => signed_decimal(n as int),
        JsonView::Number(NumView::Decimal(_)) => json_display(v),
        _ => Seq::empty(),
    }
}

/// Namespace and key of a setting, with a dot between.
pub open spec fn full_key(ns: Seq<char>, k: Seq<char>) -> Seq<char> {
    ns + "."@ + k
}

/// Whether a setting is a secret: its key is listed, with the namespace or
/// without.
pub open spec fn is_secret(ns: Seq<char>, k: Seq<char>, secrets: Seq<Seq<char>>) -> bool {
    secrets.contains(k) || secrets.contains(full_key(ns, k))
}

/// The row of a setting.
pub open spec fn setting_row(
    ns: Seq<char>,
    k: Seq<char>,
    v: JsonView,
    user: Option<JsonView>,
    secrets: Seq<Seq<char>>,
    revision: u64,
) -> SettingsRowView {
    SettingsRowView {
        key: full_key(ns, k),
        namespace: ns,
        value_display: if is_secret(ns, k, secrets) {
            mask()
        } else {
            scalar_text(v)
        },
        user_set: user is Some && user->0.get(k) is Some,
        secret: is_secret(ns, k, secrets),
        revision,
    }
}

/// The rows of the first `n` settings of a namespace, scalars only.
pub open spec fn scalar_rows(
    ns: Seq<char>,
    entries: Seq<(Seq<char>, JsonView)>,
    user: Option<JsonView>,
    secrets: Seq<Seq<char>>,
    revision: u64,
    n: int,
) -> Seq<SettingsRowView>
    decreases n,
{
    if n <= 0 {
        Seq::empty()
    } else {
        let before = scalar_rows(ns, entries, user, secrets, revision, n - 1);
        let (k, v) = entries[n - 1];
        if is_scalar(v) {
            before.push(setting_row(ns, k, v, user, secrets, revision))
        } else {
            before
        }
    }
}

/// The keys of rows.
pub open spec fn row_keys(rows: Seq<SettingsRowView>) -> Seq<Seq<char>> {
    rows.map_values(|r: SettingsRowView| r.key)
}

/// Rows in the order of their keys.
pub open spec fn by_key(rows: Seq<SettingsRowView>) -> Seq<SettingsRowView> {
    text_order(row_keys(rows), rows.len() as int).map_values(|i: int| rows[i])
}

/// The texts of a list.
pub open spec fn strs(v: Seq<&str>) -> Seq<Seq<char>> {
    v.map_values(|s: &str| s@)
}

/// Those of the rows whose key is listed.
pub open spec fn listed_rows(rows: Seq<SettingsRowView>, listed: Seq<Seq<char>>) -> Seq<
    SettingsRowView,
>
    decreases rows.len(),
{
    if rows.len() == 0 {
        Seq::empty()
    } else if listed.contains(rows.last().key) {
        listed_rows(rows.drop_last(), listed).push(rows.last())
    } else {
        listed_rows(rows.drop_last(), listed)
    }
}

/// The rows of a namespace: its scalars whose keys are listed, in the order of
/// their keys; none where the value is no object.
pub open spec fn namespace_rows(
    ns: Seq<char>,
    value: JsonView,
    user: Option<JsonView>,
    secrets: Seq<Seq<char>>,
    revision: u64,
    listed: Seq<Seq<char>>,
) -> Seq<SettingsRowView> {
    match value {
        JsonView::Object(entries) => listed_rows(
            by_key(scalar_rows(ns, entries, user, secrets, revision, entries.len() as int)),
            listed,
        ),
        _ => Seq::empty(),
    }
}

fn has_text(v: &[String], t: &str) -> (r: bool)
    ensures
        r == texts(v@).contains(t@),
{
    let mut i: usize = 0;
    while i < v.len()
        invariant
            i <= v@.len(),
            forall|k: int| 0 <= k < i ==> #[trigger] texts(v@)[k] != t@,
        decreases v@.len() - i,
    {
        assert(texts(v@)[i as int] == v@[i as int]@);
        if same(v[i].as_str(), t) {
            return true;
        }
        i = i + 1;
    }
    false
}

fn has_str(v: &[&str], t: &str) -> (r: bool)
    ensures
        r == strs(v@).contains(t@),
{
    let mut i: usize = 0;
    while i < v.len()
        invariant
            i <= v@.len(),
            forall|k: int| 0 <= k < i ==> #[trigger] strs(v@)[k] != t@,
        decreases v@.len() - i,
    {
        assert(strs(v@)[i as int] == v@[i as int]@);
        if same(v[i], t) {
            return true;
        }
        i = i + 1;
    }
    false
}

fn show_scalar(v: &Json) -> (r: String)
    ensures
        r@ == scalar_text(v@),
{
    match v {
        Json::Str(s) => s.clone(),
        Json::Bool(b) => if *b {
            "true".to_string()
        } else {
            "false".to_string()
        },
        Json::Number(Num::Unsigned(n)) => dec(*n),
        Json::Number(Num::Negative(n)) => signed_dec(*n),
        Json::Number(Num::Decimal(_)) => display(v),
        _ => String::new(),
    }
}

/// The views of rows.
pub open spec fn row_views(v: Seq<SettingsRow>) -> Seq<SettingsRowView> {
    v.map_values(|r: SettingsRow| r@)
}

impl SettingsRow {
    fn dup(&self) -> (r: SettingsRow)
        ensures
            r@ == self@,
    {
        SettingsRow {
            key: self.key.clone(),
            namespace: self.namespace.clone(),
            value_display: self.value_display.clone(),
            user_set: self.user_set,
            secret: self.secret,
            revision: self.revision,
        }
    }
}

fn make_row(
    ns: &str,
    k: &str,
    v: &Json,
    user: Option<&Json>,
    secrets: &[String],
    revision: u64,
) -> (r: SettingsRow)
    ensures
        r@ == setting_row(ns@, k@, v@, opt_json_ref(user), texts(secrets@), revision),
{
    let key = cat3(ns, ".", k);
    let secret = has_text(secrets, k) || has_text(secrets, key.as_str());
    let value_display = if secret {
        "••• (set)".to_string()
    } else {
        show_scalar(v)
    };
    let user_set = match user {
        Some(u) => u.get(k).is_some(),
        None => false,
    };
    SettingsRow { key, namespace: ns.to_string(), value_display, user_set, secret, revision }
}

fn scalars(
    ns: &str,
    value: &Json,
    user: Option<&Json>,
    secrets: &[String],
    revision: u64,
) -> (r: Vec<SettingsRow>)
    ensures
        row_views(r@) == match value@ {
            JsonView::Object(entries) => scalar_rows(
                ns@,
                entries,
                opt_json_ref(user),
                texts(secrets@),
                revision,
                entries.len() as int,
            ),
            _ => Seq::empty(),
        },
{
    let mut out: Vec<SettingsRow> = Vec::new();
    assert(row_views(out@) =~= Seq::empty());
    match value {
        Json::Object(entries) => {
            let ghost view = value@->Object_0;
            let ghost u = opt_json_ref(user);
            let mut i: usize = 0;
            while i < entries.len()
                invariant
                    i <= entries@.len(),
                    *value == Json::Object(*entries),
                    view == value@->Object_0,
                    view.len() == entries@.len(),
                    u == opt_json_ref(user),
                    row_views(out@) == scalar_rows(
                        ns@,
                        view,
                        u,
                        texts(secrets@),
                        revision,
                        i as int,
                    ),
                decreases entries@.len() - i,
            {
                let entry = &entries[i];
                assert(view[i as int] == (entry.0@, entry.1@));
                let nested = match &entry.1 {
                    Json::Object(_) => true,
                    Json::Array(_) => true,
                    _ => false,
                };
                if !nested {
                    let ghost before = row_views(out@);
                    let row = make_row(
                        ns,
                        entry.0.as_str(),
                        &entry.1,
                        user,
                        secrets,
                        revision,
                    );
                    out.push(row);
                    assert(row_views(out@) =~= before.push(row@));
                }
                i = i + 1;
            }
        },
        _ => {},
    }
    out
}

fn keys_of(rows: &Vec<SettingsRow>) -> (r: Vec<String>)
    ensures
        texts(r@) == row_keys(row_views(rows@)),
{
    let mut r: Vec<String> = Vec::new();
    let mut i: usize = 0;
    let ghost want = row_keys(row_views(rows@));
    assert(texts(r@) =~= want.take(0));
    while i < rows.len()
        invariant
            i <= rows@.len(),
            want == row_keys(row_views(rows@)),
            texts(r@) == want.take(i as int),
        decreases rows@.len() - i,
    {
        let ghost before = texts(r@);
        r.push(rows[i].key.clone());
        assert(texts(r@) =~= before.push(want[i as int]));
        assert(want.take(i + 1) =~= want.take(i as int).push(want[i as int]));
        i = i + 1;
    }
    assert(want.take(i as int) =~= want);
    r
}

/// The rows of a namespace that are listed, in the order of their keys. Only
/// scalars have rows, and a secret shows that it is set and nothing more.
pub fn flatten_namespace_rows(
    ns: &str,
    value: &Json,
    user: Option<&Json>,
    secrets: &[String],
    revision: u64,
    whitelist: &[&str],
) -> (r: Vec<SettingsRow>)
    ensures
        row_views(r@) == namespace_rows(
            ns@,
            value@,
            opt_json_ref(user),
            texts(secrets@),
            revision,
            strs(whitelist@),
        ),
{
    let rows = scalars(ns, value, user, secrets, revision);
    let ghost views = row_views(rows@);
    let keys = keys_of(&rows);
    let order = rank_texts(&keys);
    assert(texts(keys@).len() == keys@.len());
    assert(row_keys(views).len() == rows@.len());
    let ghost sorted = by_key(views);
    let ghost listed = strs(whitelist@);
    let mut out: Vec<SettingsRow> = Vec::new();
    let mut i: usize = 0;
    proof {
        assert(numbers(order@).len() == order@.len());
        assert(sorted.take(0) =~= Seq::empty());
        assert(row_views(out@) =~= listed_rows(sorted.take(0), listed));
    }
    while i < order.len()
        invariant
            i <= order@.len(),
            views == row_views(rows@),
            sorted == by_key(views),
            sorted.len() == order@.len(),
            listed == strs(whitelist@),
            numbers(order@) == text_order(row_keys(views), views.len() as int),
            forall|k: int| 0 <= k < order@.len() ==> #[trigger] order@[k] < rows@.len(),
            row_views(out@) == listed_rows(sorted.take(i as int), listed),
        decreases order@.len() - i,
    {
        let at: usize = order[i];
        assert(numbers(order@)[i as int] == at);
        assert(sorted[i as int] == rows@[at as int]@);
        assert(sorted.take(i + 1).drop_last() =~= sorted.take(i as int));
        assert(sorted.take(i + 1).last() == sorted[i as int]);
        if has_str(whitelist, rows[at].key.as_str()) {
            let ghost before = row_views(out@);
            let row = rows[at].dup();
            out.push(row);
            assert(row_views(out@) =~= before.push(row@));
        }
        i = i + 1;
    }
    assert(sorted.take(i as int) =~= sorted);
    proof {
        if !(value@ is Object) {
            assert(sorted =~= Seq::empty());
        }
    }
    out
}

proof fn lemma_scalar_row(
    ns: Seq<char>,
    entries: Seq<(Seq<char>, JsonView)>,
    user: Option<JsonView>,
    secrets: Seq<Seq<char>>,
    revision: u64,
    n: int,
    i: int,
)
    requires
        0 <= n <= entries.len(),
        0 <= i < scalar_rows(ns, entries, user, secrets, revision, n).len(),
    ensures
        ({
            let r = scalar_rows(ns, entries, user, secrets, revision, n)[i];
            r.secret ==> r.value_display == mask()
        }),
    decreases n,
{
    if n > 0 && i < scalar_rows(ns, entries, user, secrets, revision, n - 1).len() {
        lemma_scalar_row(ns, entries, user, secrets, revision, n - 1, i);
    }
}

proof fn lemma_listed_row(rows: Seq<SettingsRowView>, listed: Seq<Seq<char>>, i: int)
    requires
        0 <= i < listed_rows(rows, listed).len(),
    ensures
        rows.contains(listed_rows(rows, listed)[i]),
        listed.contains(listed_rows(rows, listed)[i].key),
    decreases rows.len(),
{
    if rows.len() > 0 {
        let front = rows.drop_last();
        if i < listed_rows(front, listed).len() {
            lemma_listed_row(front, listed, i);
            let k = choose|k: int|
                0 <= k < front.len() && front[k] == listed_rows(rows, listed)[i];
            assert(rows[k] == listed_rows(rows, listed)[i]);
        } else {
            assert(rows[rows.len() - 1] == rows.last());
        }
    }
}

/// A row that is shown is listed, and a secret shows nothing of its value.
pub proof fn law_secrets_are_masked(
    ns: Seq<char>,
    value: JsonView,
    user: Option<JsonView>,
    secrets: Seq<Seq<char>>,
    revision: u64,
    listed: Seq<Seq<char>>,
    i: int,
)
    requires
        0 <= i < namespace_rows(ns, value, user, secrets, revision, listed).len(),
    ensures
        ({
            let r = namespace_rows(ns, value, user, secrets, revision, listed)[i];
            listed.contains(r.key) && (r.secret ==> r.value_display == mask())
        }),
{
    let entries = value->Object_0;
    let n = entries.len() as int;
    let flat = scalar_rows(ns, entries, user, secrets, revision, n);
    let sorted = by_key(flat);
    lemma_listed_row(sorted, listed, i);
    let r = listed_rows(sorted, listed)[i];
    let k = choose|k: int| 0 <= k < sorted.len() && sorted[k] == r;
    law_text_order(row_keys(flat), flat.len() as int);
    let at = text_order(row_keys(flat), flat.len() as int)[k];
    assert(sorted[k] == flat[at]);
    lemma_scalar_row(ns, entries, user, secrets, revision, n, at);
}

/// A setting shows its value: a text as it is, a number by its digits, whether
/// a switch is on, and nothing where it is null.
pub proof fn law_settings_show_their_value(v: JsonView)
    ensures
        v is Str ==> scalar_text(v) == v->Str_0,
        v is Bool && v->Bool_0 ==> scalar_text(v) == "true"@,
        v is Bool && !v->Bool_0 ==> scalar_text(v) == "false"@,
        v is Number && v->Number_0 is Unsigned ==> scalar_text(v) == decimal(
            v->Number_0->Unsigned_0 as nat,
        ),
        v is Number && v->Number_0 is Negative ==> scalar_text(v) == signed_decimal(
            v->Number_0->Negative_0 as int,
        ),
        v is Number && v->Number_0 is Decimal ==> scalar_text(v) == json_display(v),
        v is Null ==> scalar_text(v).len() == 0,
{
}

proof fn lemma_scalar_rows_hold(
    ns: Seq<char>,
    entries: Seq<(Seq<char>, JsonView)>,
    user: Option<JsonView>,
    secrets: Seq<Seq<char>>,
    revision: u64,
    n: int,
    i: int,
)
    requires
        0 <= i < n <= entries.len(),
        is_scalar(entries[i].1),
    ensures
        scalar_rows(ns, entries, user, secrets, revision, n).contains(
            setting_row(ns, entries[i].0, entries[i].1, user, secrets, revision),
        ),
    decreases n,
{
    let row = setting_row(ns, entries[i].0, entries[i].1, user, secrets, revision);
    let before = scalar_rows(ns, entries, user, secrets, revision, n - 1);
    let (k, v) = entries[n - 1];
    let last = setting_row(ns, k, v, user, secrets, revision);
    crate::sets::lemma_push_contains(before, last, row);
    if i < n - 1 {
        lemma_scalar_rows_hold(ns, entries, user, secrets, revision, n - 1, i);
    }
}

proof fn lemma_scalar_rows_come_from(
    ns: Seq<char>,
    entries: Seq<(Seq<char>, JsonView)>,
    user: Option<JsonView>,
    secrets: Seq<Seq<char>>,
    revision: u64,
    n: int,
    j: int,
) -> (i: int)
    requires
        0 <= n <= entries.len(),
        0 <= j < scalar_rows(ns, entries, user, secrets, revision, n).len(),
    ensures
        0 <= i < n,
        is_scalar(entries[i].1),
        scalar_rows(ns, entries, user, secrets, revision, n)[j] == setting_row(
            ns,
            entries[i].0,
            entries[i].1,
            user,
            secrets,
            revision,
        ),
    decreases n,
{
    let before = scalar_rows(ns, entries, user, secrets, revision, n - 1);
    if j < before.len() {
        lemma_scalar_rows_come_from(ns, entries, user, secrets, revision, n - 1, j)
    } else {
        n - 1
    }
}

proof fn lemma_by_key_holds(rows: Seq<SettingsRowView>, r: SettingsRowView)
    ensures
        rows.contains(r) <==> by_key(rows).contains(r),
{
    let keys = row_keys(rows);
    let order = text_order(keys, rows.len() as int);
    law_text_order(keys, rows.len() as int);
    if rows.contains(r) {
        let i = choose|i: int| 0 <= i < rows.len() && rows[i] == r;
        assert(order.contains(i));
        let k = choose|k: int| 0 <= k < order.len() && order[k] == i;
        assert(by_key(rows)[k] == r);
    }
    if by_key(rows).contains(r) {
        let k = choose|k: int| 0 <= k < by_key(rows).len() && by_key(rows)[k] == r;
        assert(rows[order[k]] == r);
    }
}

proof fn lemma_listed_rows_hold(
    rows: Seq<SettingsRowView>,
    listed: Seq<Seq<char>>,
    r: SettingsRowView,
)
    requires
        rows.contains(r),
        listed.contains(r.key),
    ensures
        listed_rows(rows, listed).contains(r),
    decreases rows.len(),
{
    let front = rows.drop_last();
    let before = listed_rows(front, listed);
    crate::sets::lemma_push_contains(before, rows.last(), r);
    if r != rows.last() {
        let k = choose|k: int| 0 <= k < rows.len() && rows[k] == r;
        assert(front[k] == r);
        lemma_listed_rows_hold(front, listed, r);
    }
}

/// Every plain value of a namespace whose key is listed is shown: under its
/// name, with its value unless it is a secret, and with whether the user set
/// it.
pub proof fn law_listed_settings_are_shown(
    ns: Seq<char>,
    entries: Seq<(Seq<char>, JsonView)>,
    user: Option<JsonView>,
    secrets: Seq<Seq<char>>,
    revision: u64,
    listed: Seq<Seq<char>>,
    i: int,
)
    requires
        0 <= i < entries.len(),
        !(entries[i].1 is Object),
        !(entries[i].1 is Array),
        listed.contains(ns + "."@ + entries[i].0),
    ensures
        ({
            let rows = namespace_rows(
                ns,
                JsonView::Object(entries),
                user,
                secrets,
                revision,
                listed,
            );
            let name = ns + "."@ + entries[i].0;
            let hidden = secrets.contains(entries[i].0) || secrets.contains(name);
            exists|j: int|
                0 <= j < rows.len() && (#[trigger] rows[j]).key == name && rows[j].namespace == ns
                    && rows[j].revision == revision && rows[j].secret == hidden
                    && rows[j].value_display == (if hidden {
                    "••• (set)"@
                } else {
                    scalar_text(entries[i].1)
                }) && rows[j].user_set == (user is Some && user->0.get(entries[i].0) is Some)
        }),
{
    let n = entries.len() as int;
    let rows = namespace_rows(ns, JsonView::Object(entries), user, secrets, revision, listed);
    let all = scalar_rows(ns, entries, user, secrets, revision, n);
    let row = setting_row(ns, entries[i].0, entries[i].1, user, secrets, revision);
    lemma_scalar_rows_hold(ns, entries, user, secrets, revision, n, i);
    lemma_by_key_holds(all, row);
    lemma_listed_rows_hold(by_key(all), listed, row);
    let j = choose|j: int| 0 <= j < rows.len() && rows[j] == row;
    assert(rows[j].key == ns + "."@ + entries[i].0);
}

/// Every row that is shown is of a plain value of the namespace.
pub proof fn law_rows_are_of_settings(
    ns: Seq<char>,
    entries: Seq<(Seq<char>, JsonView)>,
    user: Option<JsonView>,
    secrets: Seq<Seq<char>>,
    revision: u64,
    listed: Seq<Seq<char>>,
    j: int,
)
    requires
        0 <= j < namespace_rows(
            ns,
            JsonView::Object(entries),
            user,
            secrets,
            revision,
            listed,
        ).len(),
    ensures
        ({
            let row = namespace_rows(
                ns,
                JsonView::Object(entries),
                user,
                secrets,
                revision,
                listed,
            )[j];
            exists|i: int|
                0 <= i < entries.len() && !((#[trigger] entries[i]).1 is Object) && !(
                entries[i].1 is Array) && row.key == ns + "."@ + entries[i].0 && (!row.secret
                    ==> row.value_display == scalar_text(entries[i].1))
        }),
{
    let n = entries.len() as int;
    let all = scalar_rows(ns, entries, user, secrets, revision, n);
    let rows = listed_rows(by_key(all), listed);
    lemma_listed_row(by_key(all), listed, j);
    lemma_by_key_holds(all, rows[j]);
    let k = choose|k: int| 0 <= k < all.len() && all[k] == rows[j];
    let i = lemma_scalar_rows_come_from(ns, entries, user, secrets, revision, n, k);
    assert(rows[j].key == ns + "."@ + entries[i].0);
}

proof fn lemma_listed_in_order(rows: Seq<SettingsRowView>, listed: Seq<Seq<char>>, a: int, b: int)
    requires
        forall|i: int, j: int|
            0 <= i < j < rows.len() ==> !sorts_before(
                (#[trigger] rows[j]).key,
                (#[trigger] rows[i]).key,
            ),
        0 <= a < b < listed_rows(rows, listed).len(),
    ensures
        !sorts_before(listed_rows(rows, listed)[b].key, listed_rows(rows, listed)[a].key),
    decreases rows.len(),
{
    let front = rows.drop_last();
    let before = listed_rows(front, listed);
    assert forall|i: int, j: int| 0 <= i < j < front.len() implies !sorts_before(
        (#[trigger] front[j]).key,
        (#[trigger] front[i]).key,
    ) by {
        assert(front[j] == rows[j] && front[i] == rows[i]);
    }
    if b < before.len() {
        lemma_listed_in_order(front, listed, a, b);
    } else {
        lemma_listed_row(front, listed, a);
        let k = choose|k: int| 0 <= k < front.len() && front[k] == before[a];
        assert(rows[k] == before[a]);
        assert(rows[rows.len() - 1] == rows.last());
    }
}

/// The rows of a namespace stand in the order of their names.
pub proof fn law_settings_stand_in_order(
    ns: Seq<char>,
    value: JsonView,
    user: Option<JsonView>,
    secrets: Seq<Seq<char>>,
    revision: u64,
    listed: Seq<Seq<char>>,
    a: int,
    b: int,
)
    requires
        0 <= a < b < namespace_rows(ns, value, user, secrets, revision, listed).len(),
    ensures
        !sorts_before(
            namespace_rows(ns, value, user, secrets, revision, listed)[b].key,
            namespace_rows(ns, value, user, secrets, revision, listed)[a].key,
        ),
{
    let entries = value->Object_0;
    let all = scalar_rows(ns, entries, user, secrets, revision, entries.len() as int);
    let keys = row_keys(all);
    let order = text_order(keys, all.len() as int);
    let rows = by_key(all);
    law_text_order(keys, all.len() as int);
    assert forall|i: int, j: int| 0 <= i < j < rows.len() implies !sorts_before(
        (#[trigger] rows[j]).key,
        (#[trigger] rows[i]).key,
    ) by {
        assert(comes_before(keys, order[i], order[j]));
        assert(rows[i].key == keys[order[i]] && rows[j].key == keys[order[j]]);
        law_texts_are_ordered(rows[i].key, rows[j].key, rows[i].key);
    }
    lemma_listed_in_order(rows, listed, a, b);
}

} // verus!
