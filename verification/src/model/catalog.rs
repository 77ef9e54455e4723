//! The catalog of models: the groups of providers as one list of rows, and the
//! search in it.

use vstd::prelude::*;

use crate::fuzzy::{
    all_searchable, best_score, best_scores, can_search_all, field_texts, fuzzy_score,
    law_best_score_is_the_greatest, law_matches_are_the_best_first, matched, rank_matches, scores,
};
use crate::order::numbers;
use crate::text::{cat3, copy_opt, copy_texts, opt_text, same, texts, trim, trimmed, whitespace};
use crate::text_laws::law_blank_texts_are_whitespace;

verus! {

/// A degree of reasoning that a model offers.
#[derive(Debug, Clone, PartialEq, Eq)]
pub struct ReasoningEffort {
    pub id: String,
    pub name: String,
}

/// The reasoning that a model offers.
#[derive(Debug, Clone, PartialEq, Eq)]
pub struct ModelReasoning {
    pub efforts: Vec<ReasoningEffort>,
    pub default_effort: Option<String>,
}

/// A model of a provider.
#[derive(Debug, Clone, PartialEq, Eq)]
pub struct ModelCatalogModel {
    pub id: String,
    pub name: String,
    pub description: Option<String>,
    pub reasoning: Option<ModelReasoning>,
}

/// A provider and its models.
#[derive(Debug, Clone, PartialEq, Eq)]
pub struct ModelProviderGroup {
    pub id: String,
    pub name: String,
    pub models: Vec<ModelCatalogModel>,
}

/// The catalog as the server sends it.
#[derive(Debug, Clone, PartialEq, Eq)]
pub struct ModelCatalog {
    pub groups: Vec<ModelProviderGroup>,
}

/// The model that a session uses.
#[derive(Debug, Clone, PartialEq, Eq)]
pub struct WireModelSelection {
    pub provider: String,
    pub model: String,
    pub reasoning_effort: Option<String>,
}

/// A row of the catalog: a model of a provider.
#[derive(Debug, PartialEq, Eq)]
pub struct ModelCatalogItem {
    pub provider_id: String,
    pub provider_name: String,
    pub model_id: String,
    pub model_name: String,
    pub description: Option<String>,
    /// Identities of the degrees of reasoning that this model offers.
    pub reasoning_efforts: Vec<String>,
    pub default_effort: Option<String>,
}

/// A row of the catalog, with texts as characters.
#[verifier::ext_equal]
pub struct CatalogRow {
    pub provider_id: Seq<char>,
    pub provider_name: Seq<char>,
    pub model_id: Seq<char>,
    pub model_name: Seq<char>,
    pub description: Option<Seq<char>>,
    pub reasoning_efforts: Seq<Seq<char>>,
    pub default_effort: Option<Seq<char>>,
}

impl View for ModelCatalogItem {
    type V = CatalogRow;

    open spec fn view(&self) -> CatalogRow {
        CatalogRow {
            provider_id: self.provider_id@,
            provider_name: self.provider_name@,
            model_id: self.model_id@,
            model_name: self.model_name@,
            description: opt_text(self.description),
            reasoning_efforts: texts(self.reasoning_efforts@),
            default_effort: opt_text(self.default_effort),
        }
    }
}

impl Clone for ModelCatalogItem {
    fn clone(&self) -> (r: Self)
        ensures
            r@ == self@,
    {
        ModelCatalogItem {
            provider_id: self.provider_id.clone(),
            provider_name: self.provider_name.clone(),
            model_id: self.model_id.clone(),
            model_name: self.model_name.clone(),
            description: copy_opt(&self.description),
            reasoning_efforts: copy_texts(&self.reasoning_efforts),
            default_effort: copy_opt(&self.default_effort),
        }
    }
}

/// The views of a list of rows.
pub open spec fn row_views(v: Seq<ModelCatalogItem>) -> Seq<CatalogRow> {
    v.map_values(|i: ModelCatalogItem| i@)
}

/// The identities of the degrees of reasoning.
pub open spec fn effort_ids(v: Seq<ReasoningEffort>) -> Seq<Seq<char>> {
    v.map_values(|e: ReasoningEffort| e.id@)
}

/// The row of a model of a provider.
pub open spec fn row_of(g: ModelProviderGroup, m: ModelCatalogModel) -> CatalogRow {
    CatalogRow {
        provider_id: g.id@,
        provider_name: g.name@,
        model_id: m.id@,
        model_name: m.name@,
        description: opt_text(m.description),
        reasoning_efforts: match m.reasoning {
            Some(r) => effort_ids(r.efforts@),
            None => Seq::empty(),
        },
        default_effort: match m.reasoning {
            Some(r) => opt_text(r.default_effort),
            None => None,
        },
    }
}

/// The rows of a provider, in the order of its models.
pub open spec fn group_rows(g: ModelProviderGroup) -> Seq<CatalogRow> {
    g.models@.map_values(|m: ModelCatalogModel| row_of(g, m))
}

/// The rows of the first `n` providers, in their order.
pub open spec fn flattened(groups: Seq<ModelProviderGroup>, n: nat) -> Seq<CatalogRow>
    decreases n,
{
    if n == 0 {
        Seq::empty()
    } else {
        flattened(groups, (n - 1) as nat) + group_rows(groups[n - 1])
    }
}

/// The texts of a row that are searched.
pub open spec fn row_fields(r: CatalogRow) -> Seq<Seq<char>> {
    seq![r.model_id, r.model_name, r.provider_id, r.provider_name]
}

/// The texts of each row that are searched.
pub open spec fn fields_of(rows: Seq<CatalogRow>) -> Seq<Seq<Seq<char>>> {
    rows.map_values(|r: CatalogRow| row_fields(r))
}

/// The rows that a query shows, as numbers: all for a blank query, else those
/// that match, the best first.
pub open spec fn shown(rows: Seq<CatalogRow>, query: Seq<char>) -> Seq<int> {
    if trimmed(query).len() == 0 {
        Seq::new(rows.len(), |i: int| i)
    } else {
        matched(best_scores(trimmed(query), fields_of(rows)))
    }
}

/// The list of rows.
#[derive(Debug, PartialEq, Eq)]
pub struct CatalogIndex {
    items: Vec<ModelCatalogItem>,
}

impl View for CatalogIndex {
    type V = Seq<CatalogRow>;

    closed spec fn view(&self) -> Seq<CatalogRow> {
        row_views(self.items@)
    }
}

fn item_of(group: &ModelProviderGroup, model: &ModelCatalogModel) -> (r: ModelCatalogItem)
    ensures
        r@ == row_of(*group, *model),
{
    let mut efforts: Vec<String> = Vec::new();
    let mut default_effort: Option<String> = None;
    if let Some(reasoning) = &model.reasoning {
        let mut i: usize = 0;
        while i < reasoning.efforts.len()
            invariant
                i <= reasoning.efforts@.len(),
                texts(efforts@) == effort_ids(reasoning.efforts@.take(i as int)),
            decreases reasoning.efforts@.len() - i,
        {
            let ghost before = texts(efforts@);
            efforts.push(reasoning.efforts[i].id.clone());
            assert(texts(efforts@) =~= before.push(reasoning.efforts@[i as int].id@));
            assert(effort_ids(reasoning.efforts@.take(i + 1)) =~= effort_ids(
                reasoning.efforts@.take(i as int),
            ).push(reasoning.efforts@[i as int].id@));
            i = i + 1;
        }
        assert(reasoning.efforts@.take(i as int) =~= reasoning.efforts@);
        default_effort = copy_opt(&reasoning.default_effort);
    }
    let r = ModelCatalogItem {
        provider_id: group.id.clone(),
        provider_name: group.name.clone(),
        model_id: model.id.clone(),
        model_name: model.name.clone(),
        description: copy_opt(&model.description),
        reasoning_efforts: efforts,
        default_effort,
    };
    assert(r@ =~= row_of(*group, *model));
    r
}

impl CatalogIndex {
    /// An empty list.
    pub fn new() -> (r: CatalogIndex)
        ensures
            r@ == Seq::<CatalogRow>::empty(),
    {
        let r = CatalogIndex { items: Vec::new() };
        assert(r@ =~= Seq::<CatalogRow>::empty());
        r
    }

    /// Replaces the list by the rows of a catalog: the providers in their
    /// order, each with its models in their order.
    pub fn rebuild(&mut self, catalog: &ModelCatalog)
        ensures
            final(self)@ == flattened(catalog.groups@, catalog.groups@.len()),
    {
        let mut items: Vec<ModelCatalogItem> = Vec::new();
        let mut g: usize = 0;
        assert(row_views(items@) =~= flattened(catalog.groups@, 0));
        while g < catalog.groups.len()
            invariant
                g <= catalog.groups@.len(),
                row_views(items@) == flattened(catalog.groups@, g as nat),
            decreases catalog.groups@.len() - g,
        {
            let group = &catalog.groups[g];
            let ghost base = row_views(items@);
            let ghost rows = group_rows(*group);
            let mut m: usize = 0;
            assert(base + rows.take(0) =~= base);
            while m < group.models.len()
                invariant
                    m <= group.models@.len(),
                    rows == group_rows(*group),
                    row_views(items@) == base + rows.take(m as int),
                decreases group.models@.len() - m,
            {
                let item = item_of(group, &group.models[m]);
                let ghost before = row_views(items@);
                let ghost v = item@;
                items.push(item);
                assert(row_views(items@) =~= before.push(v));
                assert(rows.take(m + 1) =~= rows.take(m as int).push(rows[m as int]));
                assert(row_views(items@) =~= base + rows.take(m + 1));
                m = m + 1;
            }
            assert(rows.take(m as int) =~= rows);
            g = g + 1;
        }
        self.items = items;
    }

    /// Every row.
    pub fn items(&self) -> (r: &Vec<ModelCatalogItem>)
        ensures
            row_views(r@) == self@,
    {
        &self.items
    }

    /// Number of rows.
    pub fn len(&self) -> (r: usize)
        ensures
            r == self@.len(),
    {
        self.items.len()
    }

    /// Whether there is no row.
    pub fn is_empty(&self) -> (r: bool)
        ensures
            r == (self@.len() == 0),
    {
        self.items.len() == 0
    }

    /// The texts of each row that are searched.
    fn search_fields(&self) -> (r: Vec<Vec<String>>)
        ensures
            field_texts(r@) == fields_of(self@),
    {
        let ghost rows = self@;
        let mut fields: Vec<Vec<String>> = Vec::new();
        let mut i: usize = 0;
        while i < self.items.len()
            invariant
                i <= self.items@.len(),
                rows == row_views(self.items@),
                fields@.len() == i,
                forall|k: int|
                    0 <= k < i ==> texts((#[trigger] fields@[k])@) == row_fields(rows[k]),
            decreases self.items@.len() - i,
        {
            let item = &self.items[i];
            let mut f: Vec<String> = Vec::new();
            f.push(item.model_id.clone());
            f.push(item.model_name.clone());
            f.push(item.provider_id.clone());
            f.push(item.provider_name.clone());
            assert(texts(f@) =~= row_fields(rows[i as int]));
            fields.push(f);
            i = i + 1;
        }
        assert(field_texts(fields@) =~= fields_of(rows));
        fields
    }

    /// Whether the rows can be searched for a query.
    pub open spec fn answers(&self, query: Seq<char>) -> bool {
        trimmed(query).len() > 0 ==> all_searchable(trimmed(query), fields_of(self@))
    }

    /// The rows that a query shows.
    pub fn query(&self, query: &str) -> (r: Vec<&ModelCatalogItem>)
        requires
            self.answers(query@),
        ensures
            r@.map_values(|i: &ModelCatalogItem| i@) == shown(self@, query@).map_values(
                |i: int| self@[i],
            ),
    {
        let needle = trim(query);
        let ghost rows = self@;
        if needle.as_str().is_empty() {
            let mut all: Vec<&ModelCatalogItem> = Vec::new();
            let mut i: usize = 0;
            while i < self.items.len()
                invariant
                    i <= self.items@.len(),
                    rows == row_views(self.items@),
                    all@.len() == i,
                    forall|k: int| 0 <= k < i ==> (#[trigger] all@[k])@ == rows[k],
                decreases self.items@.len() - i,
            {
                all.push(&self.items[i]);
                i = i + 1;
            }
            assert(all@.map_values(|i: &ModelCatalogItem| i@) =~= shown(rows, query@).map_values(
                |i: int| rows[i],
            ));
            return all;
        }
        let fields = self.search_fields();
        let found = scores(needle.as_str(), &fields);
        self.pick(&found)
    }

    /// The rows that a query shows, none where the rows cannot be searched for
    /// it.
    pub fn try_query(&self, query: &str) -> (r: Option<Vec<&ModelCatalogItem>>)
        ensures
            r is Some == self.answers(query@),
            r is Some ==> r->0@.map_values(|i: &ModelCatalogItem| i@) == shown(
                self@,
                query@,
            ).map_values(|i: int| self@[i]),
    {
        let needle = trim(query);
        if needle.as_str().is_empty() || can_search_all(needle.as_str(), &self.search_fields()) {
            Some(self.query(query))
        } else {
            None
        }
    }

    /// The rows with a score, the best first, equal ones in their order.
    pub fn pick(&self, found: &Vec<Option<u32>>) -> (r: Vec<&ModelCatalogItem>)
        requires
            found@.len() == self@.len(),
        ensures
            r@.map_values(|i: &ModelCatalogItem| i@) == matched(found@).map_values(
                |i: int| self@[i],
            ),
    {
        let ghost rows = self@;
        let order = rank_matches(found);
        let mut r: Vec<&ModelCatalogItem> = Vec::new();
        let mut i: usize = 0;
        while i < order.len()
            invariant
                i <= order@.len(),
                rows == row_views(self.items@),
                found@.len() == rows.len(),
                numbers(order@) == matched(found@),
                forall|k: int| 0 <= k < order@.len() ==> #[trigger] order@[k] < found@.len(),
                r@.len() == i,
                forall|k: int|
                    0 <= k < i ==> (#[trigger] r@[k])@ == rows[order@[k] as int],
            decreases order@.len() - i,
        {
            r.push(&self.items[order[i]]);
            i = i + 1;
        }
        assert(r@.map_values(|i: &ModelCatalogItem| i@) =~= matched(found@).map_values(
            |i: int| rows[i],
        )) by {
            assert forall|k: int| 0 <= k < r@.len() implies (#[trigger] r@[k])@ == rows[matched(
                found@,
            )[k]] by {
                assert(numbers(order@)[k] == order@[k]);
            }
        }
        r
    }
}

impl ModelCatalogItem {
    /// The route of a model: its provider and its identity.
    pub fn route(&self) -> (r: String)
        ensures
            r@ == self@.provider_id + "/"@ + self@.model_id,
    {
        cat3(self.provider_id.as_str(), "/", self.model_id.as_str())
    }

    /// Whether a selection names this model.
    pub fn matches(&self, sel: &WireModelSelection) -> (r: bool)
        ensures
            r == (sel.provider@ == self@.provider_id && sel.model@ == self@.model_id),
    {
        same(sel.provider.as_str(), self.provider_id.as_str()) && same(
            sel.model.as_str(),
            self.model_id.as_str(),
        )
    }
}

/// Every row that a query shows is a row of the catalog, and each is shown
/// once.
pub proof fn law_query_shows_rows_once(rows: Seq<CatalogRow>, query: Seq<char>)
    ensures
        forall|k: int|
            0 <= k < shown(rows, query).len() ==> 0 <= #[trigger] shown(rows, query)[k]
                < rows.len(),
        shown(rows, query).no_duplicates(),
{
    if trimmed(query).len() > 0 {
        let s = best_scores(trimmed(query), fields_of(rows));
        let keys = crate::fuzzy::as_keys(s);
        crate::order::law_ranking_is_stable(keys, s.len());
        let r = matched(s);
        assert forall|i: int, j: int| 0 <= i < r.len() && 0 <= j < r.len() && i != j implies r[i]
            != r[j] by {
            if i < j {
                assert(crate::order::stands_before(keys, r[i], r[j]));
            } else {
                assert(crate::order::stands_before(keys, r[j], r[i]));
            }
        }
    }
}

/// A row of the catalog says of its model what the server says: the provider,
/// the model, what it offers and what it uses by default.
pub proof fn law_rows_describe_their_model(g: ModelProviderGroup, m: ModelCatalogModel, i: int)
    ensures
        ({
            let r = row_of(g, m);
            &&& r.provider_id == g.id@ && r.provider_name == g.name@
            &&& r.model_id == m.id@ && r.model_name == m.name@
            &&& r.description == opt_text(m.description)
            &&& m.reasoning is Some ==> {
                &&& r.reasoning_efforts.len() == m.reasoning->0.efforts@.len()
                &&& 0 <= i < r.reasoning_efforts.len() ==> r.reasoning_efforts[i]
                    == m.reasoning->0.efforts@[i].id@
                &&& r.default_effort == opt_text(m.reasoning->0.default_effort)
            }
            &&& m.reasoning is None ==> r.reasoning_efforts.len() == 0 && r.default_effort is None
        }),
{
}

/// The catalog has a row for every model of every provider, and no other: the
/// providers in their order, each with its models in theirs.
pub proof fn law_every_model_has_a_row(
    groups: Seq<ModelProviderGroup>,
    n: nat,
    i: int,
    j: int,
)
    requires
        n <= groups.len(),
    ensures
        0 <= i < n && 0 <= j < groups[i].models@.len() ==> flattened(groups, n).contains(
            row_of(groups[i], groups[i].models@[j]),
        ),
        n < groups.len() ==> flattened(groups, n).is_prefix_of(flattened(groups, n + 1))
            && flattened(groups, n + 1).len() == flattened(groups, n).len()
            + groups[n as int].models@.len(),
        n < groups.len() && 0 <= j < groups[n as int].models@.len() ==> flattened(
            groups,
            n + 1,
        )[flattened(groups, n).len() + j] == row_of(
            groups[n as int],
            groups[n as int].models@[j],
        ),
    decreases n,
{
    if n < groups.len() {
        assert(flattened(groups, n) =~= flattened(groups, n + 1).take(
            flattened(groups, n).len() as int,
        ));
    }
    if n > 0 && 0 <= i < n && 0 <= j < groups[i].models@.len() {
        let before = flattened(groups, (n - 1) as nat);
        let rows = group_rows(groups[n - 1]);
        let x = row_of(groups[i], groups[i].models@[j]);
        if i < n - 1 {
            law_every_model_has_a_row(groups, (n - 1) as nat, i, j);
            let k = choose|k: int| 0 <= k < before.len() && before[k] == x;
            assert((before + rows)[k] == x);
        } else {
            assert(rows[j] == x);
            assert((before + rows)[before.len() + j] == x);
        }
    }
}

/// A blank query shows every row in order; another shows a row where its model
/// or its provider matches, by id or by name, and no other row.
pub proof fn law_rows_are_found_by_any_text(
    rows: Seq<CatalogRow>,
    query: Seq<char>,
    i: int,
    f: Seq<char>,
)
    requires
        0 <= i < rows.len(),
    ensures
        (forall|k: int| 0 <= k < query.len() ==> whitespace(#[trigger] query[k])) ==> shown(
            rows,
            query,
        ).len() == rows.len() && shown(rows, query)[i] == i,
        trimmed(query).len() > 0 && f.len() > 0 && (f == rows[i].model_id || f
            == rows[i].model_name || f == rows[i].provider_id || f == rows[i].provider_name)
            && fuzzy_score(trimmed(query), f) is Some ==> shown(rows, query).contains(i),
        trimmed(query).len() > 0 && fuzzy_score(trimmed(query), rows[i].model_id) is None
            && fuzzy_score(trimmed(query), rows[i].model_name) is None && fuzzy_score(
            trimmed(query),
            rows[i].provider_id,
        ) is None && fuzzy_score(trimmed(query), rows[i].provider_name) is None ==> !shown(
            rows,
            query,
        ).contains(i),
{
    law_blank_texts_are_whitespace(query);
    let q = trimmed(query);
    if q.len() > 0 {
        let fields = row_fields(rows[i]);
        law_best_score_is_the_greatest(q, fields);
        let found = best_scores(q, fields_of(rows));
        assert(found[i] == best_score(q, fields));
        assert(fields[0] == rows[i].model_id && fields[1] == rows[i].model_name && fields[2]
            == rows[i].provider_id && fields[3] == rows[i].provider_name);
        law_matches_are_the_best_first(found);
        if shown(rows, query).contains(i) {
            let k = choose|k: int| 0 <= k < matched(found).len() && matched(found)[k] == i;
            assert(found[matched(found)[k]] is Some);
            let n = choose|n: int|
                0 <= n < fields.len() && (#[trigger] fields[n]).len() > 0 && fuzzy_score(
                    q,
                    fields[n],
                ) == best_score(q, fields);
            assert(n == 0 || n == 1 || n == 2 || n == 3);
        }
    }
}

} // verus!
