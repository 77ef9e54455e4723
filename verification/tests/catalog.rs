//! The catalog of models and the search in it.

use dshtui::model::catalog::{
    CatalogIndex, ModelCatalog, ModelCatalogModel, ModelProviderGroup, ModelReasoning,
    ReasoningEffort, WireModelSelection,
};

fn effort(id: &str, name: &str) -> ReasoningEffort {
    ReasoningEffort { id: id.into(), name: name.into() }
}

fn model(id: &str, name: &str, reasoning: Option<ModelReasoning>) -> ModelCatalogModel {
    ModelCatalogModel { id: id.into(), name: name.into(), description: None, reasoning }
}

fn catalog() -> ModelCatalog {
    ModelCatalog {
        groups: vec![ModelProviderGroup {
            id: "deepseek_official".into(),
            name: "DeepSeek 官方".into(),
            models: vec![
                model(
                    "deepseek-chat",
                    "DeepSeek Chat",
                    Some(ModelReasoning {
                        efforts: vec![effort("low", "Low"), effort("high", "High")],
                        default_effort: Some("low".into()),
                    }),
                ),
                model(
                    "deepseek-reasoner",
                    "DeepSeek Reasoner",
                    Some(ModelReasoning {
                        efforts: vec![effort("max", "Max")],
                        default_effort: None,
                    }),
                ),
                model("deepseek-v4-pro", "V4 Pro", None),
            ],
        }],
    }
}

#[test]
fn flatten_and_query_local_nucleo_ac006_01() {
    let mut idx = CatalogIndex::new();
    idx.rebuild(&catalog());
    assert_eq!(idx.len(), 3);
    let all = idx.query("");
    assert_eq!(all.len(), 3);
    assert_eq!(all[0].route(), "deepseek_official/deepseek-chat");
    assert_eq!(all[0].reasoning_efforts, vec!["low", "high"]);
    assert_eq!(all[0].default_effort.as_deref(), Some("low"));
    let hits = idx.query("reasoner");
    assert_eq!(hits.len(), 1);
    assert_eq!(hits[0].model_id, "deepseek-reasoner");
    let hits = idx.query("v4");
    assert_eq!(hits.len(), 1);
    assert_eq!(hits[0].model_id, "deepseek-v4-pro");
    assert!(idx.query("nope").is_empty());
}

#[test]
fn matches_route_against_wire_selection() {
    let mut idx = CatalogIndex::new();
    idx.rebuild(&catalog());
    let sel = WireModelSelection {
        provider: "deepseek_official".into(),
        model: "deepseek-chat".into(),
        reasoning_effort: Some("low".into()),
    };
    assert!(idx.items()[0].matches(&sel));
    assert!(!idx.items()[1].matches(&sel));
}

#[test]
fn rows_are_picked_by_their_scores() {
    let mut idx = CatalogIndex::new();
    assert!(idx.is_empty());
    idx.rebuild(&catalog());
    let hits = idx.pick(&vec![Some(1), None, Some(5)]);
    assert_eq!(hits.len(), 2);
    assert_eq!(hits[0].model_id, "deepseek-v4-pro");
    assert_eq!(hits[1].model_id, "deepseek-chat");
    let even = idx.pick(&vec![Some(3), Some(3), Some(3)]);
    assert_eq!(even[0].model_id, "deepseek-chat");
    assert_eq!(even[2].model_id, "deepseek-v4-pro");
}

#[test]
fn a_catalog_that_cannot_be_searched_says_so() {
    let mut c = catalog();
    c.groups[0].models.push(model("sigma", "ςσxä", None));
    let mut idx = CatalogIndex::new();
    idx.rebuild(&c);
    assert!(idx.try_query("σä").is_none());
    assert_eq!(idx.try_query(" ").unwrap().len(), 4);
    let hits = idx.try_query("reasoner").unwrap();
    assert_eq!(hits.len(), 1);
    assert_eq!(hits[0].model_id, "deepseek-reasoner");
    assert!(idx.try_query(&"a".repeat(2501)).is_none());
}
