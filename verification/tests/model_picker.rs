use pie::model::Model;
use pie::model_picker::{catalog_with, ModelEntry};

fn custom_model(provider: &str, id: &str, api: &str) -> Model {
    Model {
        id: id.into(),
        name: id.into(),
        api: api.into(),
        provider: provider.into(),
        context_window: 8192,
    }
}

#[test]
fn catalog_keeps_openai_and_anthropic_families_only() {
    let models = vec![
        custom_model("picker-test-ds4", "deepseek-v4-flash", "openai-completions"),
        custom_model("picker-test-bedrock", "converse-x", "bedrock-converse-stream"),
    ];

    let groups = catalog_with(models, |_: &str| true);
    let providers: Vec<&str> = groups.iter().map(|g| g.provider.as_str()).collect();
    assert!(providers.contains(&"picker-test-ds4"));
    assert!(!providers.contains(&"picker-test-bedrock"));
}

#[test]
fn catalog_sorts_models_and_flags_credentials() {
    let models = vec![
        custom_model("openai", "gpt-b", "openai-responses"),
        custom_model("anthropic", "m-b", "anthropic-messages"),
        custom_model("anthropic", "m-a", "anthropic-messages"),
        custom_model("openai", "gpt-a", "openai-codex-responses"),
    ];
    let groups = catalog_with(models, |provider: &str| provider == "anthropic");
    let anthropic = groups
        .iter()
        .find(|g| g.provider == "anthropic")
        .expect("embedded anthropic models present");
    assert!(anthropic.has_credential);
    assert!(!anthropic.models.is_empty());
    let mut sorted = anthropic.models.clone();
    sorted.sort_by(|a, b| a.id.cmp(&b.id));
    assert_eq!(anthropic.models, sorted);

    let openai = groups
        .iter()
        .find(|g| g.provider == "openai")
        .expect("embedded openai models present");
    assert!(!openai.has_credential);
}

#[test]
fn groups_stand_in_the_order_of_their_providers() {
    let models = vec![
        custom_model("c", "1", "openai-completions"),
        custom_model("a", "1", "openai-completions"),
        custom_model("ab", "1", "openai-completions"),
        custom_model("Z", "1", "openai-completions"),
        custom_model("é", "1", "openai-completions"),
        custom_model("c", "0", "openai-completions"),
    ];
    let groups = catalog_with(models, |_: &str| false);
    let providers: Vec<&str> = groups.iter().map(|g| g.provider.as_str()).collect();
    assert_eq!(providers, vec!["Z", "a", "ab", "c", "é"]);
    assert_eq!(groups[3].models.len(), 2);
    assert_eq!(groups[3].models[0].id, "0");
}

#[test]
fn models_with_one_id_keep_their_order() {
    let named = |name: &str| Model {
        name: name.into(),
        ..custom_model("p", "same", "openai-completions")
    };
    let models = vec![
        named("first"),
        custom_model("p", "before", "openai-completions"),
        named("second"),
    ];
    let groups = catalog_with(models, |_: &str| true);
    assert_eq!(
        groups[0].models,
        vec![
            ModelEntry {
                id: "before".into(),
                name: "before".into(),
            },
            ModelEntry {
                id: "same".into(),
                name: "first".into(),
            },
            ModelEntry {
                id: "same".into(),
                name: "second".into(),
            },
        ]
    );
}

#[test]
fn no_models_make_no_groups() {
    assert!(catalog_with(vec![], |_: &str| true).is_empty());
}
