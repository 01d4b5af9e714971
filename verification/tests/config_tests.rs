use rovdex::config::{parse_model_reference, ConfigError, ProviderKind, WorkspaceConfig};
use rovdex::provider::ProviderSelection;

fn selected(r: Result<ProviderSelection, ConfigError>) -> ProviderSelection {
    match r {
        Ok(s) => s,
        Err(e) => panic!("selection: {}", e.message()),
    }
}

#[test]
fn resolves_default_provider_selection() {
    let config = WorkspaceConfig::default();
    let selection = selected(config.resolve_provider_selection(config.default_agent(), None, None));

    assert_eq!(selection.provider_id, "local");
    assert_eq!(selection.model_id, "echo");
}

#[test]
fn resolves_model_without_explicit_provider() {
    let config = WorkspaceConfig::default();
    let selection = selected(config.resolve_provider_selection(config.default_agent(), None, Some("planner")));

    assert_eq!(selection.provider_id, "local");
    assert_eq!(selection.model_id, "planner");
}

#[test]
fn resolves_explicit_remote_provider_selection() {
    let config = WorkspaceConfig::default();
    let selection = selected(config.resolve_provider_selection(
        config.default_agent(),
        Some("openai"),
        Some("gpt-4.1-mini"),
    ));

    assert_eq!(selection.provider_id, "openai");
    assert_eq!(selection.model_id, "gpt-4.1-mini");
}

#[test]
fn unknown_provider_is_refused() {
    let config = WorkspaceConfig::default();
    let r = config.resolve_provider_selection(config.default_agent(), Some("nowhere"), Some("echo"));
    match r {
        Err(e) => {
            assert!(matches!(e, ConfigError::UnknownProvider(_)));
            assert_eq!(e.message(), "unknown provider: nowhere");
        }
        Ok(_) => panic!("expected an error"),
    }
}

#[test]
fn model_not_exposed_is_refused() {
    let config = WorkspaceConfig::default();
    let r = config.resolve_provider_selection(config.default_agent(), Some("local"), Some("gpt-4.1-mini"));
    assert!(matches!(r, Err(ConfigError::ModelNotExposed(_, _))));
}

#[test]
fn model_without_provider_is_refused() {
    let config = WorkspaceConfig::default();
    let r = config.resolve_provider_selection(config.default_agent(), None, Some("no-such-model"));
    assert!(matches!(r, Err(ConfigError::NoProviderForModel(_))));
}

#[test]
fn provider_override_takes_its_default_model() {
    let config = WorkspaceConfig::default();
    let selection = selected(config.resolve_provider_selection(config.default_agent(), Some("openai"), None));
    assert_eq!(selection.provider_id, "openai");
    assert_eq!(selection.model_id, "gpt-4.1-mini");
}

#[test]
fn default_config_has_local_and_openai_providers() {
    let config = WorkspaceConfig::default();
    assert_eq!(config.app_name, "Rovdex");
    let local = config.provider("local").expect("local provider");
    assert!(local.kind == ProviderKind::LocalEcho);
    assert!(local.has_model("echo"));
    assert!(local.has_model("planner"));
    let openai = config.provider("openai").expect("openai provider");
    assert!(openai.kind == ProviderKind::RemoteOpenAiCompatible);
    assert_eq!(config.default_agent().name, "build");
    assert!(config.agent("plan").is_some());
    assert!(config.agent("nobody").is_none());
}

#[test]
fn model_reference_splits_at_first_slash() {
    assert_eq!(
        parse_model_reference("openai/gpt-4.1-mini"),
        Some((String::from("openai"), String::from("gpt-4.1-mini")))
    );
    assert_eq!(
        parse_model_reference("a/b/c"),
        Some((String::from("a"), String::from("b/c")))
    );
    assert_eq!(parse_model_reference("echo"), None);
}

#[test]
fn fallback_takes_the_first_providers_default_model_unchecked() {
    let mut config = WorkspaceConfig::default();
    let mut first = config.provider("local").expect("local provider").clone();
    first.default_model = Some(String::from("not-listed"));
    config.providers.insert(String::from("local"), first);
    let selection = selected(config.resolve_provider_selection(config.default_agent(), None, None));
    assert_eq!(selection.provider_id, "local");
    assert_eq!(selection.model_id, "not-listed");
    // With an override the same model is checked and refused.
    let r = config.resolve_provider_selection(config.default_agent(), Some("local"), None);
    assert!(matches!(r, Err(ConfigError::ModelNotExposed(_, _))));
}

#[test]
fn chosen_models_are_exposed_by_their_provider() {
    let config = WorkspaceConfig::default();
    for (provider, model) in [(None, Some("gpt-4.1")), (Some("openai"), None), (Some("local"), Some("planner"))] {
        let selection = selected(config.resolve_provider_selection(config.default_agent(), provider, model));
        let chosen = config.provider(&selection.provider_id).expect("configured provider");
        assert!(chosen.has_model(&selection.model_id));
    }
}
