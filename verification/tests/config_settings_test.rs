use ola::api::create_api_client_from_config;
use ola::config::{Config, ProviderConfig, validate_provider_config};
use ola::output::Color;
use ola::settings::{
    Settings, apply_settings_updates, default_model, get_nvim_path, should_use_nvim,
};
use ola::text::split_lines;

fn entry(provider: &str, api_key: &str, model: Option<&str>) -> ProviderConfig {
    ProviderConfig {
        provider: provider.to_string(),
        api_key: api_key.to_string(),
        model: model.map(|m| m.to_string()),
        base_url: None,
    }
}

#[test]
fn validation_accepts_well_formed_entries() {
    assert!(validate_provider_config(&entry("OpenAI", "sk-abc", Some("gpt-4"))).is_ok());
    assert!(validate_provider_config(&entry("Anthropic", "sk-ant-abc", Some("sonnet-2.1")))
        .is_ok());
    assert!(validate_provider_config(&entry("Ollama", "", Some("llama2"))).is_ok());
    assert!(validate_provider_config(&entry("Gemini", "anything", Some("gemini-1.5-pro")))
        .is_ok());
}

#[test]
fn validation_names_the_first_failing_rule() {
    assert_eq!(
        validate_provider_config(&entry("OpenAI", "  ", Some("gpt-4"))).unwrap_err(),
        "API key cannot be empty"
    );
    assert_eq!(
        validate_provider_config(&entry("OpenAI", "key", Some("gpt-4"))).unwrap_err(),
        "OpenAI API key should start with 'sk-'"
    );
    assert_eq!(
        validate_provider_config(&entry("OpenAI", "sk-abc", None)).unwrap_err(),
        "OpenAI requires a model name"
    );
    assert_eq!(
        validate_provider_config(&entry("Anthropic", "sk-abc", Some("m"))).unwrap_err(),
        "Anthropic API key should start with 'sk-ant-'"
    );
    assert_eq!(
        validate_provider_config(&entry("Ollama", "", None)).unwrap_err(),
        "Ollama requires a model name"
    );
    assert_eq!(
        validate_provider_config(&entry("Mistral", "k", Some("m"))).unwrap_err(),
        "Unsupported provider: Mistral"
    );
}

#[test]
fn adding_a_provider_replaces_or_appends_and_activates() {
    let mut config = Config::empty();
    config.add_provider(entry("OpenAI", "sk-one", Some("gpt-4")));
    assert_eq!(config.providers.len(), 1);
    assert_eq!(config.active_provider, "OpenAI");

    config.add_provider(entry("Anthropic", "sk-ant-two", Some("sonnet-2.1")));
    assert_eq!(config.providers.len(), 2);
    assert_eq!(config.active_provider, "Anthropic");

    config.add_provider(entry("OpenAI", "sk-three", Some("gpt-4o")));
    assert_eq!(config.providers.len(), 2);
    assert_eq!(config.active_provider, "OpenAI");
    assert_eq!(config.providers[0].api_key, "sk-three");
}

#[test]
fn active_provider_lookup() {
    let mut config = Config::empty();
    assert!(config.get_active_provider().is_none());
    config.add_provider(entry("Ollama", "", Some("llama2")));
    let active = config.get_active_provider().unwrap();
    assert_eq!(active.provider, "Ollama");
    config.active_provider = "OpenAI".to_string();
    assert!(config.get_active_provider().is_none());
}

#[test]
fn client_from_config() {
    let mut config = Config::empty();
    config.add_provider(ProviderConfig {
        provider: "Ollama".to_string(),
        api_key: String::new(),
        model: Some("llama2".to_string()),
        base_url: Some("http://mock:1234".to_string()),
    });
    let client = create_api_client_from_config(&config).unwrap();
    assert_eq!(client.get_provider_name(), "Ollama");
    let req = client.request("p", "llama2", false);
    assert_eq!(req.url, "http://mock:1234/api/generate");

    let empty = Config::empty();
    let err = create_api_client_from_config(&empty).unwrap_err();
    assert_eq!(
        err.message(),
        "No active provider configured. Run 'ola configure' first."
    );
}

#[test]
fn settings_defaults() {
    let settings = Settings::default();
    assert_eq!(settings.default_model, "gpt-5");
    assert_eq!(settings.prompt_template.goals_prefix, "🏆 Goals: ");
    assert_eq!(settings.prompt_template.return_format_prefix, "📝 Return Format: ");
    assert_eq!(settings.prompt_template.warnings_prefix, "⚠️ Warnings: ");
    assert_eq!(settings.defaults.return_format, "text");
    assert!(!settings.defaults.quiet);
    assert!(!settings.defaults.clipboard);
    assert!(settings.behavior.enable_logging);
    assert_eq!(settings.behavior.log_file, "sessions.jsonl");
    assert_eq!(default_model(), "gpt-5");
}

#[test]
fn settings_updates_apply_in_order() {
    let mut settings = Settings::default();
    settings.default_model = "other".to_string();
    settings.behavior.enable_logging = false;

    let changed = apply_settings_updates(&mut settings, None, None, None, None, false);
    assert!(!changed);
    assert_eq!(settings.default_model, "other");

    let changed = apply_settings_updates(
        &mut settings,
        Some("newmodel".to_string()),
        Some("json".to_string()),
        Some(true),
        Some("my.log".to_string()),
        false,
    );
    assert!(changed);
    assert_eq!(settings.default_model, "newmodel");
    assert_eq!(settings.defaults.return_format, "json");
    assert!(settings.behavior.enable_logging);
    assert_eq!(settings.behavior.log_file, "my.log");

    let changed = apply_settings_updates(&mut settings, None, None, None, None, true);
    assert!(changed);
    assert_eq!(settings.default_model, "gpt-5");
    assert_eq!(settings.behavior.log_file, "sessions.jsonl");
}

#[test]
fn editor_decisions() {
    assert_eq!(get_nvim_path(None), "nvim");
    assert_eq!(get_nvim_path(Some("/usr/bin/nvim")), "/usr/bin/nvim");
    assert!(should_use_nvim(true, false, false));
    assert!(!should_use_nvim(false, true, true));
    assert!(should_use_nvim(false, false, true));
    assert!(!should_use_nvim(false, false, false));
}

#[test]
fn color_codes() {
    assert_eq!(Color::Red.code(), "\u{1b}[31m");
    assert_eq!(Color::Reset.code(), "\u{1b}[0m");
    assert_eq!(Color::BrightBlue.code(), "\u{1b}[94m");
    assert_eq!(Color::DeepSkyBlue.code(), "\u{1b}[38;5;39m");
    assert_eq!(Color::Gold.code(), "\u{1b}[38;5;220m");
}

#[test]
fn line_splitting_matches_buffered_reading() {
    let lines = split_lines("a\nb\r\n\nc");
    assert_eq!(lines, vec!["a", "b", "", "c"]);
    let lines = split_lines("one\n");
    assert_eq!(lines, vec!["one"]);
    let lines = split_lines("");
    assert!(lines.is_empty());
}
