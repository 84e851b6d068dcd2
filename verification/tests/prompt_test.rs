use ola::config::{Config, ProviderConfig};
use ola::models::{Context, Goal, Project, ProjectFile};
use ola::prompt::{
    FileText, build_project_prompt, filtered_response, format_prompt, non_think_log_entry,
    render_file_text, session_command_log_entry, session_log_entry, stream_non_think,
    stream_non_think_test, structure_reasoning, structure_reasoning_test,
    structure_reasoning_with_project,
};
use ola::settings::{PromptTemplate, Settings};

fn default_template() -> PromptTemplate {
    PromptTemplate::default()
}

fn openai_config() -> Config {
    let mut config = Config::empty();
    config.add_provider(ProviderConfig {
        provider: "OpenAI".to_string(),
        api_key: "sk-test".to_string(),
        model: Some("gpt-4".to_string()),
        base_url: None,
    });
    config
}

#[test]
fn assembler_concatenates_three_labeled_sections() {
    let out = format_prompt("G", "F", "W", None, &default_template());
    assert_eq!(out, "🏆 Goals: G\n📝 Return Format: F\n⚠️ Warnings: W");
}

#[test]
fn assembler_appends_context_line_when_given() {
    let out = format_prompt("G", "F", "W", Some("C"), &default_template());
    assert_eq!(out, "🏆 Goals: G\n📝 Return Format: F\n⚠️ Warnings: W\nContext: C");
}

#[test]
fn structure_reasoning_builds_plan() {
    let config = openai_config();
    let settings = Settings::default();
    let plan = structure_reasoning(&config, &settings, "G", "F", "W", None, "tip").unwrap();
    assert_eq!(
        plan.prompt,
        "🏆 Goals: G\n📝 Return Format: F\n⚠️ Warnings: W\nHINTS: tip"
    );
    assert_eq!(plan.model, "gpt-4");
    assert_eq!(plan.client.get_provider_name(), "OpenAI");
}

#[test]
fn structure_reasoning_without_provider_fails() {
    let config = Config::empty();
    let settings = Settings::default();
    let err = structure_reasoning(&config, &settings, "G", "F", "W", None, "").unwrap_err();
    assert_eq!(
        err.message(),
        "No active provider configured. Run 'ola configure' first."
    );
}

#[test]
fn structure_reasoning_falls_back_to_default_model() {
    let mut config = Config::empty();
    config.add_provider(ProviderConfig {
        provider: "Ollama".to_string(),
        api_key: String::new(),
        model: None,
        base_url: None,
    });
    let settings = Settings::default();
    let plan = structure_reasoning(&config, &settings, "G", "F", "W", None, "").unwrap();
    assert_eq!(plan.model, "gpt-5");
}

#[test]
fn stream_non_think_keeps_raw_prompt() {
    let config = openai_config();
    let settings = Settings::default();
    let plan = stream_non_think(&config, &settings, "raw prompt", Some("ctx"), "").unwrap();
    assert_eq!(plan.prompt, "raw prompt\nContext: ctx");
}

#[test]
fn filtered_response_modes() {
    assert_eq!(filtered_response("a<think>x</think>b", true), "ab");
    assert_eq!(filtered_response("a<think>x</think>b", false), "a<think>x</think>b");
}

#[test]
fn mocked_test_paths_name_the_provider() {
    let config = openai_config();
    let settings = Settings::default();
    let result = structure_reasoning_test(&config, &settings, "Test prompt", "text", "", false,
        None, false).unwrap();
    assert!(result.content.contains("mocked response from the OpenAI API"));
    assert_eq!(result.model, "gpt-4");

    let result = stream_non_think_test(&config, &settings, "Test prompt", false, None, false)
        .unwrap();
    assert!(result.content.contains("mocked response from the OpenAI API"));

    let empty = Config::empty();
    assert!(structure_reasoning_test(&empty, &settings, "p", "text", "", false, None, false)
        .is_err());
}

#[test]
fn project_prompt_sections() {
    let mut project = Project::new("Demo".to_string());
    project.add_goal(Goal::new("ship it".to_string(), 0));
    project.add_context(Context::new("legacy code".to_string(), 0));
    project.add_file(ProjectFile::new("main.rs".to_string(), 12, None));
    let texts = vec![FileText::Content("fn main() {}".to_string())];

    let out = build_project_prompt(&project, &texts, Some("do the thing"));
    let expected = "## Project Goals\n1. ship it\n\n## Context Information\n1. legacy code\n\n\
## Project Files\n### File: main.rs\n```\nfn main() {}\n```\n\n## User Request\ndo the thing";
    assert_eq!(out, expected);
}

#[test]
fn project_prompt_missing_and_unreadable_files() {
    let mut project = Project::new("Demo".to_string());
    project.add_file(ProjectFile::new("gone.txt".to_string(), 3, None));
    project.add_file(ProjectFile::new("locked.txt".to_string(), 3, None));
    let texts = vec![FileText::Missing, FileText::Unreadable("denied".to_string())];

    let out = build_project_prompt(&project, &texts, None);
    let expected = "## Project Files\n### File: gone.txt\n[File not found]\n\n\
### File: locked.txt\n[Error reading file: denied]\n";
    assert_eq!(out, expected);
}

#[test]
fn project_prompt_empty_project_is_just_the_request() {
    let project = Project::new("Demo".to_string());
    let out = build_project_prompt(&project, &Vec::new(), Some("hello"));
    assert_eq!(out, "hello");
}

#[test]
fn file_content_is_truncated_at_byte_ceiling() {
    let long = "a".repeat(10005);
    let rendered = render_file_text(&long, 10005);
    let expected = format!(
        "{}...\n[Content truncated - file is 10005 bytes]",
        "a".repeat(10000)
    );
    assert_eq!(rendered, expected);

    let short = "b".repeat(10000);
    assert_eq!(render_file_text(&short, 10000), short);
}

#[test]
fn truncation_respects_character_boundaries() {
    // 3334 three-byte characters make 10002 bytes; only 3333 of them
    // (9999 bytes) fit under the ceiling.
    let long = "€".repeat(3334);
    let rendered = render_file_text(&long, 10002);
    assert!(rendered.starts_with(&"€".repeat(3333)));
    assert!(rendered.ends_with("...\n[Content truncated - file is 10002 bytes]"));
    assert!(!rendered.starts_with(&"€".repeat(3334)));
}

#[test]
fn project_reasoning_plan_embeds_project_prompt() {
    let mut project = Project::new("Demo".to_string());
    project.add_goal(Goal::new("g1".to_string(), 0));
    let config = openai_config();
    let settings = Settings::default();
    let plan = structure_reasoning_with_project(&config, &settings, &project, &Vec::new(), "run",
        "text", "", Some("extra"), "").unwrap();
    let expected_inner =
        "## Project Goals\n1. g1\n\n## User Request\nrun\n\nAdditional Context: extra";
    let expected = format!("🏆 Goals: {}\n📝 Return Format: text\n⚠️ Warnings: ", expected_inner);
    assert_eq!(plan.prompt, expected);
}

#[test]
fn log_entries_render_exactly() {
    let entry = session_log_entry("2024-01-01T00:00:00Z", "g", "f", "w", "m", 42, None);
    assert_eq!(
        entry,
        "{\"timestamp\":\"2024-01-01T00:00:00Z\",\"goals\":\"g\",\"return_format\":\"f\",\"warnings\":\"w\",\"model\":\"m\",\"output_length\":42}"
    );

    let entry = session_log_entry("t", "g", "f", "w", "m", 0, Some(3));
    assert_eq!(
        entry,
        "{\"timestamp\":\"t\",\"goals\":\"g\",\"return_format\":\"f\",\"warnings\":\"w\",\"model\":\"m\",\"output_length\":0,\"recursion_wave\":3}"
    );

    let entry = non_think_log_entry("t", "say \"hi\"\n", "m", 7);
    assert_eq!(
        entry,
        "{\"timestamp\":\"t\",\"prompt\":\"say \\\"hi\\\"\\n\",\"model\":\"m\",\"output_length\":7}"
    );

    let entry = session_command_log_entry("t", "g", "f", "w", "in", "out");
    assert_eq!(
        entry,
        "{\"timestamp\":\"t\",\"goals\":\"g\",\"return_format\":\"f\",\"warnings\":\"w\",\"input\":\"in\",\"output\":\"out\"}"
    );
}

#[test]
fn log_entries_agree_with_json_parsing() {
    let entry = session_log_entry("t", "quote \" and \\ back", "f", "w", "m", 5, Some(1));
    let value: serde_json::Value = serde_json::from_str(&entry).unwrap();
    assert_eq!(value["goals"].as_str().unwrap(), "quote \" and \\ back");
    assert_eq!(value["output_length"].as_u64().unwrap(), 5);
    assert_eq!(value["recursion_wave"].as_u64().unwrap(), 1);

    let entry = non_think_log_entry("t", "line\nbreak\ttab\u{1}", "m", 1);
    let value: serde_json::Value = serde_json::from_str(&entry).unwrap();
    assert_eq!(value["prompt"].as_str().unwrap(), "line\nbreak\ttab\u{1}");
}
