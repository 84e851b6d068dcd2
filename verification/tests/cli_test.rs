use ola::cli::{
    ModelListing, NonThinkInputs, PromptInputs, known_models, resolve_models_provider,
    resolve_non_think_inputs, resolve_prompt_inputs,
};
use ola::json::{escape_json, parse_u8, u64_dec};

#[test]
fn explicit_goals_turn_piped_text_into_context() {
    let r = resolve_prompt_inputs(
        Some("g".to_string()),
        "piped".to_string(),
        "text".to_string(),
        "w".to_string(),
    );
    match r {
        PromptInputs::Ready { goals, format, warnings, context } => {
            assert_eq!(goals, "g");
            assert_eq!(format, "text");
            assert_eq!(warnings, "w");
            assert_eq!(context.as_deref(), Some("piped"));
        },
        _ => panic!("expected resolved inputs"),
    }
}

#[test]
fn piped_text_becomes_goals_without_explicit_ones() {
    let r = resolve_prompt_inputs(None, "piped".to_string(), "text".to_string(), String::new());
    match r {
        PromptInputs::Ready { goals, context, .. } => {
            assert_eq!(goals, "piped");
            assert!(context.is_none());
        },
        _ => panic!("expected resolved inputs"),
    }
}

#[test]
fn nothing_given_asks_the_user() {
    let r = resolve_prompt_inputs(None, String::new(), "text".to_string(), String::new());
    assert!(matches!(r, PromptInputs::NeedsInteractive));

    let r = resolve_non_think_inputs(None, String::new());
    assert!(matches!(r, NonThinkInputs::NeedsInteractive));
}

#[test]
fn non_think_inputs_resolve() {
    let r = resolve_non_think_inputs(Some("p".to_string()), "ctx".to_string());
    match r {
        NonThinkInputs::Ready { prompt, context } => {
            assert_eq!(prompt, "p");
            assert_eq!(context.as_deref(), Some("ctx"));
        },
        _ => panic!("expected resolved inputs"),
    }
}

#[test]
fn model_listings_per_provider() {
    match known_models("OpenAI") {
        ModelListing::Fixed(v) => {
            assert_eq!(
                v,
                vec!["gpt-4o", "gpt-4", "o3", "o3-pro", "o4", "o4-mini", "o4-mini-high"]
                    .into_iter()
                    .map(|s| s.to_string())
                    .collect::<Vec<String>>()
            );
        },
        _ => panic!("expected the fixed list"),
    }
    match known_models("Anthropic") {
        ModelListing::Fixed(v) => {
            assert_eq!(v[0], "opus-20240229");
            assert_eq!(v.len(), 5);
        },
        _ => panic!("expected the fixed list"),
    }
    match known_models("Gemini") {
        ModelListing::Fixed(v) => {
            assert_eq!(v.len(), 4);
            assert_eq!(v[3], "gemini-1.0-pro-vision");
        },
        _ => panic!("expected the fixed list"),
    }
    assert!(matches!(known_models("Ollama"), ModelListing::Dynamic));
    assert!(matches!(known_models("Cohere"), ModelListing::Unknown));
}

#[test]
fn models_provider_resolution() {
    assert_eq!(
        resolve_models_provider(Some("Gemini".to_string()), "OpenAI"),
        Some("Gemini".to_string())
    );
    assert_eq!(resolve_models_provider(None, "OpenAI"), Some("OpenAI".to_string()));
    assert_eq!(resolve_models_provider(None, ""), None);
}

#[test]
fn decimal_rendering_and_parsing() {
    assert_eq!(u64_dec(0), "0");
    assert_eq!(u64_dec(10), "10");
    assert_eq!(u64_dec(10005), "10005");
    assert_eq!(u64_dec(u64::MAX), u64::MAX.to_string());
    assert_eq!(parse_u8("0"), Some(0));
    assert_eq!(parse_u8("255"), Some(255));
    assert_eq!(parse_u8("256"), None);
    assert_eq!(parse_u8("+12"), Some(12));
    assert_eq!(parse_u8("-1"), None);
    assert_eq!(parse_u8(""), None);
    assert_eq!(parse_u8("1 2"), None);
}

#[test]
fn json_escaping_of_special_characters() {
    assert_eq!(escape_json("plain"), "plain");
    assert_eq!(escape_json("say \"hi\""), "say \\\"hi\\\"");
    assert_eq!(escape_json("back\\slash"), "back\\\\slash");
    assert_eq!(escape_json("line\nfeed\ttab\rret"), "line\\nfeed\\ttab\\rret");
    assert_eq!(escape_json("\u{1}\u{1f}"), "\\u0001\\u001f");
    assert_eq!(escape_json("émoji 🏆"), "émoji 🏆");
}
