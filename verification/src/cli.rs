//! Decision rules of the command-line surface: which input wins between
//! flags, piped text and interactive prompts, and which model names each
//! backend offers. Reading the terminal and the pipe is outside work.
use vstd::prelude::*;

use crate::text::{str_eq, string_of};

verus! {

/// The resolved inputs of one prompt run, or the word that the user must
/// be asked.
pub enum PromptInputs {
    /// Goals, format, warnings and the optional piped context.
    Ready { goals: String, format: String, warnings: String, context: Option<String> },
    /// Nothing usable was given: ask interactively.
    NeedsInteractive,
}

/// Resolves a prompt run's inputs: explicit goals win and turn piped text
/// into context; otherwise piped text becomes the goals; with neither,
/// the user is asked for everything.
pub fn resolve_prompt_inputs(
    cli_goals: Option<String>,
    piped: String,
    cli_format: String,
    cli_warnings: String,
) -> (r: PromptInputs)
    ensures
        match cli_goals {
            Some(g) => (r matches PromptInputs::Ready { goals, format, warnings, context }
                && goals == g && format == cli_format && warnings == cli_warnings
                && context == if piped@.len() > 0 {
                    Some(piped)
                } else {
                    None::<String>
                }),
            None => if piped@.len() > 0 {
                r matches PromptInputs::Ready { goals, format, warnings, context }
                    && goals == piped && format == cli_format && warnings == cli_warnings
                    && context is None
            } else {
                r is NeedsInteractive
            },
        },
{
    match cli_goals {
        Some(g) => {
            let context = if piped.as_str().is_empty() {
                None
            } else {
                Some(piped)
            };
            PromptInputs::Ready { goals: g, format: cli_format, warnings: cli_warnings, context }
        },
        None => {
            if piped.as_str().is_empty() {
                PromptInputs::NeedsInteractive
            } else {
                PromptInputs::Ready {
                    goals: piped,
                    format: cli_format,
                    warnings: cli_warnings,
                    context: None,
                }
            }
        },
    }
}

/// The resolved input of one direct (non-structured) run.
pub enum NonThinkInputs {
    /// The prompt and the optional piped context.
    Ready { prompt: String, context: Option<String> },
    /// Nothing usable was given: ask interactively.
    NeedsInteractive,
}

/// Resolves a direct run's input, as `resolve_prompt_inputs` without the
/// labeled sections.
pub fn resolve_non_think_inputs(cli_prompt: Option<String>, piped: String)
    -> (r: NonThinkInputs)
    ensures
        match cli_prompt {
            Some(p) => (r matches NonThinkInputs::Ready { prompt, context }
                && prompt == p && context == if piped@.len() > 0 {
                    Some(piped)
                } else {
                    None::<String>
                }),
            None => if piped@.len() > 0 {
                r matches NonThinkInputs::Ready { prompt, context }
                    && prompt == piped && context is None
            } else {
                r is NeedsInteractive
            },
        },
{
    match cli_prompt {
        Some(p) => {
            let context = if piped.as_str().is_empty() {
                None
            } else {
                Some(piped)
            };
            NonThinkInputs::Ready { prompt: p, context }
        },
        None => {
            if piped.as_str().is_empty() {
                NonThinkInputs::NeedsInteractive
            } else {
                NonThinkInputs::Ready { prompt: piped, context: None }
            }
        },
    }
}

/// How the models of one backend are listed.
pub enum ModelListing {
    /// The fixed, documented list.
    Fixed(Vec<String>),
    /// The backend is asked at run time.
    Dynamic,
    /// The name matches no backend.
    Unknown,
}

/// The model names each backend offers: the fixed lists for the hosted
/// backends, a run-time query for the local one.
pub fn known_models(provider: &str) -> (r: ModelListing)
    ensures
        provider@ == "OpenAI"@ ==> (r matches ModelListing::Fixed(v) && v.deep_view()
            =~= seq!["gpt-4o"@, "gpt-4"@, "o3"@, "o3-pro"@, "o4"@, "o4-mini"@,
                "o4-mini-high"@]),
        provider@ == "Anthropic"@ ==> (r matches ModelListing::Fixed(v) && v.deep_view()
            =~= seq!["opus-20240229"@, "sonnet-20240229"@,
                "haiku-20240307"@, "sonnet-2.1"@, "sonnet-2.0"@]),
        provider@ == "Gemini"@ ==> (r matches ModelListing::Fixed(v) && v.deep_view()
            =~= seq!["gemini-1.5-pro"@, "gemini-1.5-flash"@, "gemini-1.0-pro"@,
                "gemini-1.0-pro-vision"@]),
        provider@ == "Ollama"@ ==> r is Dynamic,
        (provider@ != "OpenAI"@ && provider@ != "Anthropic"@ && provider@ != "Gemini"@
            && provider@ != "Ollama"@) ==> r is Unknown,
{
    proof {
        reveal_strlit("OpenAI");
        reveal_strlit("Anthropic");
        reveal_strlit("Ollama");
        reveal_strlit("Gemini");
        assert("OpenAI"@ != "Anthropic"@ && "OpenAI"@ != "Ollama"@ && "OpenAI"@ != "Gemini"@
            && "Anthropic"@ != "Ollama"@ && "Anthropic"@ != "Gemini"@
            && "Ollama"@ != "Gemini"@) by {
            assert("OpenAI"@.len() != "Anthropic"@.len());
            assert("Ollama"@[0] == 'O' && "Gemini"@[0] == 'G' && "OpenAI"@[1] == 'p'
                && "Ollama"@[1] == 'l' && "Anthropic"@[0] == 'A');
        }
    }
    if str_eq(provider, "OpenAI") {
        let mut v: Vec<String> = Vec::new();
        v.push(string_of("gpt-4o"));
        v.push(string_of("gpt-4"));
        v.push(string_of("o3"));
        v.push(string_of("o3-pro"));
        v.push(string_of("o4"));
        v.push(string_of("o4-mini"));
        v.push(string_of("o4-mini-high"));
        proof {
            assert(v.deep_view() =~= seq!["gpt-4o"@, "gpt-4"@, "o3"@, "o3-pro"@, "o4"@,
                "o4-mini"@, "o4-mini-high"@]);
        }
        ModelListing::Fixed(v)
    } else if str_eq(provider, "Anthropic") {
        let mut v: Vec<String> = Vec::new();
        v.push(string_of("opus-20240229"));
        v.push(string_of("sonnet-20240229"));
        v.push(string_of("haiku-20240307"));
        v.push(string_of("sonnet-2.1"));
        v.push(string_of("sonnet-2.0"));
        proof {
            assert(v.deep_view() =~= seq!["opus-20240229"@,
                "sonnet-20240229"@, "haiku-20240307"@, "sonnet-2.1"@,
                "sonnet-2.0"@]);
        }
        ModelListing::Fixed(v)
    } else if str_eq(provider, "Gemini") {
        let mut v: Vec<String> = Vec::new();
        v.push(string_of("gemini-1.5-pro"));
        v.push(string_of("gemini-1.5-flash"));
        v.push(string_of("gemini-1.0-pro"));
        v.push(string_of("gemini-1.0-pro-vision"));
        proof {
            assert(v.deep_view() =~= seq!["gemini-1.5-pro"@, "gemini-1.5-flash"@,
                "gemini-1.0-pro"@, "gemini-1.0-pro-vision"@]);
        }
        ModelListing::Fixed(v)
    } else if str_eq(provider, "Ollama") {
        ModelListing::Dynamic
    } else {
        ModelListing::Unknown
    }
}

/// The provider whose models are listed: the requested one, else the
/// active one, else nothing to list.
pub fn resolve_models_provider(requested: Option<String>, active_provider: &str)
    -> (r: Option<String>)
    ensures
        match requested {
            Some(p) => r == Some(p),
            None => if active_provider@.len() > 0 {
                r is Some && r->0@ == active_provider@
            } else {
                r is None
            },
        },
{
    match requested {
        Some(p) => Some(p),
        None => {
            if active_provider.is_empty() {
                None
            } else {
                Some(string_of(active_provider))
            }
        },
    }
}

} // verus!
