//! A command-line client core for several large-language-model HTTP
//! providers: wire-format adapters that turn provider responses into plain
//! text, an incremental `<think>` filter, a prompt assembler, and the
//! orchestration rules for recursive waves and iterative feedback
//! sessions. The HTTP exchanges, the terminal and the files on disk are
//! handled outside; every rule about the data is verified here.

pub mod text;
pub mod think;
pub mod json;
pub mod wire;
pub mod config;
pub mod api;
pub mod settings;
pub mod output;
pub mod models;
pub mod project;
pub mod prompt;
pub mod orchestrate;
pub mod cli;

pub use api::{Anthropic, ApiClient, Gemini, Ollama, OpenAI, Provider};
pub use config::{Config, ProviderConfig};
pub use models::{Context, Goal, Project, ProjectFile};
pub use project::ProjectManager;
pub use settings::Settings;
