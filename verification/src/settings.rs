//! Application settings: the values the rest of the client reads, their
//! defaults, and the rule by which the settings command updates them.
//! Loading and saving the settings file is outside work.
use vstd::prelude::*;

use crate::text::string_of;

verus! {

/// The labels put before the three prompt sections.
pub struct PromptTemplate {
    pub goals_prefix: String,
    pub return_format_prefix: String,
    pub warnings_prefix: String,
}

/// Default values for command flags.
pub struct DefaultSettings {
    pub return_format: String,
    pub quiet: bool,
    pub no_thinking: bool,
    pub clipboard: bool,
}

/// How the waiting animation looks.
pub struct ThinkingAnimation {
    pub emojis: Vec<String>,
    pub text: String,
}

/// Behavior switches: logging and the animation.
pub struct BehaviorSettings {
    pub log_file: String,
    pub enable_logging: bool,
    pub thinking_animation: ThinkingAnimation,
}

/// All settings together.
pub struct Settings {
    pub default_model: String,
    pub prompt_template: PromptTemplate,
    pub defaults: DefaultSettings,
    pub behavior: BehaviorSettings,
}

/// The model used when neither configuration nor call names one.
pub fn default_model() -> (r: String)
    ensures
        r@ == "gpt-5"@,
{
    string_of("gpt-5")
}

/// The label before the goals section.
pub fn default_goals_prefix() -> (r: String)
    ensures
        r@ == "🏆 Goals: "@,
{
    string_of("🏆 Goals: ")
}

/// The label before the return-format section.
pub fn default_return_format_prefix() -> (r: String)
    ensures
        r@ == "📝 Return Format: "@,
{
    string_of("📝 Return Format: ")
}

/// The label before the warnings section.
pub fn default_warnings_prefix() -> (r: String)
    ensures
        r@ == "⚠️ Warnings: "@,
{
    string_of("⚠️ Warnings: ")
}

/// The return format used when none is given.
pub fn default_return_format() -> (r: String)
    ensures
        r@ == "text"@,
{
    string_of("text")
}

/// Where sessions are logged by default.
pub fn default_log_file() -> (r: String)
    ensures
        r@ == "sessions.jsonl"@,
{
    string_of("sessions.jsonl")
}

/// Whether sessions are logged by default.
pub fn default_enable_logging() -> (r: bool)
    ensures
        r,
{
    true
}

/// The default animation glyphs.
pub fn default_thinking_emojis() -> (r: Vec<String>)
    ensures
        r@.len() == 4,
        r.deep_view()[0] == "🌊"@,
        r.deep_view()[1] == "🏄"@,
        r.deep_view()[2] == "🌊"@,
        r.deep_view()[3] == "🏄\u{200d}♀\u{fe0f}"@,
{
    let mut v: Vec<String> = Vec::new();
    v.push(string_of("🌊"));
    v.push(string_of("🏄"));
    v.push(string_of("🌊"));
    v.push(string_of("🏄\u{200d}♀\u{fe0f}"));
    v
}

/// The default animation text.
pub fn default_thinking_text() -> (r: String)
    ensures
        r@ == "thinking..."@,
{
    string_of("thinking...")
}

impl Default for ThinkingAnimation {
    /// The default animation.
    fn default() -> (r: ThinkingAnimation)
        ensures
            r.emojis@.len() == 4,
            r.text@ == "thinking..."@,
    {
        ThinkingAnimation { emojis: default_thinking_emojis(), text: default_thinking_text() }
    }
}

impl Default for PromptTemplate {
    /// The default labels.
    fn default() -> (r: PromptTemplate)
        ensures
            r.goals_prefix@ == "🏆 Goals: "@,
            r.return_format_prefix@ == "📝 Return Format: "@,
            r.warnings_prefix@ == "⚠️ Warnings: "@,
    {
        PromptTemplate {
            goals_prefix: default_goals_prefix(),
            return_format_prefix: default_return_format_prefix(),
            warnings_prefix: default_warnings_prefix(),
        }
    }
}

impl Default for DefaultSettings {
    /// The default flag values.
    fn default() -> (r: DefaultSettings)
        ensures
            r.return_format@ == "text"@,
            !r.quiet,
            !r.no_thinking,
            !r.clipboard,
    {
        DefaultSettings {
            return_format: default_return_format(),
            quiet: false,
            no_thinking: false,
            clipboard: false,
        }
    }
}

impl Default for BehaviorSettings {
    /// The default behavior: logging on, into the default file.
    fn default() -> (r: BehaviorSettings)
        ensures
            r.log_file@ == "sessions.jsonl"@,
            r.enable_logging,
    {
        BehaviorSettings {
            log_file: default_log_file(),
            enable_logging: default_enable_logging(),
            thinking_animation: ThinkingAnimation::default(),
        }
    }
}

impl Default for Settings {
    /// All defaults together.
    fn default() -> (r: Settings)
        ensures
            r.default_model@ == "gpt-5"@,
            r.prompt_template.goals_prefix@ == "🏆 Goals: "@,
            r.prompt_template.return_format_prefix@ == "📝 Return Format: "@,
            r.prompt_template.warnings_prefix@ == "⚠️ Warnings: "@,
            r.defaults.return_format@ == "text"@,
            !r.defaults.quiet && !r.defaults.no_thinking && !r.defaults.clipboard,
            r.behavior.log_file@ == "sessions.jsonl"@,
            r.behavior.enable_logging,
    {
        Settings {
            default_model: default_model(),
            prompt_template: PromptTemplate::default(),
            defaults: DefaultSettings::default(),
            behavior: BehaviorSettings::default(),
        }
    }
}

/// Applies the settings command's changes: an optional reset to the
/// defaults first, then each given value. Returns whether anything was to
/// change (and so whether the file is to be written).
pub fn apply_settings_updates(
    settings: &mut Settings,
    new_default_model: Option<String>,
    new_default_format: Option<String>,
    logging: Option<bool>,
    log_file: Option<String>,
    reset: bool,
) -> (changed: bool)
    ensures
        changed == (reset || new_default_model is Some || new_default_format is Some
            || logging is Some || log_file is Some),
        final(settings).default_model@ == match new_default_model {
            Some(m) => m@,
            None => if reset { "gpt-5"@ } else { old(settings).default_model@ },
        },
        final(settings).defaults.return_format@ == match new_default_format {
            Some(f) => f@,
            None => if reset { "text"@ } else { old(settings).defaults.return_format@ },
        },
        final(settings).behavior.enable_logging == match logging {
            Some(e) => e,
            None => if reset { true } else { old(settings).behavior.enable_logging },
        },
        final(settings).behavior.log_file@ == match log_file {
            Some(f) => f@,
            None => if reset { "sessions.jsonl"@ } else { old(settings).behavior.log_file@ },
        },
{
    let changed = reset || new_default_model.is_some() || new_default_format.is_some()
        || logging.is_some() || log_file.is_some();
    if reset {
        *settings = Settings::default();
    }
    match new_default_model {
        Some(m) => settings.default_model = m,
        None => {},
    }
    match new_default_format {
        Some(f) => settings.defaults.return_format = f,
        None => {},
    }
    match logging {
        Some(e) => settings.behavior.enable_logging = e,
        None => {},
    }
    match log_file {
        Some(f) => settings.behavior.log_file = f,
        None => {},
    }
    changed
}

/// The editor executable to launch: the configured path, or the plain
/// command name.
pub fn get_nvim_path(configured: Option<&str>) -> (r: String)
    ensures
        r@ == match configured {
            Some(p) => p@,
            None => "nvim"@,
        },
{
    match configured {
        Some(p) => string_of(p),
        None => string_of("nvim"),
    }
}

/// Whether the editor is used: the command flags take precedence over the
/// setting, the enabling flag over the disabling one.
pub fn should_use_nvim(cli_nvim: bool, cli_no_nvim: bool, enabled_setting: bool) -> (r: bool)
    ensures
        r == (cli_nvim || (!cli_no_nvim && enabled_setting)),
{
    if cli_nvim {
        true
    } else if cli_no_nvim {
        false
    } else {
        enabled_setting
    }
}

} // verus!
