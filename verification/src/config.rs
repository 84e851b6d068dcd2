//! Provider configuration: which providers are known, which one is
//! active, and the validity rules a configuration must meet before it is
//! used. Reading and writing the configuration file is outside work; the
//! rules over the loaded values live here.
use vstd::prelude::*;

use crate::text::{str_eq, string_of, starts_with, is_prefix};

verus! {

/// One provider's connection settings. The base URL stands in for the
/// extra per-provider settings the configuration file may carry.
#[derive(Debug)]
pub struct ProviderConfig {
    pub provider: String,
    pub api_key: String,
    pub model: Option<String>,
    pub base_url: Option<String>,
}

/// The loaded configuration: the list of known providers and the name of
/// the active one.
#[derive(Debug)]
pub struct Config {
    pub active_provider: String,
    pub providers: Vec<ProviderConfig>,
}

/// Index of the first provider entry carrying `name`, searching from
/// `from`.
pub open spec fn provider_index_from(providers: Seq<ProviderConfig>, name: Seq<char>, from: int)
    -> Option<int>
    decreases providers.len() - from + 1,
{
    if from < 0 || from >= providers.len() {
        None
    } else if providers[from].provider@ == name {
        Some(from)
    } else {
        provider_index_from(providers, name, from + 1)
    }
}

/// A found index is in range, carries the name, and is the first to.
pub proof fn lemma_provider_index_properties(
    providers: Seq<ProviderConfig>,
    name: Seq<char>,
    from: int,
)
    requires
        0 <= from,
    ensures
        match provider_index_from(providers, name, from) {
            Some(i) => from <= i < providers.len() && providers[i].provider@ == name
                && forall|k: int| from <= k < i ==> #[trigger] providers[k].provider@ != name,
            None => forall|k: int| from <= k < providers.len()
                ==> #[trigger] providers[k].provider@ != name,
        },
    decreases providers.len() - from + 1,
{
    if from < providers.len() {
        if providers[from].provider@ != name {
            lemma_provider_index_properties(providers, name, from + 1);
        }
    }
}

impl Config {
    /// A configuration with no providers and no active one.
    pub fn empty() -> (r: Config)
        ensures
            r.active_provider@.len() == 0,
            r.providers@.len() == 0,
    {
        Config { active_provider: String::new(), providers: Vec::new() }
    }

    /// Stores a provider: replaces the first entry of the same name or
    /// appends a new one, and makes it the active provider.
    pub fn add_provider(&mut self, provider: ProviderConfig)
        ensures
            final(self).active_provider@ == provider.provider@,
            match provider_index_from(old(self).providers@, provider.provider@, 0) {
                Some(i) => final(self).providers@ =~= old(self).providers@.update(i, provider),
                None => final(self).providers@ =~= old(self).providers@.push(provider),
            },
    {
        let name = string_of(provider.provider.as_str());
        let mut i: usize = 0;
        let n = self.providers.len();
        proof {
            lemma_provider_index_properties(self.providers@, provider.provider@, 0);
        }
        while i < n
            invariant
                i <= n,
                n == self.providers@.len(),
                *self == *old(self),
                name@ == provider.provider@,
                forall|k: int| 0 <= k < i
                    ==> #[trigger] self.providers@[k].provider@ != provider.provider@,
            decreases n - i,
        {
            if str_eq(self.providers[i].provider.as_str(), name.as_str()) {
                proof {
                    lemma_provider_index_properties(self.providers@, provider.provider@, 0);
                }
                self.providers.set(i, provider);
                self.active_provider = name;
                return;
            }
            i += 1;
        }
        proof {
            lemma_provider_index_properties(self.providers@, provider.provider@, 0);
        }
        self.providers.push(provider);
        self.active_provider = name;
    }

    /// The entry of the active provider: the first with its name, or
    /// `None` when no entry carries it.
    pub fn get_active_provider(&self) -> (r: Option<&ProviderConfig>)
        ensures
            match provider_index_from(self.providers@, self.active_provider@, 0) {
                Some(i) => r is Some && *r->Some_0 == self.providers@[i],
                None => r is None,
            },
    {
        let mut i: usize = 0;
        let n = self.providers.len();
        proof {
            lemma_provider_index_properties(self.providers@, self.active_provider@, 0);
        }
        while i < n
            invariant
                i <= n,
                n == self.providers@.len(),
                forall|k: int| 0 <= k < i
                    ==> #[trigger] self.providers@[k].provider@ != self.active_provider@,
            decreases n - i,
        {
            if str_eq(self.providers[i].provider.as_str(), self.active_provider.as_str()) {
                proof {
                    lemma_provider_index_properties(self.providers@, self.active_provider@, 0);
                }
                return Some(&self.providers[i]);
            }
            i += 1;
        }
        None
    }
}

/// The characters `str::trim` removes: the Unicode white-space set.
pub open spec fn is_space(c: char) -> bool {
    c == ' ' || c == '\t' || c == '\n' || c == '\r' || c == '\u{0b}' || c == '\u{0c}'
        || c == '\u{85}' || c == '\u{a0}' || c == '\u{1680}'
        || ('\u{2000}' <= c && c <= '\u{200a}') || c == '\u{2028}' || c == '\u{2029}'
        || c == '\u{202f}' || c == '\u{205f}' || c == '\u{3000}'
}

/// Whether a string holds nothing but white space (so that its trimmed
/// form is empty).
pub open spec fn is_blank(s: Seq<char>) -> bool {
    forall|k: int| 0 <= k < s.len() ==> is_space(#[trigger] s[k])
}

/// Decides whether a string is blank.
pub fn blank(s: &str) -> (r: bool)
    ensures
        r == is_blank(s@),
{
    let len = s.unicode_len();
    let mut i: usize = 0;
    while i < len
        invariant
            i <= len,
            len == s@.len(),
            forall|k: int| 0 <= k < i ==> is_space(#[trigger] s@[k]),
        decreases len - i,
    {
        let c = s.get_char(i);
        let sp = c == ' ' || c == '\t' || c == '\n' || c == '\r' || c == '\u{0b}' || c == '\u{0c}'
            || c == '\u{85}' || c == '\u{a0}' || c == '\u{1680}'
            || ('\u{2000}' <= c && c <= '\u{200a}') || c == '\u{2028}' || c == '\u{2029}'
            || c == '\u{202f}' || c == '\u{205f}' || c == '\u{3000}';
        if !sp {
            return false;
        }
        i += 1;
    }
    true
}

/// The outcome `validate_provider_config` owes for one provider entry:
/// the first failing check's message, or none.
pub open spec fn validation_error(c: ProviderConfig) -> Option<Seq<char>> {
    if c.provider@ == "OpenAI"@ {
        if is_blank(c.api_key@) {
            Some("API key cannot be empty"@)
        } else if !is_prefix("sk-"@, c.api_key@) {
            Some("OpenAI API key should start with 'sk-'"@)
        } else if c.model is None {
            Some("OpenAI requires a model name"@)
        } else {
            None
        }
    } else if c.provider@ == "Anthropic"@ {
        if is_blank(c.api_key@) {
            Some("API key cannot be empty"@)
        } else if !is_prefix("sk-ant-"@, c.api_key@) {
            Some("Anthropic API key should start with 'sk-ant-'"@)
        } else if c.model is None {
            Some("Anthropic requires a model name"@)
        } else {
            None
        }
    } else if c.provider@ == "Ollama"@ {
        if c.model is None {
            Some("Ollama requires a model name"@)
        } else {
            None
        }
    } else if c.provider@ == "Gemini"@ {
        if is_blank(c.api_key@) {
            Some("API key cannot be empty"@)
        } else if c.model is None {
            Some("Gemini requires a model name"@)
        } else {
            None
        }
    } else {
        Some("Unsupported provider: "@ + c.provider@)
    }
}

/// Checks a provider entry before it is used: key presence and shape,
/// model presence, known provider name. `Ok` exactly when no rule fails;
/// `Err` carries the first failing rule's message.
pub fn validate_provider_config(config: &ProviderConfig) -> (r: Result<(), String>)
    ensures
        match validation_error(*config) {
            None => r is Ok,
            Some(m) => r is Err && r->Err_0@ == m,
        },
{
    if str_eq(config.provider.as_str(), "OpenAI") {
        if blank(config.api_key.as_str()) {
            Err(string_of("API key cannot be empty"))
        } else if !starts_with(config.api_key.as_str(), "sk-") {
            Err(string_of("OpenAI API key should start with 'sk-'"))
        } else if config.model.is_none() {
            Err(string_of("OpenAI requires a model name"))
        } else {
            Ok(())
        }
    } else if str_eq(config.provider.as_str(), "Anthropic") {
        if blank(config.api_key.as_str()) {
            Err(string_of("API key cannot be empty"))
        } else if !starts_with(config.api_key.as_str(), "sk-ant-") {
            Err(string_of("Anthropic API key should start with 'sk-ant-'"))
        } else if config.model.is_none() {
            Err(string_of("Anthropic requires a model name"))
        } else {
            Ok(())
        }
    } else if str_eq(config.provider.as_str(), "Ollama") {
        if config.model.is_none() {
            Err(string_of("Ollama requires a model name"))
        } else {
            Ok(())
        }
    } else if str_eq(config.provider.as_str(), "Gemini") {
        if blank(config.api_key.as_str()) {
            Err(string_of("API key cannot be empty"))
        } else if config.model.is_none() {
            Err(string_of("Gemini requires a model name"))
        } else {
            Ok(())
        }
    } else {
        let mut m = string_of("Unsupported provider: ");
        m.append(config.provider.as_str());
        Err(m)
    }
}

} // verus!
