//! The provider abstraction: one struct per backend with its default
//! endpoint, the exact request text each call must put on the wire, and
//! the response extraction per wire format. Performing the HTTP exchange
//! is outside work; everything up to and after the socket is verified.
use vstd::prelude::*;

use crate::config::{Config, provider_index_from, lemma_provider_index_properties};
use crate::json::{bool_text, bool_str, escape_json, escape_seq};
use crate::text::{str_eq, string_of, concat_seqs, split_lines, split_lines_spec};
use crate::wire::{
    WireError, anthropic_fragments, anthropic_line_fragment, anthropic_full_text,
    anthropic_line_fragment_spec, chat_content_of, anthropic_texts_of, gemini_texts_of,
    gemini_full_text, ollama_fragments, ollama_line_fragment, ollama_line_fragment_spec,
    ollama_stream_text, openai_full_text, openai_line_fragment, openai_line_fragment_spec,
};

verus! {

/// The JSON body of a chat-completion request.
pub open spec fn openai_payload_spec(model: Seq<char>, prompt: Seq<char>, stream: bool)
    -> Seq<char> {
    "{\"model\":\""@ + escape_seq(model)
        + "\",\"messages\":[{\"role\":\"user\",\"content\":\""@ + escape_seq(prompt)
        + "\"}],\"stream\":"@ + bool_text(stream) + "}"@
}

/// The JSON body of a messages request, with the fixed output-token cap.
pub open spec fn anthropic_payload_spec(model: Seq<char>, prompt: Seq<char>, stream: bool)
    -> Seq<char> {
    "{\"model\":\""@ + escape_seq(model)
        + "\",\"messages\":[{\"role\":\"user\",\"content\":\""@ + escape_seq(prompt)
        + "\"}],\"max_tokens\":2048,\"stream\":"@ + bool_text(stream) + "}"@
}

/// The JSON body of a generate request, with the fixed prediction cap.
pub open spec fn ollama_payload_spec(model: Seq<char>, prompt: Seq<char>, stream: bool)
    -> Seq<char> {
    "{\"model\":\""@ + escape_seq(model) + "\",\"prompt\":\""@ + escape_seq(prompt)
        + "\",\"stream\":"@ + bool_text(stream) + ",\"options\":{\"num_predict\":2048}}"@
}

/// The JSON body of a generate-content request, with the fixed generation
/// settings.
pub open spec fn gemini_payload_spec(prompt: Seq<char>) -> Seq<char> {
    "{\"contents\":[{\"role\":\"user\",\"parts\":[{\"text\":\""@ + escape_seq(prompt)
        + "\"}]}],\"generationConfig\":{\"temperature\":0.7,\"maxOutputTokens\":2048}}"@
}

/// Builds the chat-completion body.
pub fn openai_payload(model: &str, prompt: &str, stream: bool) -> (r: String)
    ensures
        r@ == openai_payload_spec(model@, prompt@, stream),
{
    let mut out = string_of("{\"model\":\"");
    let escaped_model = escape_json(model);
    out.append(escaped_model.as_str());
    out.append("\",\"messages\":[{\"role\":\"user\",\"content\":\"");
    let escaped_prompt = escape_json(prompt);
    out.append(escaped_prompt.as_str());
    out.append("\"}],\"stream\":");
    out.append(bool_str(stream));
    out.append("}");
    out
}

/// Builds the messages body.
pub fn anthropic_payload(model: &str, prompt: &str, stream: bool) -> (r: String)
    ensures
        r@ == anthropic_payload_spec(model@, prompt@, stream),
{
    let mut out = string_of("{\"model\":\"");
    let escaped_model = escape_json(model);
    out.append(escaped_model.as_str());
    out.append("\",\"messages\":[{\"role\":\"user\",\"content\":\"");
    let escaped_prompt = escape_json(prompt);
    out.append(escaped_prompt.as_str());
    out.append("\"}],\"max_tokens\":2048,\"stream\":");
    out.append(bool_str(stream));
    out.append("}");
    out
}

/// Builds the generate body.
pub fn ollama_payload(model: &str, prompt: &str, stream: bool) -> (r: String)
    ensures
        r@ == ollama_payload_spec(model@, prompt@, stream),
{
    let mut out = string_of("{\"model\":\"");
    let escaped_model = escape_json(model);
    out.append(escaped_model.as_str());
    out.append("\",\"prompt\":\"");
    let escaped_prompt = escape_json(prompt);
    out.append(escaped_prompt.as_str());
    out.append("\",\"stream\":");
    out.append(bool_str(stream));
    out.append(",\"options\":{\"num_predict\":2048}}");
    out
}

/// Builds the generate-content body.
pub fn gemini_payload(prompt: &str) -> (r: String)
    ensures
        r@ == gemini_payload_spec(prompt@),
{
    let mut out = string_of("{\"contents\":[{\"role\":\"user\",\"parts\":[{\"text\":\"");
    let escaped_prompt = escape_json(prompt);
    out.append(escaped_prompt.as_str());
    out.append("\"}]}],\"generationConfig\":{\"temperature\":0.7,\"maxOutputTokens\":2048}}");
    out
}

/// A provider backend with a name known to contracts.
pub trait Provider {
    /// The backend's name, as contracts speak of it.
    spec fn spec_name(&self) -> Seq<char>;

    /// The backend's name.
    fn get_provider_name(&self) -> (r: &'static str)
        ensures
            r@ == self.spec_name(),
    ;
}

/// The chat-completion backend.
#[derive(Debug)]
pub struct OpenAI {
    pub api_key: String,
    pub base_url: String,
}

impl OpenAI {
    /// A backend at the given base URL, or the public endpoint.
    pub fn new(api_key: &str, base_url: Option<&str>) -> (r: OpenAI)
        ensures
            r.api_key@ == api_key@,
            r.base_url@ == match base_url {
                Some(u) => u@,
                None => "https://api.openai.com"@,
            },
    {
        let url = match base_url {
            Some(u) => string_of(u),
            None => string_of("https://api.openai.com"),
        };
        OpenAI { api_key: string_of(api_key), base_url: url }
    }

    /// The endpoint a call posts to.
    pub fn request_url(&self) -> (r: String)
        ensures
            r@ == self.base_url@ + "/v1/chat/completions"@,
    {
        let mut url = string_of(self.base_url.as_str());
        url.append("/v1/chat/completions");
        url
    }

    /// The bearer credential header value.
    pub fn auth_value(&self) -> (r: String)
        ensures
            r@ == "Bearer "@ + self.api_key@,
    {
        let mut v = string_of("Bearer ");
        v.append(self.api_key.as_str());
        v
    }
}

impl Provider for OpenAI {
    open spec fn spec_name(&self) -> Seq<char> {
        "OpenAI"@
    }

    fn get_provider_name(&self) -> (r: &'static str) {
        "OpenAI"
    }
}

/// The messages backend.
#[derive(Debug)]
pub struct Anthropic {
    pub api_key: String,
    pub base_url: String,
}

impl Anthropic {
    /// A backend at the given base URL, or the public endpoint.
    pub fn new(api_key: &str, base_url: Option<&str>) -> (r: Anthropic)
        ensures
            r.api_key@ == api_key@,
            r.base_url@ == match base_url {
                Some(u) => u@,
                None => "https://api.anthropic.com"@,
            },
    {
        let url = match base_url {
            Some(u) => string_of(u),
            None => string_of("https://api.anthropic.com"),
        };
        Anthropic { api_key: string_of(api_key), base_url: url }
    }

    /// The endpoint a call posts to.
    pub fn request_url(&self) -> (r: String)
        ensures
            r@ == self.base_url@ + "/v1/messages"@,
    {
        let mut url = string_of(self.base_url.as_str());
        url.append("/v1/messages");
        url
    }
}

impl Provider for Anthropic {
    open spec fn spec_name(&self) -> Seq<char> {
        "Anthropic"@
    }

    fn get_provider_name(&self) -> (r: &'static str) {
        "Anthropic"
    }
}

/// The newline-delimited-JSON backend, local by default and without a
/// credential.
#[derive(Debug)]
pub struct Ollama {
    pub base_url: String,
}

impl Ollama {
    /// A backend at the given base URL, or the local instance.
    pub fn new(base_url: Option<&str>) -> (r: Ollama)
        ensures
            r.base_url@ == match base_url {
                Some(u) => u@,
                None => "http://localhost:11434"@,
            },
    {
        let url = match base_url {
            Some(u) => string_of(u),
            None => string_of("http://localhost:11434"),
        };
        Ollama { base_url: url }
    }

    /// The endpoint a call posts to.
    pub fn request_url(&self) -> (r: String)
        ensures
            r@ == self.base_url@ + "/api/generate"@,
    {
        let mut url = string_of(self.base_url.as_str());
        url.append("/api/generate");
        url
    }

    /// The endpoint the model listing is read from.
    pub fn models_url(&self) -> (r: String)
        ensures
            r@ == self.base_url@ + "/api/tags"@,
    {
        let mut url = string_of(self.base_url.as_str());
        url.append("/api/tags");
        url
    }
}

impl Provider for Ollama {
    open spec fn spec_name(&self) -> Seq<char> {
        "Ollama"@
    }

    fn get_provider_name(&self) -> (r: &'static str) {
        "Ollama"
    }
}

/// The generate-content backend; its credential travels in the query
/// string and it only answers whole bodies.
#[derive(Debug)]
pub struct Gemini {
    pub api_key: String,
    pub base_url: String,
}

impl Gemini {
    /// A backend at the given base URL, or the public endpoint.
    pub fn new(api_key: &str, base_url: Option<&str>) -> (r: Gemini)
        ensures
            r.api_key@ == api_key@,
            r.base_url@ == match base_url {
                Some(u) => u@,
                None => "https://generativelanguage.googleapis.com"@,
            },
    {
        let url = match base_url {
            Some(u) => string_of(u),
            None => string_of("https://generativelanguage.googleapis.com"),
        };
        Gemini { api_key: string_of(api_key), base_url: url }
    }

    /// The endpoint a call posts to: model and credential are part of the
    /// URL.
    pub fn request_url(&self, model: &str) -> (r: String)
        ensures
            r@ == self.base_url@ + "/v1beta/models/"@ + model@ + ":generateContent?key="@
                + self.api_key@,
    {
        let mut url = string_of(self.base_url.as_str());
        url.append("/v1beta/models/");
        url.append(model);
        url.append(":generateContent?key=");
        url.append(self.api_key.as_str());
        url
    }
}

impl Provider for Gemini {
    open spec fn spec_name(&self) -> Seq<char> {
        "Gemini"@
    }

    fn get_provider_name(&self) -> (r: &'static str) {
        "Gemini"
    }
}

/// Failure to construct a client.
#[derive(Debug)]
pub enum ApiError {
    /// The configured provider name is none of the known backends.
    UnsupportedProvider { name: String },
    /// No provider entry matches the active provider name.
    NotConfigured,
}

impl ApiError {
    /// The user-facing description of the failure.
    pub fn message(&self) -> (r: String)
        ensures
            match self {
                ApiError::UnsupportedProvider { name } =>
                    r@ == "Unsupported provider: "@ + name@,
                ApiError::NotConfigured =>
                    r@ == "No active provider configured. Run 'ola configure' first."@,
            },
    {
        match self {
            ApiError::UnsupportedProvider { name } => {
                let mut m = string_of("Unsupported provider: ");
                m.append(name.as_str());
                m
            },
            ApiError::NotConfigured => {
                string_of("No active provider configured. Run 'ola configure' first.")
            },
        }
    }
}

/// The selected backend of a client.
#[derive(Debug)]
pub enum SelectedProvider {
    OpenAI(OpenAI),
    Anthropic(Anthropic),
    Ollama(Ollama),
    Gemini(Gemini),
}

/// One request ready to be put on the wire: where to post, which headers
/// to set, and the exact body.
#[derive(Debug)]
pub struct ProviderRequest {
    pub url: String,
    pub headers: Vec<(String, String)>,
    pub body: String,
}

/// A client owning one selected backend. It prepares the exact wire
/// request for a prompt and extracts the response text; the HTTP exchange
/// between the two happens outside.
#[derive(Debug)]
pub struct ApiClient {
    pub provider: SelectedProvider,
}

impl ApiClient {
    /// Selects the backend by name. Unknown names are refused.
    pub fn new(provider_name: &str, api_key: &str, base_url: Option<&str>)
        -> (r: Result<ApiClient, ApiError>)
        ensures
            provider_name@ == "OpenAI"@ ==> r is Ok
                && (r->Ok_0.provider matches SelectedProvider::OpenAI(p)
                    && p.api_key@ == api_key@
                    && p.base_url@ == match base_url {
                        Some(u) => u@,
                        None => "https://api.openai.com"@,
                    }),
            provider_name@ == "Anthropic"@ ==> r is Ok
                && (r->Ok_0.provider matches SelectedProvider::Anthropic(p)
                    && p.api_key@ == api_key@
                    && p.base_url@ == match base_url {
                        Some(u) => u@,
                        None => "https://api.anthropic.com"@,
                    }),
            provider_name@ == "Ollama"@ ==> r is Ok
                && (r->Ok_0.provider matches SelectedProvider::Ollama(p)
                    && p.base_url@ == match base_url {
                        Some(u) => u@,
                        None => "http://localhost:11434"@,
                    }),
            provider_name@ == "Gemini"@ ==> r is Ok
                && (r->Ok_0.provider matches SelectedProvider::Gemini(p)
                    && p.api_key@ == api_key@
                    && p.base_url@ == match base_url {
                        Some(u) => u@,
                        None => "https://generativelanguage.googleapis.com"@,
                    }),
            (provider_name@ != "OpenAI"@ && provider_name@ != "Anthropic"@
                && provider_name@ != "Ollama"@ && provider_name@ != "Gemini"@)
                ==> (r matches Err(ApiError::UnsupportedProvider { name })
                    && name@ == provider_name@),
    {
        proof {
            reveal_strlit("OpenAI");
            reveal_strlit("Anthropic");
            reveal_strlit("Ollama");
            reveal_strlit("Gemini");
            assert("OpenAI"@ != "Anthropic"@ && "OpenAI"@ != "Ollama"@ && "OpenAI"@ != "Gemini"@
                && "Anthropic"@ != "Ollama"@ && "Anthropic"@ != "Gemini"@
                && "Ollama"@ != "Gemini"@) by {
                assert("OpenAI"@.len() != "Anthropic"@.len());
                assert("Ollama"@[0] == 'O' && "Gemini"@[0] == 'G' && "OpenAI"@[1] == 'p'
                    && "Ollama"@[1] == 'l' && "Anthropic"@[0] == 'A');
            }
        }
        if str_eq(provider_name, "OpenAI") {
            Ok(ApiClient { provider: SelectedProvider::OpenAI(OpenAI::new(api_key, base_url)) })
        } else if str_eq(provider_name, "Anthropic") {
            Ok(ApiClient {
                provider: SelectedProvider::Anthropic(Anthropic::new(api_key, base_url)),
            })
        } else if str_eq(provider_name, "Ollama") {
            Ok(ApiClient { provider: SelectedProvider::Ollama(Ollama::new(base_url)) })
        } else if str_eq(provider_name, "Gemini") {
            Ok(ApiClient { provider: SelectedProvider::Gemini(Gemini::new(api_key, base_url)) })
        } else {
            Err(ApiError::UnsupportedProvider { name: string_of(provider_name) })
        }
    }

    /// The selected backend's name.
    pub open spec fn spec_provider_name(&self) -> Seq<char> {
        match self.provider {
            SelectedProvider::OpenAI(_) => "OpenAI"@,
            SelectedProvider::Anthropic(_) => "Anthropic"@,
            SelectedProvider::Ollama(_) => "Ollama"@,
            SelectedProvider::Gemini(_) => "Gemini"@,
        }
    }

    /// The selected backend's name.
    pub fn get_provider_name(&self) -> (r: &'static str)
        ensures
            r@ == self.spec_provider_name(),
    {
        match &self.provider {
            SelectedProvider::OpenAI(p) => p.get_provider_name(),
            SelectedProvider::Anthropic(p) => p.get_provider_name(),
            SelectedProvider::Ollama(p) => p.get_provider_name(),
            SelectedProvider::Gemini(p) => p.get_provider_name(),
        }
    }

    /// The exact wire request one send of `prompt` to `model` performs,
    /// streaming or not: endpoint, headers and body as the backend's
    /// protocol asks for them.
    pub fn request(&self, prompt: &str, model: &str, stream: bool) -> (r: ProviderRequest)
        ensures
            match self.provider {
                SelectedProvider::OpenAI(p) => r.url@ == p.base_url@ + "/v1/chat/completions"@
                    && r.body@ == openai_payload_spec(model@, prompt@, stream)
                    && r.headers@.len() == 2
                    && r.headers@[0].0@ == "Authorization"@
                    && r.headers@[0].1@ == "Bearer "@ + p.api_key@
                    && r.headers@[1].0@ == "Content-Type"@
                    && r.headers@[1].1@ == "application/json"@,
                SelectedProvider::Anthropic(p) => r.url@ == p.base_url@ + "/v1/messages"@
                    && r.body@ == anthropic_payload_spec(model@, prompt@, stream)
                    && r.headers@.len() == 3
                    && r.headers@[0].0@ == "X-API-Key"@ && r.headers@[0].1@ == p.api_key@
                    && r.headers@[1].0@ == "anthropic-version"@
                    && r.headers@[1].1@ == "2023-06-01"@
                    && r.headers@[2].0@ == "Content-Type"@
                    && r.headers@[2].1@ == "application/json"@,
                SelectedProvider::Ollama(p) => r.url@ == p.base_url@ + "/api/generate"@
                    && r.body@ == ollama_payload_spec(model@, prompt@, stream)
                    && r.headers@.len() == 1
                    && r.headers@[0].0@ == "Content-Type"@
                    && r.headers@[0].1@ == "application/json"@,
                SelectedProvider::Gemini(p) => r.url@ == p.base_url@ + "/v1beta/models/"@
                    + model@ + ":generateContent?key="@ + p.api_key@
                    && r.body@ == gemini_payload_spec(prompt@)
                    && r.headers@.len() == 1
                    && r.headers@[0].0@ == "Content-Type"@
                    && r.headers@[0].1@ == "application/json"@,
            },
    {
        match &self.provider {
            SelectedProvider::OpenAI(p) => {
                let mut headers: Vec<(String, String)> = Vec::new();
                headers.push((string_of("Authorization"), p.auth_value()));
                headers.push((string_of("Content-Type"), string_of("application/json")));
                ProviderRequest {
                    url: p.request_url(),
                    headers,
                    body: openai_payload(model, prompt, stream),
                }
            },
            SelectedProvider::Anthropic(p) => {
                let mut headers: Vec<(String, String)> = Vec::new();
                headers.push((string_of("X-API-Key"), string_of(p.api_key.as_str())));
                headers.push((string_of("anthropic-version"), string_of("2023-06-01")));
                headers.push((string_of("Content-Type"), string_of("application/json")));
                ProviderRequest {
                    url: p.request_url(),
                    headers,
                    body: anthropic_payload(model, prompt, stream),
                }
            },
            SelectedProvider::Ollama(p) => {
                let mut headers: Vec<(String, String)> = Vec::new();
                headers.push((string_of("Content-Type"), string_of("application/json")));
                ProviderRequest {
                    url: p.request_url(),
                    headers,
                    body: ollama_payload(model, prompt, stream),
                }
            },
            SelectedProvider::Gemini(p) => {
                let mut headers: Vec<(String, String)> = Vec::new();
                headers.push((string_of("Content-Type"), string_of("application/json")));
                ProviderRequest {
                    url: p.request_url(model),
                    headers,
                    body: gemini_payload(prompt),
                }
            },
        }
    }

    /// The response text of a whole non-streaming body, per the selected
    /// backend's wire format. For the newline-delimited backend the body
    /// is read line by line and malformed lines are skipped; for the
    /// others a body that does not parse is a fatal error for the call.
    pub fn extract_full_response(&self, body: &str) -> (r: Result<String, WireError>)
        ensures
            match self.provider {
                SelectedProvider::OpenAI(_) => match chat_content_of(body@) {
                    None => r == Result::<String, WireError>::Err(WireError::InvalidJson),
                    Some(content) => r is Ok && r->Ok_0@ == match content {
                        Some(s) => s,
                        None => Seq::<char>::empty(),
                    },
                },
                SelectedProvider::Anthropic(_) => match anthropic_texts_of(body@) {
                    None => r == Result::<String, WireError>::Err(WireError::InvalidJson),
                    Some(texts) => r is Ok && r->Ok_0@ == concat_seqs(texts),
                },
                SelectedProvider::Ollama(_) => r is Ok && r->Ok_0@
                    == concat_seqs(ollama_fragments(split_lines_spec(body@))),
                SelectedProvider::Gemini(_) => match gemini_texts_of(body@) {
                    None => r == Result::<String, WireError>::Err(WireError::InvalidJson),
                    Some(texts) => r is Ok && r->Ok_0@ == concat_seqs(texts),
                },
            },
    {
        match &self.provider {
            SelectedProvider::OpenAI(_) => openai_full_text(body),
            SelectedProvider::Anthropic(_) => anthropic_full_text(body),
            SelectedProvider::Ollama(_) => {
                let lines = split_lines(body);
                Ok(ollama_stream_text(&lines))
            },
            SelectedProvider::Gemini(_) => gemini_full_text(body),
        }
    }

    /// The fragment one streamed line contributes, per the selected
    /// backend's wire format. The generate-content backend does not
    /// stream; its lines contribute nothing.
    pub fn extract_stream_fragment(&self, line: &str) -> (r: Option<String>)
        ensures
            r.deep_view() == match self.provider {
                SelectedProvider::OpenAI(_) => openai_line_fragment_spec(line@),
                SelectedProvider::Anthropic(_) => anthropic_line_fragment_spec(line@),
                SelectedProvider::Ollama(_) => ollama_line_fragment_spec(line@),
                SelectedProvider::Gemini(_) => None::<Seq<char>>,
            },
    {
        match &self.provider {
            SelectedProvider::OpenAI(_) => openai_line_fragment(line),
            SelectedProvider::Anthropic(_) => anthropic_line_fragment(line),
            SelectedProvider::Ollama(_) => ollama_line_fragment(line),
            SelectedProvider::Gemini(_) => None,
        }
    }
}

/// Whether a provider name is one of the known backends.
pub open spec fn known_provider(name: Seq<char>) -> bool {
    name == "OpenAI"@ || name == "Anthropic"@ || name == "Ollama"@ || name == "Gemini"@
}

/// The client `pc` asks for: the backend named by the entry, with its
/// credential, and the entry's base URL or the backend's default.
pub open spec fn selected_for(pc: crate::config::ProviderConfig, c: ApiClient) -> bool {
    match c.provider {
        SelectedProvider::OpenAI(p) => pc.provider@ == "OpenAI"@ && p.api_key@ == pc.api_key@
            && p.base_url@ == match pc.base_url {
                Some(u) => u@,
                None => "https://api.openai.com"@,
            },
        SelectedProvider::Anthropic(p) => pc.provider@ == "Anthropic"@
            && p.api_key@ == pc.api_key@
            && p.base_url@ == match pc.base_url {
                Some(u) => u@,
                None => "https://api.anthropic.com"@,
            },
        SelectedProvider::Ollama(p) => pc.provider@ == "Ollama"@
            && p.base_url@ == match pc.base_url {
                Some(u) => u@,
                None => "http://localhost:11434"@,
            },
        SelectedProvider::Gemini(p) => pc.provider@ == "Gemini"@ && p.api_key@ == pc.api_key@
            && p.base_url@ == match pc.base_url {
                Some(u) => u@,
                None => "https://generativelanguage.googleapis.com"@,
            },
    }
}

/// Builds the client the loaded configuration asks for: the active
/// provider entry selects the backend. Fails when no entry carries the
/// active name, or when the entry names an unknown backend.
pub fn create_api_client_from_config(config: &Config) -> (r: Result<ApiClient, ApiError>)
    ensures
        match provider_index_from(config.providers@, config.active_provider@, 0) {
            None => r matches Err(ApiError::NotConfigured),
            Some(i) => ({
                let pc = config.providers@[i];
                if known_provider(pc.provider@) {
                    r is Ok && selected_for(pc, r->Ok_0)
                } else {
                    r matches Err(ApiError::UnsupportedProvider { name })
                        && name@ == pc.provider@
                }
            }),
        },
{
    proof {
        lemma_provider_index_properties(config.providers@, config.active_provider@, 0);
    }
    match config.get_active_provider() {
        None => Err(ApiError::NotConfigured),
        Some(pc) => {
            let base_url = match &pc.base_url {
                Some(u) => Some(u.as_str()),
                None => None,
            };
            ApiClient::new(pc.provider.as_str(), pc.api_key.as_str(), base_url)
        },
    }
}

} // verus!
