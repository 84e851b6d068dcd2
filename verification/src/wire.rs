//! Wire adapters: they turn the response texts of the provider protocols
//! into plain fragments and accumulated text. Parsing a line or a body as
//! JSON is done by serde_json behind trusted wrappers; everything around
//! the parse — which lines are skipped, how fragments are concatenated,
//! when a malformed line is tolerated — is verified.
use vstd::prelude::*;

use crate::text::{concat_all, concat_seqs, is_prefix, str_eq, strip_prefix_of};

verus! {

/// What parsing a newline-delimited-JSON line and reading its top-level
/// `response` string field yields: `None` when the line is not valid JSON
/// or carries no such string.
pub uninterp spec fn ndjson_response_of(line: Seq<char>) -> Option<Seq<char>>;

/// What parsing a chat-completion stream payload and reading
/// `choices[0].delta.content` yields, `None` when absent or unparseable.
pub uninterp spec fn openai_delta_of(payload: Seq<char>) -> Option<Seq<char>>;

/// What parsing a messages-stream payload and reading `delta.text`
/// yields, `None` when absent or unparseable.
pub uninterp spec fn anthropic_delta_of(payload: Seq<char>) -> Option<Seq<char>>;

/// What parsing a whole chat-completion body yields: the outer `None`
/// when the body is not valid JSON, the inner option whether
/// `choices[0].message.content` is present as a string.
pub uninterp spec fn chat_content_of(body: Seq<char>) -> Option<Option<Seq<char>>>;

/// What parsing a whole messages body yields: `None` when the body is not
/// valid JSON; otherwise the `text` string fields of the entries of the
/// top-level `content` array, in order (empty when `content` is missing).
pub uninterp spec fn anthropic_texts_of(body: Seq<char>) -> Option<Seq<Seq<char>>>;

/// What parsing a whole generate-content body yields: `None` when the
/// body is not valid JSON; otherwise the `text` string fields of
/// `candidates[0].content.parts`, in order (empty when absent).
pub uninterp spec fn gemini_texts_of(body: Seq<char>) -> Option<Seq<Seq<char>>>;

/// What parsing a model-listing body yields: `None` when the body is not
/// valid JSON; otherwise the `name` string fields of the entries of the
/// top-level `models` array, in order (empty when absent).
pub uninterp spec fn ollama_models_of(body: Seq<char>) -> Option<Seq<Seq<char>>>;

/// Relies on serde_json::from_str and Value::get/as_str: the `response`
/// string field of one JSON line, or `None` on a parse failure or a
/// missing field. The result depends on the line alone.
#[verifier::external_body]
fn parse_ndjson_response(line: &str) -> (r: Option<String>)
    ensures
        r.deep_view() == ndjson_response_of(line@),
{
    serde_json::from_str::<serde_json::Value>(line)
        .ok()
        .and_then(|v| v.get("response").and_then(|f| f.as_str()).map(|s| s.to_string()))
}

/// Relies on serde_json::from_str and Value::get/as_str:
/// `choices[0].delta.content` of one stream payload. The result depends
/// on the payload alone.
#[verifier::external_body]
fn parse_openai_delta(payload: &str) -> (r: Option<String>)
    ensures
        r.deep_view() == openai_delta_of(payload@),
{
    serde_json::from_str::<serde_json::Value>(payload)
        .ok()
        .and_then(|v| {
            v.get("choices")
                .and_then(|c| c.get(0))
                .and_then(|c| c.get("delta"))
                .and_then(|d| d.get("content"))
                .and_then(|s| s.as_str())
                .map(|s| s.to_string())
        })
}

/// Relies on serde_json::from_str and Value::get/as_str: `delta.text` of
/// one stream payload. The result depends on the payload alone.
#[verifier::external_body]
fn parse_anthropic_delta(payload: &str) -> (r: Option<String>)
    ensures
        r.deep_view() == anthropic_delta_of(payload@),
{
    serde_json::from_str::<serde_json::Value>(payload)
        .ok()
        .and_then(|v| {
            v.get("delta")
                .and_then(|d| d.get("text"))
                .and_then(|s| s.as_str())
                .map(|s| s.to_string())
        })
}

/// Relies on serde_json::from_str and Value::get/as_str: the outer option
/// tells whether the body parsed, the inner whether
/// `choices[0].message.content` is a string. The result depends on the
/// body alone.
#[verifier::external_body]
fn parse_chat_content(body: &str) -> (r: Option<Option<String>>)
    ensures
        r.deep_view() == chat_content_of(body@),
{
    match serde_json::from_str::<serde_json::Value>(body) {
        Err(_) => None,
        Ok(v) => Some(
            v.get("choices")
                .and_then(|c| c.get(0))
                .and_then(|c| c.get("message"))
                .and_then(|m| m.get("content"))
                .and_then(|s| s.as_str())
                .map(|s| s.to_string()),
        ),
    }
}

/// Relies on serde_json::from_str and Value::get/as_array/as_str: the
/// `text` string fields of the top-level `content` array. The result
/// depends on the body alone.
#[verifier::external_body]
fn parse_anthropic_texts(body: &str) -> (r: Option<Vec<String>>)
    ensures
        r.deep_view() == anthropic_texts_of(body@),
{
    match serde_json::from_str::<serde_json::Value>(body) {
        Err(_) => None,
        Ok(v) => Some(match v.get("content").and_then(|c| c.as_array()) {
            None => Vec::new(),
            Some(items) => items
                .iter()
                .filter_map(|it| it.get("text").and_then(|t| t.as_str()).map(|s| s.to_string()))
                .collect(),
        }),
    }
}

/// Relies on serde_json::from_str and Value::get/as_array/as_str: the
/// `text` string fields of `candidates[0].content.parts`. The result
/// depends on the body alone.
#[verifier::external_body]
fn parse_gemini_texts(body: &str) -> (r: Option<Vec<String>>)
    ensures
        r.deep_view() == gemini_texts_of(body@),
{
    match serde_json::from_str::<serde_json::Value>(body) {
        Err(_) => None,
        Ok(v) => Some(match v.get("candidates").and_then(|c| c.get(0))
            .and_then(|c| c.get("content")).and_then(|c| c.get("parts"))
            .and_then(|p| p.as_array())
        {
            None => Vec::new(),
            Some(parts) => parts
                .iter()
                .filter_map(|it| it.get("text").and_then(|t| t.as_str()).map(|s| s.to_string()))
                .collect(),
        }),
    }
}

/// Relies on serde_json::from_str and Value::get/as_array/as_str: the
/// `name` string fields of the top-level `models` array. The result
/// depends on the body alone.
#[verifier::external_body]
fn parse_ollama_model_names(body: &str) -> (r: Option<Vec<String>>)
    ensures
        r.deep_view() == ollama_models_of(body@),
{
    match serde_json::from_str::<serde_json::Value>(body) {
        Err(_) => None,
        Ok(v) => Some(match v.get("models").and_then(|m| m.as_array()) {
            None => Vec::new(),
            Some(items) => items
                .iter()
                .filter_map(|it| it.get("name").and_then(|n| n.as_str()).map(|s| s.to_string()))
                .collect(),
        }),
    }
}

/// The `data: ` prefix of a server-sent-event style stream line.
pub open spec fn data_prefix() -> Seq<char> {
    seq!['d', 'a', 't', 'a', ':', ' ']
}

/// The end-of-stream sentinel line.
pub open spec fn done_line() -> Seq<char> {
    seq!['d', 'a', 't', 'a', ':', ' ', '[', 'D', 'O', 'N', 'E', ']']
}

/// The fragment one chat-completion stream line contributes: empty lines,
/// the DONE sentinel, lines without the `data: ` prefix and unparseable
/// payloads contribute nothing.
pub open spec fn openai_line_fragment_spec(line: Seq<char>) -> Option<Seq<char>> {
    if line.len() == 0 || line == done_line() {
        None
    } else if is_prefix(data_prefix(), line) {
        openai_delta_of(line.subrange(6, line.len() as int))
    } else {
        None
    }
}

/// The fragment one messages stream line contributes.
pub open spec fn anthropic_line_fragment_spec(line: Seq<char>) -> Option<Seq<char>> {
    if line.len() == 0 || line == done_line() {
        None
    } else if is_prefix(data_prefix(), line) {
        anthropic_delta_of(line.subrange(6, line.len() as int))
    } else {
        None
    }
}

/// The fragment one newline-delimited-JSON line contributes: empty and
/// malformed lines are skipped, never fatal.
pub open spec fn ollama_line_fragment_spec(line: Seq<char>) -> Option<Seq<char>> {
    if line.len() == 0 {
        None
    } else {
        ndjson_response_of(line)
    }
}

/// The fragments a whole line sequence contributes, in arrival order.
pub open spec fn fragments_by(
    lines: Seq<Seq<char>>,
    one: spec_fn(Seq<char>) -> Option<Seq<char>>,
) -> Seq<Seq<char>>
    decreases lines.len(),
{
    if lines.len() == 0 {
        Seq::empty()
    } else {
        let rest = fragments_by(lines.drop_last(), one);
        match one(lines.last()) {
            Some(f) => rest.push(f),
            None => rest,
        }
    }
}

pub open spec fn openai_fragments(lines: Seq<Seq<char>>) -> Seq<Seq<char>> {
    fragments_by(lines, |l: Seq<char>| openai_line_fragment_spec(l))
}

pub open spec fn anthropic_fragments(lines: Seq<Seq<char>>) -> Seq<Seq<char>> {
    fragments_by(lines, |l: Seq<char>| anthropic_line_fragment_spec(l))
}

pub open spec fn ollama_fragments(lines: Seq<Seq<char>>) -> Seq<Seq<char>> {
    fragments_by(lines, |l: Seq<char>| ollama_line_fragment_spec(l))
}

/// Extracts the fragment of one chat-completion stream line.
pub fn openai_line_fragment(line: &str) -> (r: Option<String>)
    ensures
        r.deep_view() == openai_line_fragment_spec(line@),
{
    proof {
        reveal_strlit("data: [DONE]");
        reveal_strlit("data: ");
        assert("data: [DONE]"@ =~= done_line());
        assert("data: "@ =~= data_prefix());
    }
    if line.is_empty() {
        return None;
    }
    if str_eq(line, "data: [DONE]") {
        return None;
    }
    match strip_prefix_of(line, "data: ") {
        None => None,
        Some(rest) => parse_openai_delta(rest),
    }
}

/// Extracts the fragment of one messages stream line.
pub fn anthropic_line_fragment(line: &str) -> (r: Option<String>)
    ensures
        r.deep_view() == anthropic_line_fragment_spec(line@),
{
    proof {
        reveal_strlit("data: [DONE]");
        reveal_strlit("data: ");
        assert("data: [DONE]"@ =~= done_line());
        assert("data: "@ =~= data_prefix());
    }
    if line.is_empty() {
        return None;
    }
    if str_eq(line, "data: [DONE]") {
        return None;
    }
    match strip_prefix_of(line, "data: ") {
        None => None,
        Some(rest) => parse_anthropic_delta(rest),
    }
}

/// Extracts the fragment of one newline-delimited-JSON line. A line that
/// does not parse yields nothing and the stream goes on.
pub fn ollama_line_fragment(line: &str) -> (r: Option<String>)
    ensures
        r.deep_view() == ollama_line_fragment_spec(line@),
{
    if line.is_empty() {
        return None;
    }
    parse_ndjson_response(line)
}

/// The fragments of a whole chat-completion stream, in arrival order.
pub fn openai_stream_fragments(lines: &Vec<String>) -> (frags: Vec<String>)
    ensures
        frags.deep_view() == openai_fragments(lines.deep_view()),
{
    let mut frags: Vec<String> = Vec::new();
    let mut i: usize = 0;
    proof {
        assert(lines.deep_view().subrange(0, 0) =~= Seq::<Seq<char>>::empty());
    }
    while i < lines.len()
        invariant
            i <= lines.len(),
            lines.deep_view().len() == lines.len(),
            forall|k: int| 0 <= k < lines.len() ==> lines.deep_view()[k] == lines[k]@,
            frags.deep_view() == openai_fragments(lines.deep_view().subrange(0, i as int)),
        decreases lines.len() - i,
    {
        let ghost pre = frags.deep_view();
        match openai_line_fragment(lines[i].as_str()) {
            Some(f) => frags.push(f),
            None => {},
        }
        proof {
            let dv = lines.deep_view();
            assert(dv.subrange(0, i + 1).drop_last() =~= dv.subrange(0, i as int));
            assert(dv.subrange(0, i + 1).last() == lines[i as int]@);
            assert(frags.deep_view() =~= openai_fragments(dv.subrange(0, i + 1)));
        }
        i += 1;
    }
    proof {
        assert(lines.deep_view().subrange(0, lines.len() as int) =~= lines.deep_view());
    }
    frags
}

/// The fragments of a whole messages stream, in arrival order.
pub fn anthropic_stream_fragments(lines: &Vec<String>) -> (frags: Vec<String>)
    ensures
        frags.deep_view() == anthropic_fragments(lines.deep_view()),
{
    let mut frags: Vec<String> = Vec::new();
    let mut i: usize = 0;
    proof {
        assert(lines.deep_view().subrange(0, 0) =~= Seq::<Seq<char>>::empty());
    }
    while i < lines.len()
        invariant
            i <= lines.len(),
            lines.deep_view().len() == lines.len(),
            forall|k: int| 0 <= k < lines.len() ==> lines.deep_view()[k] == lines[k]@,
            frags.deep_view() == anthropic_fragments(lines.deep_view().subrange(0, i as int)),
        decreases lines.len() - i,
    {
        match anthropic_line_fragment(lines[i].as_str()) {
            Some(f) => frags.push(f),
            None => {},
        }
        proof {
            let dv = lines.deep_view();
            assert(dv.subrange(0, i + 1).drop_last() =~= dv.subrange(0, i as int));
            assert(dv.subrange(0, i + 1).last() == lines[i as int]@);
            assert(frags.deep_view() =~= anthropic_fragments(dv.subrange(0, i + 1)));
        }
        i += 1;
    }
    proof {
        assert(lines.deep_view().subrange(0, lines.len() as int) =~= lines.deep_view());
    }
    frags
}

/// The fragments of a whole newline-delimited-JSON stream, in arrival
/// order. A malformed line between valid ones costs only its own
/// fragment.
pub fn ollama_stream_fragments(lines: &Vec<String>) -> (frags: Vec<String>)
    ensures
        frags.deep_view() == ollama_fragments(lines.deep_view()),
{
    let mut frags: Vec<String> = Vec::new();
    let mut i: usize = 0;
    proof {
        assert(lines.deep_view().subrange(0, 0) =~= Seq::<Seq<char>>::empty());
    }
    while i < lines.len()
        invariant
            i <= lines.len(),
            lines.deep_view().len() == lines.len(),
            forall|k: int| 0 <= k < lines.len() ==> lines.deep_view()[k] == lines[k]@,
            frags.deep_view() == ollama_fragments(lines.deep_view().subrange(0, i as int)),
        decreases lines.len() - i,
    {
        match ollama_line_fragment(lines[i].as_str()) {
            Some(f) => frags.push(f),
            None => {},
        }
        proof {
            let dv = lines.deep_view();
            assert(dv.subrange(0, i + 1).drop_last() =~= dv.subrange(0, i as int));
            assert(dv.subrange(0, i + 1).last() == lines[i as int]@);
            assert(frags.deep_view() =~= ollama_fragments(dv.subrange(0, i + 1)));
        }
        i += 1;
    }
    proof {
        assert(lines.deep_view().subrange(0, lines.len() as int) =~= lines.deep_view());
    }
    frags
}

/// The accumulated text of a chat-completion stream: its fragments
/// concatenated in arrival order.
pub fn openai_stream_text(lines: &Vec<String>) -> (r: String)
    ensures
        r@ == concat_seqs(openai_fragments(lines.deep_view())),
{
    let frags = openai_stream_fragments(lines);
    concat_all(&frags)
}

/// The accumulated text of a messages stream.
pub fn anthropic_stream_text(lines: &Vec<String>) -> (r: String)
    ensures
        r@ == concat_seqs(anthropic_fragments(lines.deep_view())),
{
    let frags = anthropic_stream_fragments(lines);
    concat_all(&frags)
}

/// The accumulated text of a newline-delimited-JSON stream.
pub fn ollama_stream_text(lines: &Vec<String>) -> (r: String)
    ensures
        r@ == concat_seqs(ollama_fragments(lines.deep_view())),
{
    let frags = ollama_stream_fragments(lines);
    concat_all(&frags)
}

/// Failure of a non-streaming wire exchange: the whole body did not parse
/// as JSON. On the non-streaming path this is fatal for the call.
#[derive(Clone, Copy, PartialEq, Eq, Structural, Debug)]
pub enum WireError {
    InvalidJson,
}

impl WireError {
    /// A short description of the failure.
    pub fn message(&self) -> (r: String)
        ensures
            r@.len() > 0,
    {
        proof {
            reveal_strlit("provider response body is not valid JSON");
        }
        crate::text::string_of("provider response body is not valid JSON")
    }
}

/// The text of a whole non-streaming chat-completion body: the message
/// content when present, the empty string when the valid body has none,
/// an error when the body does not parse.
pub fn openai_full_text(body: &str) -> (r: Result<String, WireError>)
    ensures
        match chat_content_of(body@) {
            None => r == Result::<String, WireError>::Err(WireError::InvalidJson),
            Some(content) => r is Ok && r->Ok_0@ == match content {
                Some(s) => s,
                None => Seq::<char>::empty(),
            },
        },
{
    match parse_chat_content(body) {
        None => Err(WireError::InvalidJson),
        Some(None) => Ok(String::new()),
        Some(Some(content)) => Ok(content),
    }
}

/// The text of a whole non-streaming messages body: the `content` texts
/// concatenated in order, an error when the body does not parse.
pub fn anthropic_full_text(body: &str) -> (r: Result<String, WireError>)
    ensures
        match anthropic_texts_of(body@) {
            None => r == Result::<String, WireError>::Err(WireError::InvalidJson),
            Some(texts) => r is Ok && r->Ok_0@ == concat_seqs(texts),
        },
{
    match parse_anthropic_texts(body) {
        None => Err(WireError::InvalidJson),
        Some(texts) => Ok(concat_all(&texts)),
    }
}

/// The text of a whole generate-content body: the part texts of the first
/// candidate concatenated in order, an error when the body does not
/// parse.
pub fn gemini_full_text(body: &str) -> (r: Result<String, WireError>)
    ensures
        match gemini_texts_of(body@) {
            None => r == Result::<String, WireError>::Err(WireError::InvalidJson),
            Some(texts) => r is Ok && r->Ok_0@ == concat_seqs(texts),
        },
{
    match parse_gemini_texts(body) {
        None => Err(WireError::InvalidJson),
        Some(texts) => Ok(concat_all(&texts)),
    }
}

/// The model names of a model-listing body, an error when the body does
/// not parse.
pub fn ollama_model_names(body: &str) -> (r: Result<Vec<String>, WireError>)
    ensures
        match ollama_models_of(body@) {
            None => r == Result::<Vec<String>, WireError>::Err(WireError::InvalidJson),
            Some(names) => r is Ok && r->Ok_0.deep_view() == names,
        },
{
    match parse_ollama_model_names(body) {
        None => Err(WireError::InvalidJson),
        Some(names) => Ok(names),
    }
}

} // verus!
