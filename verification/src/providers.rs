//! Model providers: the request and answer types every provider shares,
//! and the OpenAI-compatible wire format (request URL, completion body,
//! streamed `data:` lines). The HTTP exchange belongs to the application.
use vstd::prelude::*;

use crate::errors::DarbError;
use crate::json::{parse_json, JsonValue};
use crate::text::{chars_of, concat, owned, slice_to_vec, string_of, trim_chars, trim_end_chars, CharClass};

verus! {

/// One completion request.
#[derive(Debug, Clone)]
pub struct ProviderRequest {
    pub model: String,
    pub prompt: String,
}

/// Token counts a provider reports.
#[derive(Debug, Clone, Copy, PartialEq, Eq, Structural)]
pub struct TokenUsage {
    pub prompt_tokens: u64,
    pub completion_tokens: u64,
}

impl TokenUsage {
    /// Nothing counted.
    pub fn zero() -> (u: Self)
        ensures
            u.prompt_tokens == 0 && u.completion_tokens == 0,
    {
        TokenUsage { prompt_tokens: 0, completion_tokens: 0 }
    }

    /// Tokens of prompt and completion together (saturating).
    pub fn total(&self) -> (t: u64)
        ensures
            t == (if self.prompt_tokens + self.completion_tokens <= u64::MAX {
                self.prompt_tokens + self.completion_tokens
            } else {
                u64::MAX as int
            }),
    {
        if self.prompt_tokens > u64::MAX - self.completion_tokens {
            u64::MAX
        } else {
            self.prompt_tokens + self.completion_tokens
        }
    }
}

/// A complete answer.
#[derive(Debug, Clone)]
pub struct ProviderResponse {
    pub text: String,
    pub usage: TokenUsage,
}

/// One item of a streamed answer.
#[derive(Debug, Clone, PartialEq, Eq)]
pub enum StreamEvent {
    /// A piece of the answer text.
    Delta(String),
    /// The answer is complete, with its token counts.
    Done(TokenUsage),
}

/// What a provider can do.
#[derive(Debug, Clone, Copy, PartialEq, Eq, Structural)]
pub struct ProviderCapabilities {
    pub streaming: bool,
    pub tool_calling: bool,
    pub vision: bool,
    pub reasoning: bool,
    pub structured_output: bool,
    pub embeddings: bool,
    pub max_context: u32,
}

/// A model provider, as the agent sees it.
pub trait Provider {
    /// Short provider name.
    fn name(&self) -> &'static str;

    /// What the provider supports.
    fn capabilities(&self) -> ProviderCapabilities;
}

/// Default endpoint of the OpenAI API.
pub const DEFAULT_BASE_URL: &'static str = "https://api.openai.com/v1";

/// Capabilities of the OpenAI adapter.
pub fn openai_capabilities() -> (c: ProviderCapabilities)
    ensures
        c == (ProviderCapabilities {
            streaming: true,
            tool_calling: true,
            vision: false,
            reasoning: false,
            structured_output: true,
            embeddings: false,
            max_context: 128_000,
        }),
{
    ProviderCapabilities {
        streaming: true,
        tool_calling: true,
        vision: false,
        reasoning: false,
        structured_output: true,
        embeddings: false,
        max_context: 128_000,
    }
}

/// A blank API key is refused before any request is made.
pub fn check_api_key(key: &str) -> (r: Result<(), DarbError>)
    ensures
        r is Ok <==> crate::text::trim(key@).len() > 0,
        r matches Err(e) ==> e is Provider && e.detail_view() == "missing API key: set DARB_OPENAI_API_KEY"@,
{
    let v = chars_of(key);
    if trim_chars(&v, CharClass::Whitespace).len() == 0 {
        Err(DarbError::Provider(owned("missing API key: set DARB_OPENAI_API_KEY")))
    } else {
        Ok(())
    }
}

/// The chat-completions endpoint under a base URL (trailing slashes of
/// the base dropped).
pub open spec fn completions_url_of(base: Seq<char>) -> Seq<char> {
    crate::text::trim_end_by(base, CharClass::Slash) + "/chat/completions"@
}

/// The chat-completions endpoint under `base`.
pub fn completions_url(base: &str) -> (r: String)
    ensures
        r@ == completions_url_of(base@),
{
    let v = chars_of(base);
    let t = string_of(&trim_end_chars(&v, CharClass::Slash));
    concat(t.as_str(), "/chat/completions")
}

/// Element `i` of a JSON array value.
pub open spec fn nth(v: Option<JsonValue>, i: int) -> Option<JsonValue> {
    match v {
        Some(JsonValue::Array(items)) => if 0 <= i < items@.len() {
            Some(items@[i])
        } else {
            None
        },
        _ => None,
    }
}

/// Field `key` of a JSON object value.
pub open spec fn member(v: Option<JsonValue>, key: Seq<char>) -> Option<JsonValue> {
    match v {
        Some(JsonValue::Object(es)) => crate::json::field(es@, key),
        _ => None,
    }
}

/// A string value's text, or empty (`as_str().unwrap_or("")`).
pub open spec fn text_or_empty(v: Option<JsonValue>) -> Seq<char> {
    match v {
        Some(JsonValue::Str(s)) => s@,
        _ => Seq::empty(),
    }
}

/// A count decoded from a JSON value: absent is zero, a non-negative
/// integer is itself, anything else spoils the whole usage record.
pub open spec fn count_of(v: Option<JsonValue>) -> Option<nat> {
    match v {
        None => Some(0),
        Some(JsonValue::Number(t)) => crate::tools::search::digits_value(t@),
        _ => None,
    }
}

/// Token counts decoded from a `usage` value: missing or malformed usage
/// counts nothing.
pub open spec fn usage_of(v: Option<JsonValue>) -> (nat, nat) {
    match v {
        Some(JsonValue::Object(es)) => match (
            count_of(crate::json::field(es@, "prompt_tokens"@)),
            count_of(crate::json::field(es@, "completion_tokens"@)),
        ) {
            (Some(p), Some(c)) => (p, c),
            _ => (0, 0),
        },
        _ => (0, 0),
    }
}

fn member_of<'a>(v: Option<&'a JsonValue>, key: &str) -> (r: Option<&'a JsonValue>)
    ensures
        match r {
            Some(x) => member(match v { Some(y) => Some(*y), None => None }, key@) == Some(*x),
            None => member(match v { Some(y) => Some(*y), None => None }, key@) is None,
        },
{
    match v {
        Some(JsonValue::Object(es)) => crate::json::get_field(es, key),
        _ => None,
    }
}

fn first_of<'a>(v: Option<&'a JsonValue>) -> (r: Option<&'a JsonValue>)
    ensures
        match r {
            Some(x) => nth(match v { Some(y) => Some(*y), None => None }, 0) == Some(*x),
            None => nth(match v { Some(y) => Some(*y), None => None }, 0) is None,
        },
{
    match v {
        Some(JsonValue::Array(items)) => if items.len() > 0 {
            Some(&items[0])
        } else {
            None
        },
        _ => None,
    }
}

fn count_u64(v: Option<&JsonValue>) -> (r: Option<u64>)
    ensures
        match count_of(match v { Some(y) => Some(*y), None => None }) {
            Some(n) => r == Some(n as u64),
            None => r is None,
        },
{
    match v {
        None => Some(0),
        Some(JsonValue::Number(t)) => crate::tools::search::digits_u64(t.as_str()),
        _ => None,
    }
}

fn usage_from(v: Option<&JsonValue>) -> (u: TokenUsage)
    ensures
        (u.prompt_tokens as nat, u.completion_tokens as nat) == usage_of(match v { Some(y) => Some(*y), None => None }),
{
    match v {
        Some(JsonValue::Object(es)) => {
            let p = count_u64(crate::json::get_field(es, "prompt_tokens"));
            let c = count_u64(crate::json::get_field(es, "completion_tokens"));
            match (p, c) {
                (Some(p), Some(c)) => TokenUsage { prompt_tokens: p, completion_tokens: c },
                _ => TokenUsage::zero(),
            }
        },
        _ => TokenUsage::zero(),
    }
}

/// The answer text of a completion body (`/choices/0/message/content`),
/// empty when absent.
pub open spec fn completion_text(doc: JsonValue) -> Seq<char> {
    text_or_empty(member(member(nth(member(Some(doc), "choices"@), 0), "message"@), "content"@))
}

/// Read a decoded completion body: the answer text and its usage; an
/// empty answer is a provider error.
pub fn completion_of(doc: &JsonValue) -> (r: Result<ProviderResponse, DarbError>)
    ensures
        if completion_text(*doc).len() == 0 {
            r matches Err(e) && e is Provider && e.detail_view() == "openai returned an empty completion"@
        } else {
            r matches Ok(resp) && resp.text@ == completion_text(*doc) && (
            resp.usage.prompt_tokens as nat,
            resp.usage.completion_tokens as nat,
            ) == usage_of(member(Some(*doc), "usage"@))
        },
{
    let choice = first_of(member_of(Some(doc), "choices"));
    let content = member_of(member_of(choice, "message"), "content");
    let text = match content {
        Some(JsonValue::Str(s)) => s.clone(),
        _ => String::new(),
    };
    if chars_of(text.as_str()).len() == 0 {
        return Err(DarbError::Provider(owned("openai returned an empty completion")));
    }
    let usage = usage_from(member_of(Some(doc), "usage"));
    Ok(ProviderResponse { text, usage })
}

/// Read a completion body: the answer text and its usage. A body that is
/// not JSON is a transport error; an empty answer is a provider error.
pub fn parse_completion(body: &str) -> (r: Result<ProviderResponse, DarbError>)
    ensures
        match crate::json::json_document(body@) {
            None => r matches Err(e) && e is Network,
            Some(doc) => if completion_text(doc).len() == 0 {
                r matches Err(e) && e is Provider && e.detail_view() == "openai returned an empty completion"@
            } else {
                r matches Ok(resp) && resp.text@ == completion_text(doc) && (
                resp.usage.prompt_tokens as nat,
                resp.usage.completion_tokens as nat,
                ) == usage_of(member(Some(doc), "usage"@))
            },
        },
{
    match parse_json(body) {
        Some(doc) => completion_of(&doc),
        None => Err(DarbError::Network(owned("http transport failed: invalid JSON body"))),
    }
}

/// The payload of a `data:` line, trimmed; none for other lines.
pub open spec fn sse_payload(line: Seq<char>) -> Option<Seq<char>> {
    if "data:"@.is_prefix_of(line) {
        Some(crate::text::trim(line.skip(5)))
    } else {
        None
    }
}

/// The stream event a server-sent line carries, as `(is a delta, delta
/// text, prompt tokens, completion tokens)`: a non-empty content delta,
/// or the end of the answer (a finish reason or reported usage); nothing
/// for comments, blank payloads, `[DONE]`, non-JSON and other chunks.
pub open spec fn sse_event(line: Seq<char>) -> Option<(bool, Seq<char>, nat, nat)> {
    match sse_payload(line) {
        None => None,
        Some(data) => if data.len() == 0 || data == "[DONE]"@ {
            None
        } else {
            match crate::json::json_document(data) {
                None => None,
                Some(doc) => chunk_event(doc),
            }
        },
    }
}

/// The stream event a decoded chunk carries, as `(is a delta, delta
/// text, prompt tokens, completion tokens)`: a non-empty content delta of
/// the first choice, or the end of the answer (a finish reason or
/// reported usage); nothing for a chunk without choices or with neither.
pub open spec fn chunk_event(doc: JsonValue) -> Option<(bool, Seq<char>, nat, nat)> {
    let choice = nth(member(Some(doc), "choices"@), 0);
    let usage = usage_of(member(Some(doc), "usage"@));
    if choice is None {
        None
    } else {
        let delta = text_or_empty(member(member(choice, "delta"@), "content"@));
        if delta.len() > 0 {
            Some((true, delta, 0, 0))
        } else if member(choice, "finish_reason"@) is Some || usage.0 + usage.1 > 0 {
            Some((false, Seq::empty(), usage.0, usage.1))
        } else {
            None
        }
    }
}

/// A stream event as `(is a delta, delta text, prompt tokens,
/// completion tokens)`.
pub open spec fn event_view(e: StreamEvent) -> (bool, Seq<char>, nat, nat) {
    match e {
        StreamEvent::Delta(t) => (true, t@, 0, 0),
        StreamEvent::Done(u) => (false, Seq::empty(), u.prompt_tokens as nat, u.completion_tokens as nat),
    }
}

/// Read one line of a streamed answer.
pub fn parse_sse_line(line: &str) -> (r: Option<StreamEvent>)
    ensures
        match sse_event(line@) {
            None => r is None,
            Some(v) => r matches Some(e) && event_view(e) == v,
        },
{
    let v = chars_of(line);
    let prefix: Vec<char> = vec!['d', 'a', 't', 'a', ':'];
    proof {
        reveal_strlit("data:");
        assert(prefix@ =~= "data:"@);
    }
    if !crate::text::starts_with_chars(&v, &prefix) {
        return None;
    }
    let rest = slice_to_vec(&v, 5, v.len());
    let data = trim_chars(&rest, CharClass::Whitespace);
    proof {
        assert(rest@ == line@.skip(5));
    }
    let done: Vec<char> = vec!['[', 'D', 'O', 'N', 'E', ']'];
    proof {
        reveal_strlit("[DONE]");
        assert(done@ =~= "[DONE]"@);
    }
    if data.len() == 0 || crate::text::chars_eq(&data, &done) {
        return None;
    }
    let text = string_of(&data);
    match parse_json(text.as_str()) {
        Some(doc) => stream_event_of(&doc),
        None => None,
    }
}

/// Read one decoded chunk of a streamed answer.
pub fn stream_event_of(doc: &JsonValue) -> (r: Option<StreamEvent>)
    ensures
        match chunk_event(*doc) {
            None => r is None,
            Some(v) => r matches Some(e) && event_view(e) == v,
        },
{
    let choice = first_of(member_of(Some(doc), "choices"));
    if choice.is_none() {
        return None;
    }
    let usage = usage_from(member_of(Some(doc), "usage"));
    let delta = match member_of(member_of(choice, "delta"), "content") {
        Some(JsonValue::Str(s)) => s.clone(),
        _ => String::new(),
    };
    if chars_of(delta.as_str()).len() > 0 {
        return Some(StreamEvent::Delta(delta));
    }
    let finished = member_of(choice, "finish_reason").is_some();
    if finished || usage.prompt_tokens > 0 || usage.completion_tokens > 0 {
        return Some(StreamEvent::Done(usage));
    }
    None
}

/// The error of a non-success HTTP status: the status and at most 500
/// characters of the body, trimmed (the API key is never part of it).
pub fn status_error(status: &str, body: &str) -> (e: DarbError)
    ensures
        e is Provider,
        e.detail_view() == "openai request failed with status "@ + status@ + ": "@ + crate::text::trim(
            body@.take(if body@.len() < 500 { body@.len() as int } else { 500 }),
        ),
{
    let v = chars_of(body);
    let n = if v.len() < 500 {
        v.len()
    } else {
        500
    };
    let head = slice_to_vec(&v, 0, n);
    let trimmed = string_of(&trim_chars(&head, CharClass::Whitespace));
    let a = concat("openai request failed with status ", status);
    let b = concat(a.as_str(), ": ");
    DarbError::Provider(concat(b.as_str(), trimmed.as_str()))
}

/// The error of a failed HTTP exchange.
pub fn transport_error(message: &str) -> (e: DarbError)
    ensures
        e is Network,
        e.detail_view() == "http transport failed: "@ + message@,
{
    DarbError::Network(concat("http transport failed: ", message))
}

/// Whether a text holds nothing but whitespace.
pub open spec fn blank(s: Seq<char>) -> bool {
    crate::text::trim(s).len() == 0
}

fn is_blank(s: &str) -> (b: bool)
    ensures
        b == blank(s@),
{
    let v = chars_of(s);
    trim_chars(&v, CharClass::Whitespace).len() == 0
}

/// A whole (not streamed) answer: accepted unless it is blank, which is a
/// provider error rather than an empty success.
pub fn accept_answer(response: ProviderResponse) -> (r: Result<ProviderResponse, DarbError>)
    ensures
        !blank(response.text@) ==> r == Ok::<ProviderResponse, DarbError>(response),
        blank(response.text@) ==> (r matches Err(DarbError::Provider(m)) && m@
            == "provider returned an empty response"@),
{
    if is_blank(response.text.as_str()) {
        return Err(DarbError::Provider(owned("provider returned an empty response")));
    }
    Ok(response)
}

/// A streamed answer being put together, piece by piece.
pub struct StreamCollector {
    pub text: String,
    pub usage: TokenUsage,
}

impl StreamCollector {
    /// Nothing received yet.
    pub fn new() -> (c: Self)
        ensures
            c.text@.len() == 0,
            c.usage.prompt_tokens == 0 && c.usage.completion_tokens == 0,
    {
        StreamCollector { text: String::new(), usage: TokenUsage::zero() }
    }

    /// A piece of the answer arrived.
    pub fn on_delta(&mut self, part: &str)
        ensures
            final(self).text@ == old(self).text@ + part@,
            final(self).usage == old(self).usage,
    {
        self.text = concat(self.text.as_str(), part);
    }

    /// The answer is complete, with its token counts.
    pub fn on_done(&mut self, usage: TokenUsage)
        ensures
            final(self).text == old(self).text,
            final(self).usage == usage,
    {
        self.usage = usage;
    }

    /// The stream broke with `error`. What was received is still an
    /// answer, marked as interrupted; with nothing received the error
    /// stands.
    pub fn on_error(self, error: DarbError) -> (r: Result<(ProviderResponse, bool), DarbError>)
        ensures
            blank(self.text@) ==> r == Err::<(ProviderResponse, bool), DarbError>(error),
            !blank(self.text@) ==> r == Ok::<(ProviderResponse, bool), DarbError>(
                (ProviderResponse { text: self.text, usage: self.usage }, true),
            ),
    {
        if is_blank(self.text.as_str()) {
            return Err(error);
        }
        Ok((ProviderResponse { text: self.text, usage: self.usage }, true))
    }

    /// The stream ended. An answer without content is a provider error.
    pub fn on_end(self) -> (r: Result<(ProviderResponse, bool), DarbError>)
        ensures
            blank(self.text@) ==> (r matches Err(DarbError::Provider(m)) && m@
                == "provider stream produced no content"@),
            !blank(self.text@) ==> r == Ok::<(ProviderResponse, bool), DarbError>(
                (ProviderResponse { text: self.text, usage: self.usage }, false),
            ),
    {
        if is_blank(self.text.as_str()) {
            return Err(DarbError::Provider(owned("provider stream produced no content")));
        }
        Ok((ProviderResponse { text: self.text, usage: self.usage }, false))
    }
}

/// The complete lines of a stream buffer, each without its `\n`, and
/// what follows the last `\n` (kept for the next chunk).
pub fn take_lines(buffer: &str) -> (r: (Vec<String>, String))
    ensures
        crate::text::string_views(r.0@) == crate::text::split_by(buffer@, CharClass::Newline).drop_last(),
        r.1@ == crate::text::split_by(buffer@, CharClass::Newline).last(),
{
    let v = chars_of(buffer);
    let parts = crate::text::split_chars(&v, CharClass::Newline);
    let ghost pv = parts@.map_values(|p: Vec<char>| p@);
    proof {
        crate::text::lemma_split_nonempty(v@, CharClass::Newline);
    }
    let last = parts.len() - 1;
    let mut out: Vec<String> = Vec::new();
    let mut i: usize = 0;
    while i < last
        invariant
            last + 1 == parts@.len(),
            i <= last,
            pv == parts@.map_values(|p: Vec<char>| p@),
            crate::text::string_views(out@) == pv.take(i as int),
        decreases last - i,
    {
        let line = string_of(&parts[i]);
        proof {
            assert(crate::text::string_views(out@.push(line)) == crate::text::string_views(out@).push(line@));
            assert(pv.take(i + 1) == pv.take(i as int).push(pv[i as int]));
        }
        out.push(line);
        i = i + 1;
    }
    proof {
        assert(pv.take(last as int) == pv.drop_last());
    }
    let rest = string_of(&parts[last]);
    (out, rest)
}

/// Environment variables that may hold a provider's key, in the order
/// they are looked up; none for a provider without an adapter.
pub fn key_variables(provider: &str) -> (r: Vec<&'static str>)
    ensures
        r@.map_values(|v: &str| v@) == (if provider@ == "openai"@ {
            seq!["DARB_OPENAI_API_KEY"@, "OPENAI_API_KEY"@]
        } else if provider@ == "anthropic"@ {
            seq!["DARB_ANTHROPIC_API_KEY"@, "ANTHROPIC_API_KEY"@]
        } else {
            Seq::empty()
        }),
{
    if crate::text::str_eq(provider, "openai") {
        let r = vec!["DARB_OPENAI_API_KEY", "OPENAI_API_KEY"];
        proof {
            assert(r@.map_values(|v: &str| v@) =~= seq!["DARB_OPENAI_API_KEY"@, "OPENAI_API_KEY"@]);
        }
        r
    } else if crate::text::str_eq(provider, "anthropic") {
        let r = vec!["DARB_ANTHROPIC_API_KEY", "ANTHROPIC_API_KEY"];
        proof {
            assert(r@.map_values(|v: &str| v@) =~= seq!["DARB_ANTHROPIC_API_KEY"@, "ANTHROPIC_API_KEY"@]);
        }
        r
    } else {
        let r: Vec<&'static str> = Vec::new();
        proof {
            assert(r@.map_values(|v: &str| v@) =~= Seq::<Seq<char>>::empty());
        }
        r
    }
}

/// Why no provider can be built from the configured name and model: a
/// blank model, or the `...` placeholder, is no model; only `openai` has
/// an adapter. `None` when the adapter can be built.
pub open spec fn setup_problem(name: Seq<char>, model: Seq<char>) -> Option<Seq<char>> {
    let m = crate::text::trim(model);
    if m.len() == 0 || m == "..."@ {
        Some("no model configured"@)
    } else if name != "openai"@ {
        Some("provider '"@ + name + "' is not implemented yet"@)
    } else {
        None
    }
}

/// Why no provider can be built from the configuration, if so.
pub fn provider_setup_problem(name: &str, model: &str) -> (r: Option<String>)
    ensures
        match setup_problem(name@, model@) {
            Some(m) => r matches Some(s) && s@ == m,
            None => r is None,
        },
{
    let v = chars_of(model);
    let m = trim_chars(&v, CharClass::Whitespace);
    let dots: Vec<char> = vec!['.', '.', '.'];
    proof {
        reveal_strlit("...");
        assert(dots@ == "..."@);
    }
    if m.len() == 0 || crate::text::chars_eq(&m, &dots) {
        return Some(owned("no model configured"));
    }
    if !crate::text::str_eq(name, "openai") {
        let a = concat("provider '", name);
        return Some(concat(a.as_str(), "' is not implemented yet"));
    }
    None
}

} // verus!
