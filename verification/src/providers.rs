//! The transport surface of the LLM providers as plain data: endpoints,
//! headers, the reading of streamed answers. The HTTP exchange itself lives
//! with the program.
use vstd::prelude::*;
use vstd::string::StringExecFns;

use crate::ai::AiError;
use crate::text::{chars_of, copy_str, decimal, is_blank, slice_chars, starts_with, starts_with_lit, string_of, trim, trim_chars};

verus! {

/// Output-token ceiling asked of every provider.
pub const DEFAULT_MAX_TOKENS: u32 = 8192;

/// Anthropic endpoint (Messages API).
pub const ANTHROPIC_URL: &'static str = "https://api.anthropic.com/v1/messages";

/// OpenAI endpoint (chat completions).
pub const OPENAI_URL: &'static str = "https://api.openai.com/v1/chat/completions";

/// Default (local) Ollama host.
pub const OLLAMA_DEFAULT_HOST: &'static str = "http://localhost:11434";

/// `s` with every trailing `c` removed.
pub open spec fn trim_end_char(s: Seq<char>, c: char) -> Seq<char>
    decreases s.len(),
{
    if s.len() > 0 && s.last() == c {
        trim_end_char(s.drop_last(), c)
    } else {
        s
    }
}

fn trim_end_char_vec(v: &[char], c: char) -> (r: Vec<char>)
    ensures
        r@ == trim_end_char(v@, c),
{
    let mut k = v.len();
    assert(v@.take(v.len() as int) =~= v@);
    while k > 0 && v[k - 1] == c
        invariant
            k <= v.len(),
            trim_end_char(v@, c) == trim_end_char(v@.take(k as int), c),
        decreases k,
    {
        assert(v@.take(k as int).drop_last() =~= v@.take(k - 1));
        k = k - 1;
    }
    let r = slice_chars(v, 0, k);
    assert(r@ =~= v@.take(k as int));
    r
}

/// The Ollama `/api/chat` endpoint of a host (trailing `/` removed).
pub fn ollama_url(host: &str) -> (r: String)
    ensures
        r@ == trim_end_char(host@, '/') + "/api/chat"@,
{
    let h = trim_end_char_vec(chars_of(host).as_slice(), '/');
    let mut s = string_of(h.as_slice());
    s.append("/api/chat");
    s
}

/// The Gemini endpoint: `:generateContent`, or `:streamGenerateContent?alt=sse`
/// when streaming. The model goes in the URL, not in the body.
pub fn gemini_url(model: &str, stream: bool) -> (r: String)
    ensures
        r@ == "https://generativelanguage.googleapis.com/v1beta/models/"@ + model@ + ":"@ + (if stream {
            "streamGenerateContent?alt=sse"@
        } else {
            "generateContent"@
        }),
{
    let mut s = copy_str("https://generativelanguage.googleapis.com/v1beta/models/");
    s.append(model);
    s.append(":");
    if stream {
        s.append("streamGenerateContent?alt=sse");
    } else {
        s.append("generateContent");
    }
    s
}

pub open spec fn headers_view(h: Seq<(String, String)>) -> Seq<(Seq<char>, Seq<char>)> {
    h.map_values(|p: (String, String)| (p.0@, p.1@))
}

fn header(k: &str, v: &str) -> (r: (String, String))
    ensures
        r.0@ == k@,
        r.1@ == v@,
{
    (copy_str(k), copy_str(v))
}

/// Anthropic request headers; `browser` adds the direct-browser-access
/// header (only a browser client needs it).
pub fn anthropic_headers(key: &str, browser: bool) -> (r: Vec<(String, String)>)
    ensures
        headers_view(r@) == {
            let base = seq![
                ("x-api-key"@, key@),
                ("anthropic-version"@, "2023-06-01"@),
                ("content-type"@, "application/json"@),
            ];
            if browser {
                base.push(("anthropic-dangerous-direct-browser-access"@, "true"@))
            } else {
                base
            }
        },
{
    let mut h = vec![
        header("x-api-key", key),
        header("anthropic-version", "2023-06-01"),
        header("content-type", "application/json"),
    ];
    if browser {
        h.push(header("anthropic-dangerous-direct-browser-access", "true"));
    }
    assert(headers_view(h@) =~= {
        let base = seq![
            ("x-api-key"@, key@),
            ("anthropic-version"@, "2023-06-01"@),
            ("content-type"@, "application/json"@),
        ];
        if browser {
            base.push(("anthropic-dangerous-direct-browser-access"@, "true"@))
        } else {
            base
        }
    });
    h
}

/// OpenAI request headers (Bearer key and content type).
pub fn openai_headers(key: &str) -> (r: Vec<(String, String)>)
    ensures
        headers_view(r@) == seq![
            ("authorization"@, "Bearer "@ + key@),
            ("content-type"@, "application/json"@),
        ],
{
    let mut bearer = copy_str("Bearer ");
    bearer.append(key);
    let h = vec![(copy_str("authorization"), bearer), header("content-type", "application/json")];
    assert(headers_view(h@) =~= seq![
        ("authorization"@, "Bearer "@ + key@),
        ("content-type"@, "application/json"@),
    ]);
    h
}

/// Ollama request headers (local, no key).
pub fn ollama_headers() -> (r: Vec<(String, String)>)
    ensures
        headers_view(r@) == seq![("content-type"@, "application/json"@)],
{
    let h = vec![header("content-type", "application/json")];
    assert(headers_view(h@) =~= seq![("content-type"@, "application/json"@)]);
    h
}

/// Gemini request headers (the key travels in `x-goog-api-key`, never in the URL).
pub fn gemini_headers(key: &str) -> (r: Vec<(String, String)>)
    ensures
        headers_view(r@) == seq![
            ("x-goog-api-key"@, key@),
            ("content-type"@, "application/json"@),
        ],
{
    let h = vec![header("x-goog-api-key", key), header("content-type", "application/json")];
    assert(headers_view(h@) =~= seq![
        ("x-goog-api-key"@, key@),
        ("content-type"@, "application/json"@),
    ]);
    h
}

/// The payload of an SSE `data:` line (trimmed); `None` for any other line
/// (`event:`, `id:`, comments, blank lines).
pub open spec fn sse_payload(line: Seq<char>) -> Option<Seq<char>> {
    if starts_with(line, "data:"@) {
        Some(trim(line.skip(5)))
    } else {
        None
    }
}

pub fn sse_data(line: &str) -> (r: Option<String>)
    ensures
        match sse_payload(line@) {
            Some(p) => r matches Some(s) && s@ == p,
            None => r is None,
        },
{
    let v = chars_of(line);
    proof {
        reveal_strlit("data:");
    }
    if starts_with_lit(v.as_slice(), "data:") {
        let rest = slice_chars(v.as_slice(), 5, v.len());
        assert(rest@ =~= v@.skip(5));
        Some(string_of(trim_chars(rest.as_slice()).as_slice()))
    } else {
        None
    }
}

/// A streamed answer being read: the deltas received so far.
pub struct StreamText {
    full: String,
}

impl StreamText {
    pub closed spec fn text(&self) -> Seq<char> {
        self.full@
    }

    /// Nothing received yet.
    pub fn new() -> (r: StreamText)
        ensures
            r.text() == Seq::<char>::empty(),
    {
        StreamText { full: String::new() }
    }

    /// Takes the delta of one line (`None`: a line to ignore). A non-empty
    /// delta is appended and returned, for the token callback.
    pub fn push(&mut self, delta: Option<String>) -> (r: Option<String>)
        ensures
            match delta {
                Some(d) => if d@.len() > 0 {
                    final(self).text() == old(self).text() + d@ && r == Some(d)
                } else {
                    final(self).text() == old(self).text() && r is None
                },
                None => final(self).text() == old(self).text() && r is None,
            },
    {
        match delta {
            Some(d) => {
                let v = chars_of(d.as_str());
                if v.len() > 0 {
                    self.full.append(d.as_str());
                    Some(d)
                } else {
                    None
                }
            },
            None => None,
        }
    }

    /// The whole answer; an answer with no visible text is an error.
    pub fn finish(self) -> (r: Result<String, AiError>)
        ensures
            trim(self.text()).len() == 0 ==> (r matches Err(AiError::BadResponse(m)) && m@
                == "resposta de texto vazia"@),
            trim(self.text()).len() > 0 ==> (r matches Ok(s) && s@ == self.text()),
    {
        let v = chars_of(self.full.as_str());
        if is_blank(v.as_slice()) {
            return Err(AiError::BadResponse(copy_str("resposta de texto vazia")));
        }
        Ok(self.full)
    }
}

// ---------------------------------------------------------------------------
// Reading JSON documents.
// ---------------------------------------------------------------------------
#[verifier::external_type_specification]
#[verifier::external_body]
pub struct ExJsonValue(serde_json::Value);

/// The nodes of a JSON document, as a map from RFC 6901 pointer to node:
/// every pointer that resolves in the document (`""` is the document
/// itself), with the node's kind ([`json_string_kind`], [`json_array_kind`],
/// or another number for the other kinds), its text when it is a string, its
/// length when it is an array, and its compact JSON text (as `Display`
/// writes it).
pub uninterp spec fn json_nodes(v: serde_json::Value) -> Map<Seq<char>, (u8, Seq<char>, nat, Seq<char>)>;

/// What `serde_json::from_str::<Value>` makes of `text`: the nodes of the
/// document (as [`json_nodes`] gives them), or the text of the parser's error.
pub uninterp spec fn json_parsed(text: Seq<char>) -> Result<Map<Seq<char>, (u8, Seq<char>, nat, Seq<char>)>, Seq<char>>;

/// Kind of a string node.
pub open spec fn json_string_kind() -> u8 {
    3
}

/// Kind of an array node.
pub open spec fn json_array_kind() -> u8 {
    4
}

/// A JSON pointer: empty, or starting with `/`.
pub open spec fn is_pointer(q: Seq<char>) -> bool {
    q.len() == 0 || q[0] == '/'
}

/// `sub` holds what `m` holds under the pointer `p`: the pointer `q` in
/// `sub` is the pointer `p + q` in `m`.
pub open spec fn nodes_under(
    m: Map<Seq<char>, (u8, Seq<char>, nat, Seq<char>)>,
    p: Seq<char>,
    sub: Map<Seq<char>, (u8, Seq<char>, nat, Seq<char>)>,
) -> bool {
    forall|q: Seq<char>|
        #![trigger sub.contains_key(q)]
        #![trigger m.contains_key(p + q)]
        is_pointer(q) ==> (sub.contains_key(q) <==> m.contains_key(p + q)) && (sub.contains_key(q) ==> sub[q]
            == m[p + q])
}

/// The pointer of the item `k` of an array.
pub open spec fn item_pointer(k: int) -> Seq<char> {
    "/"@ + decimal(k as nat)
}

/// The string at the pointer `p`, if a string is there.
pub open spec fn str_at(m: Map<Seq<char>, (u8, Seq<char>, nat, Seq<char>)>, p: Seq<char>) -> Option<Seq<char>> {
    if m.contains_key(p) && m[p].0 == json_string_kind() {
        Some(m[p].1)
    } else {
        None
    }
}

/// The length of the array at the pointer `p`, if an array is there.
pub open spec fn array_at(m: Map<Seq<char>, (u8, Seq<char>, nat, Seq<char>)>, p: Seq<char>) -> Option<nat> {
    if m.contains_key(p) && m[p].0 == json_array_kind() {
        Some(m[p].2)
    } else {
        None
    }
}

pub open spec fn opt_seq(o: Option<String>) -> Option<Seq<char>> {
    match o {
        Some(s) => Some(s@),
        None => None,
    }
}

/// The text of an optional string, empty when there is none.
pub open spec fn or_empty(o: Option<Seq<char>>) -> Seq<char> {
    match o {
        Some(s) => s,
        None => Seq::empty(),
    }
}

/// Calls `serde_json::from_str::<Value>`: the document `text` holds (with
/// the nodes [`json_parsed`] names, the document itself among them), or the
/// text of the parser's error.
#[verifier::external_body]
pub(crate) fn parse_json(text: &str) -> (r: Result<serde_json::Value, String>)
    ensures
        match json_parsed(text@) {
            Ok(m) => r matches Ok(v) && json_nodes(v) == m && m.contains_key(Seq::empty()),
            Err(e) => r matches Err(s) && s@ == e,
        },
{
    serde_json::from_str::<serde_json::Value>(text).map_err(|e| e.to_string())
}

/// Calls `Value::pointer` (RFC 6901 lookup): a node exactly where the
/// pointer resolves, and what the document holds under it.
#[verifier::external_body]
fn json_pointer<'a>(v: &'a serde_json::Value, pointer: &str) -> (r: Option<&'a serde_json::Value>)
    ensures
        (r is Some) == json_nodes(*v).contains_key(pointer@),
        r matches Some(x) ==> nodes_under(json_nodes(*v), pointer@, json_nodes(*x)),
{
    v.pointer(pointer)
}

/// Calls `Value::as_str`: the text of a string node, nothing for any other.
#[verifier::external_body]
fn json_as_str(v: &serde_json::Value) -> (r: Option<&str>)
    ensures
        (r is Some) == (json_nodes(*v)[Seq::empty()].0 == json_string_kind()),
        r matches Some(s) ==> s@ == json_nodes(*v)[Seq::empty()].1,
{
    v.as_str()
}

/// Calls `Value::as_array`: the items of an array node (item `k` holding
/// what the array holds under `/k`), nothing for any other node.
#[verifier::external_body]
fn json_as_array(v: &serde_json::Value) -> (r: Option<&Vec<serde_json::Value>>)
    ensures
        (r is Some) == (json_nodes(*v)[Seq::empty()].0 == json_array_kind()),
        r matches Some(a) ==> a@.len() == json_nodes(*v)[Seq::empty()].2 && forall|k: int|
            0 <= k < a@.len() ==> json_nodes(*v).contains_key(item_pointer(k)) && nodes_under(
                json_nodes(*v),
                item_pointer(k),
                json_nodes(#[trigger] a@[k]),
            ),
{
    v.as_array()
}

/// Calls the `Display` of `Value`: the compact JSON text of the document
/// (the text [`json_nodes`] gives its root).
#[verifier::external_body]
fn json_text(v: &serde_json::Value) -> (r: String)
    ensures
        r@ == json_nodes(*v)[Seq::empty()].3,
{
    v.to_string()
}

proof fn lemma_item_pointer(k: int)
    ensures
        is_pointer(item_pointer(k)),
        item_pointer(k).len() > 0,
{
    reveal_strlit("/");
}

proof fn lemma_join_pointer(a: Seq<char>, b: Seq<char>)
    requires
        is_pointer(a),
        is_pointer(b),
    ensures
        is_pointer(a + b),
{
    if a.len() == 0 {
        assert(a + b =~= b);
    }
}

proof fn lemma_empty_suffix(p: Seq<char>)
    ensures
        p + Seq::<char>::empty() == p,
        is_pointer(Seq::<char>::empty()),
{
    assert(p + Seq::<char>::empty() =~= p);
}

/// The string at `pointer` in a document.
fn text_at(v: &serde_json::Value, pointer: &str) -> (r: Option<String>)
    ensures
        opt_seq(r) == str_at(json_nodes(*v), pointer@),
{
    match json_pointer(v, pointer) {
        Some(x) => {
            proof {
                lemma_empty_suffix(pointer@);
                assert(json_nodes(*x).contains_key(Seq::empty()));
            }
            match json_as_str(x) {
                Some(t) => Some(copy_str(t)),
                None => None,
            }
        },
        None => None,
    }
}

/// The node an API error message is read from: `/error/message`, else
/// `/error`.
pub open spec fn api_error_node(m: Map<Seq<char>, (u8, Seq<char>, nat, Seq<char>)>) -> Option<Seq<char>> {
    if m.contains_key("/error/message"@) {
        Some("/error/message"@)
    } else if m.contains_key("/error"@) {
        Some("/error"@)
    } else {
        None
    }
}

/// The message of an API error, when the node it is read from is a string.
pub open spec fn api_error_of(m: Map<Seq<char>, (u8, Seq<char>, nat, Seq<char>)>) -> Option<Seq<char>> {
    match api_error_node(m) {
        Some(p) => str_at(m, p),
        None => None,
    }
}

/// The message of an API error answer: the string the error node holds, else
/// the compact text of the whole answer.
pub open spec fn api_error_text(m: Map<Seq<char>, (u8, Seq<char>, nat, Seq<char>)>) -> Seq<char> {
    match api_error_of(m) {
        Some(s) => s,
        None => m[Seq::empty()].3,
    }
}

/// A readable error message out of the various error answers: the text at
/// `/error/message`, else the `error` string, else the whole JSON.
pub fn api_error_msg(v: &serde_json::Value) -> (r: String)
    ensures
        r@ == api_error_text(json_nodes(*v)),
{
    let found = match json_pointer(v, "/error/message") {
        Some(x) => Some(x),
        None => json_pointer(v, "/error"),
    };
    proof {
        lemma_empty_suffix("/error/message"@);
        lemma_empty_suffix("/error"@);
    }
    match found {
        Some(x) => {
            assert(json_nodes(*x).contains_key(Seq::empty()));
            match json_as_str(x) {
                Some(t) => copy_str(t),
                None => json_text(v),
            }
        },
        None => json_text(v),
    }
}

/// `r` is a delta: `Ok` with the text `o`.
pub open spec fn delta_is(r: Result<Option<String>, AiError>, o: Option<Seq<char>>) -> bool {
    r matches Ok(x) && opt_seq(x) == o
}

/// `r` is the HTTP error an in-band error object of `m` stands for: the
/// API's message when it gives one as a string, else the answer's JSON text.
pub open spec fn http_error_of<T>(r: Result<T, AiError>, m: Map<Seq<char>, (u8, Seq<char>, nat, Seq<char>)>) -> bool {
    r matches Err(AiError::Http(e)) && e@ == api_error_text(m)
}

/// A text that is not empty.
pub open spec fn non_empty(o: Option<Seq<char>>) -> Option<Seq<char>> {
    match o {
        Some(t) => if t.len() > 0 {
            Some(t)
        } else {
            None
        },
        None => None,
    }
}

/// Ollama (NDJSON, no `data:` prefix): the whole line is a JSON object whose
/// `message.content` is the delta. A blank or partial line gives nothing; an
/// in-band `{"error": …}` line is an HTTP error.
pub fn ollama_stream_delta(line: &str) -> (r: Result<Option<String>, AiError>)
    ensures
        match json_parsed(line@) {
            Err(_) => delta_is(r, None),
            Ok(m) => if m.contains_key("/error"@) {
                http_error_of(r, m)
            } else {
                delta_is(r, non_empty(str_at(m, "/message/content"@)))
            },
        },
{
    let v = match parse_json(line) {
        Ok(v) => v,
        Err(_) => return Ok(None),
    };
    if json_pointer(&v, "/error").is_some() {
        return Err(AiError::Http(api_error_msg(&v)));
    }
    match text_at(&v, "/message/content") {
        Some(t) => {
            let c = chars_of(t.as_str());
            if c.len() > 0 {
                Ok(Some(t))
            } else {
                Ok(None)
            }
        },
        None => Ok(None),
    }
}

/// OpenAI (SSE): `choices[0].delta.content`; the `[DONE]` sentinel and
/// non-JSON lines give nothing; an in-band `error` object is an HTTP error.
pub fn openai_stream_delta(data: &str) -> (r: Result<Option<String>, AiError>)
    ensures
        data@ == "[DONE]"@ ==> delta_is(r, None),
        data@ != "[DONE]"@ ==> match json_parsed(data@) {
            Err(_) => delta_is(r, None),
            Ok(m) => if m.contains_key("/error"@) {
                http_error_of(r, m)
            } else {
                delta_is(r, str_at(m, "/choices/0/delta/content"@))
            },
        },
{
    if crate::text::str_eq(data, "[DONE]") {
        return Ok(None);
    }
    let v = match parse_json(data) {
        Ok(v) => v,
        Err(_) => return Ok(None),
    };
    if json_pointer(&v, "/error").is_some() {
        return Err(AiError::Http(api_error_msg(&v)));
    }
    Ok(text_at(&v, "/choices/0/delta/content"))
}

/// The error of a refused answer.
pub open spec fn refusal_msg() -> Seq<char> {
    "o modelo recusou a solicitação (refusal)"@
}

/// What an Anthropic event line holds, by its `type`.
pub open spec fn anthropic_delta_ok(r: Result<Option<String>, AiError>, m: Map<Seq<char>, (u8, Seq<char>, nat, Seq<char>)>) -> bool {
    match str_at(m, "/type"@) {
        None => delta_is(r, None),
        Some(k) => if k == "content_block_delta"@ {
            if str_at(m, "/delta/type"@) == Some("text_delta"@) {
                delta_is(r, str_at(m, "/delta/text"@))
            } else {
                delta_is(r, None)
            }
        } else if k == "message_delta"@ {
            if str_at(m, "/delta/stop_reason"@) == Some("refusal"@) {
                r matches Err(AiError::BadResponse(e)) && e@ == refusal_msg()
            } else {
                delta_is(r, None)
            }
        } else if k == "error"@ {
            http_error_of(r, m)
        } else {
            delta_is(r, None)
        },
    }
}

/// Anthropic (SSE): the text of `content_block_delta` events whose delta is a
/// `text_delta` (thinking deltas are skipped); a `refusal` stop reason is an
/// error; an in-band `error` event is an HTTP error; other lines give nothing.
pub fn anthropic_stream_delta(data: &str) -> (r: Result<Option<String>, AiError>)
    ensures
        match json_parsed(data@) {
            Err(_) => delta_is(r, None),
            Ok(m) => anthropic_delta_ok(r, m),
        },
{
    let v = match parse_json(data) {
        Ok(v) => v,
        Err(_) => return Ok(None),
    };
    let kind = match text_at(&v, "/type") {
        Some(k) => k,
        None => return Ok(None),
    };
    if crate::text::str_eq(kind.as_str(), "content_block_delta") {
        match text_at(&v, "/delta/type") {
            Some(t) => if crate::text::str_eq(t.as_str(), "text_delta") {
                Ok(text_at(&v, "/delta/text"))
            } else {
                Ok(None)
            },
            None => Ok(None),
        }
    } else if crate::text::str_eq(kind.as_str(), "message_delta") {
        match text_at(&v, "/delta/stop_reason") {
            Some(t) => if crate::text::str_eq(t.as_str(), "refusal") {
                Err(AiError::BadResponse(copy_str("o modelo recusou a solicitação (refusal)")))
            } else {
                Ok(None)
            },
            None => Ok(None),
        }
    } else if crate::text::str_eq(kind.as_str(), "error") {
        Err(AiError::Http(api_error_msg(&v)))
    } else {
        Ok(None)
    }
}

/// The concatenated `text` of the first `n` items of the array at `base`
/// (an item without a string `text` adds nothing).
pub open spec fn parts_text(m: Map<Seq<char>, (u8, Seq<char>, nat, Seq<char>)>, base: Seq<char>, n: nat) -> Seq<char>
    decreases n,
{
    if n == 0 {
        Seq::empty()
    } else {
        parts_text(m, base, (n - 1) as nat) + or_empty(str_at(m, base + item_pointer(n - 1) + "/text"@))
    }
}

/// The error of an answer the provider blocked.
pub open spec fn blocked_msg(reason: Seq<char>) -> Seq<char> {
    "resposta bloqueada pelo provedor: "@ + reason
}

/// The pointer of the parts of Gemini's first candidate.
pub open spec fn gemini_parts() -> Seq<char> {
    "/candidates/0/content/parts"@
}

/// What a Gemini event line holds, once it is known to be no error.
pub open spec fn gemini_delta_ok(r: Result<Option<String>, AiError>, m: Map<Seq<char>, (u8, Seq<char>, nat, Seq<char>)>) -> bool {
    match str_at(m, "/promptFeedback/blockReason"@) {
        Some(reason) => r matches Err(AiError::BadResponse(e)) && e@ == blocked_msg(reason),
        None => match array_at(m, gemini_parts()) {
            None => delta_is(r, None),
            Some(n) => delta_is(r, non_empty(Some(parts_text(m, gemini_parts(), n)))),
        },
    }
}

/// The string at `field` of the item `k` of an array that lies at `base` of
/// the document `m` (the nodes of `a` are those of the array items).
pub(crate) fn item_text(
    a: &Vec<serde_json::Value>,
    k: usize,
    field: &str,
    Ghost(m): Ghost<Map<Seq<char>, (u8, Seq<char>, nat, Seq<char>)>>,
    Ghost(base): Ghost<Seq<char>>,
) -> (r: Option<String>)
    requires
        k < a@.len(),
        is_pointer(field@),
        nodes_under(m, base + item_pointer(k as int), json_nodes(a@[k as int])),
    ensures
        opt_seq(r) == str_at(m, base + item_pointer(k as int) + field@),
{
    proof {
        let sub = json_nodes(a@[k as int]);
        assert(sub.contains_key(field@) <==> m.contains_key((base + item_pointer(k as int)) + field@));
    }
    text_at(&a[k], field)
}

/// The concatenated text of the items of an array node that lies at `base`
/// of the document `m` (the nodes of `a` are those of the array items).
fn concat_texts(
    a: &Vec<serde_json::Value>,
    Ghost(m): Ghost<Map<Seq<char>, (u8, Seq<char>, nat, Seq<char>)>>,
    Ghost(base): Ghost<Seq<char>>,
) -> (r: String)
    requires
        forall|k: int|
            0 <= k < a@.len() ==> nodes_under(m, base + item_pointer(k), json_nodes(#[trigger] a@[k])),
    ensures
        r@ == parts_text(m, base, a@.len()),
{
    let mut text = String::new();
    let mut i: usize = 0;
    while i < a.len()
        invariant
            i <= a@.len(),
            text@ == parts_text(m, base, i as nat),
            forall|k: int|
                0 <= k < a@.len() ==> nodes_under(m, base + item_pointer(k), json_nodes(#[trigger] a@[k])),
        decreases a@.len() - i,
    {
        let ghost full = base + item_pointer(i as int) + "/text"@;
        proof {
            let sub = json_nodes(a@[i as int]);
            assert(nodes_under(m, base + item_pointer(i as int), sub));
            reveal_strlit("/text");
            assert(is_pointer("/text"@));
            assert((base + item_pointer(i as int)) + "/text"@ == full);
            assert(sub.contains_key("/text"@) <==> m.contains_key(full));
        }
        let got = text_at(&a[i], "/text");
        proof {
            let sub = json_nodes(a@[i as int]);
            assert(str_at(sub, "/text"@) == str_at(m, full));
        }
        match got {
            Some(s) => {
                text.append(s.as_str());
            },
            None => {},
        }
        proof {
            assert(text@ =~= parts_text(m, base, (i + 1) as nat));
        }
        i = i + 1;
    }
    text
}

/// The items of the array at `pointer` of `v`, each holding what the array
/// holds under its index.
pub(crate) fn array_items<'a>(v: &'a serde_json::Value, pointer: &str) -> (r: Option<&'a Vec<serde_json::Value>>)
    ensures
        (r is Some) == (array_at(json_nodes(*v), pointer@) is Some),
        r matches Some(a) ==> a@.len() == array_at(json_nodes(*v), pointer@)->0 && forall|k: int|
            0 <= k < a@.len() ==> nodes_under(json_nodes(*v), pointer@ + item_pointer(k), json_nodes(#[trigger] a@[k])),
{
    match json_pointer(v, pointer) {
        Some(x) => {
            proof {
                lemma_empty_suffix(pointer@);
                assert(json_nodes(*x).contains_key(Seq::empty()));
            }
            match json_as_array(x) {
                Some(a) => {
                    proof {
                        let m = json_nodes(*v);
                        let mx = json_nodes(*x);
                        assert forall|k: int| 0 <= k < a@.len() implies nodes_under(
                            m,
                            pointer@ + item_pointer(k),
                            json_nodes(#[trigger] a@[k]),
                        ) by {
                            let sub = json_nodes(a@[k]);
                            assert(nodes_under(mx, item_pointer(k), sub));
                            assert forall|q: Seq<char>| #![trigger sub.contains_key(q)] is_pointer(q) implies (
                            sub.contains_key(q) <==> m.contains_key((pointer@ + item_pointer(k)) + q)) && (
                            sub.contains_key(q) ==> sub[q] == m[(pointer@ + item_pointer(k)) + q]) by {
                                let q2 = item_pointer(k) + q;
                                lemma_item_pointer(k);
                                lemma_join_pointer(item_pointer(k), q);
                                assert(is_pointer(q2));
                                assert(sub.contains_key(q) <==> mx.contains_key(q2));
                                assert(mx.contains_key(q2) <==> m.contains_key(pointer@ + q2));
                                assert((pointer@ + item_pointer(k)) + q =~= pointer@ + q2);
                            }
                        }
                    }
                    Some(a)
                },
                None => None,
            }
        },
        None => None,
    }
}

/// Gemini (SSE): the concatenated `candidates[0].content.parts[*].text`
/// (nothing when empty); a `promptFeedback.blockReason` is an error; an
/// in-band `error` object is an HTTP error.
pub fn gemini_stream_delta(data: &str) -> (r: Result<Option<String>, AiError>)
    ensures
        match json_parsed(data@) {
            Err(_) => delta_is(r, None),
            Ok(m) => if m.contains_key("/error"@) {
                http_error_of(r, m)
            } else {
                gemini_delta_ok(r, m)
            },
        },
{
    let v = match parse_json(data) {
        Ok(v) => v,
        Err(_) => return Ok(None),
    };
    if json_pointer(&v, "/error").is_some() {
        return Err(AiError::Http(api_error_msg(&v)));
    }
    if let Some(reason) = text_at(&v, "/promptFeedback/blockReason") {
        let mut m = copy_str("resposta bloqueada pelo provedor: ");
        m.append(reason.as_str());
        proof {
            reveal_strlit("resposta bloqueada pelo provedor: ");
        }
        return Err(AiError::BadResponse(m));
    }
    let parts = match array_items(&v, "/candidates/0/content/parts") {
        Some(a) => a,
        None => return Ok(None),
    };
    let text = concat_texts(parts, Ghost(json_nodes(v)), Ghost("/candidates/0/content/parts"@));
    let c = chars_of(text.as_str());
    if c.len() > 0 {
        Ok(Some(text))
    } else {
        Ok(None)
    }
}


// ---------------------------------------------------------------------------
// Reading a whole (non-streamed) answer.
// ---------------------------------------------------------------------------
/// The error of an answer with no visible text.
pub open spec fn empty_answer_msg() -> Seq<char> {
    "resposta de texto vazia"@
}

/// `r` is a `BadResponse` with the message `msg`.
pub open spec fn bad_response<T>(r: Result<T, AiError>, msg: Seq<char>) -> bool {
    r matches Err(AiError::BadResponse(e)) && e@ == msg
}

/// `r` is the answer `t` when it has something visible in it, else the
/// error of an empty answer.
pub open spec fn visible_result(r: Result<String, AiError>, t: Seq<char>) -> bool {
    if trim(t).len() > 0 {
        r matches Ok(s) && s@ == t
    } else {
        bad_response(r, empty_answer_msg())
    }
}

fn visible_or_error(t: String) -> (r: Result<String, AiError>)
    ensures
        visible_result(r, t@),
{
    let c = chars_of(t.as_str());
    if is_blank(c.as_slice()) {
        Err(AiError::BadResponse(copy_str("resposta de texto vazia")))
    } else {
        Ok(t)
    }
}

/// The concatenated `text` of the first `n` blocks of the array at `base`
/// whose `type` is `text`.
pub open spec fn blocks_text(m: Map<Seq<char>, (u8, Seq<char>, nat, Seq<char>)>, base: Seq<char>, n: nat) -> Seq<char>
    decreases n,
{
    if n == 0 {
        Seq::empty()
    } else {
        let b = base + item_pointer(n - 1);
        blocks_text(m, base, (n - 1) as nat) + if str_at(m, b + "/type"@) == Some("text"@) {
            or_empty(str_at(m, b + "/text"@))
        } else {
            Seq::empty()
        }
    }
}

/// What Anthropic's answer `m` gives.
pub open spec fn anthropic_answer(r: Result<String, AiError>, m: Map<Seq<char>, (u8, Seq<char>, nat, Seq<char>)>) -> bool {
    if str_at(m, "/stop_reason"@) == Some("refusal"@) {
        bad_response(r, refusal_msg())
    } else {
        match array_at(m, "/content"@) {
            None => bad_response(r, "sem `content` na resposta"@),
            Some(n) => visible_result(r, blocks_text(m, "/content"@, n)),
        }
    }
}

/// Anthropic: the concatenated text of the `content` blocks of type `text`
/// (thinking blocks are skipped); a `refusal` stop reason, a missing
/// `content` array or an answer with no visible text is a `BadResponse`.
pub fn anthropic_extract(v: &serde_json::Value) -> (r: Result<String, AiError>)
    ensures
        anthropic_answer(r, json_nodes(*v)),
{
    let ghost m = json_nodes(*v);
    if let Some(stop) = text_at(v, "/stop_reason") {
        if crate::text::str_eq(stop.as_str(), "refusal") {
            return Err(AiError::BadResponse(copy_str("o modelo recusou a solicitação (refusal)")));
        }
    }
    let blocks = match array_items(v, "/content") {
        Some(a) => a,
        None => return Err(AiError::BadResponse(copy_str("sem `content` na resposta"))),
    };
    let mut text = String::new();
    let mut i: usize = 0;
    while i < blocks.len()
        invariant
            i <= blocks@.len(),
            text@ == blocks_text(m, "/content"@, i as nat),
            forall|k: int|
                0 <= k < blocks@.len() ==> nodes_under(m, "/content"@ + item_pointer(k), json_nodes(#[trigger] blocks@[k])),
        decreases blocks@.len() - i,
    {
        let b = &blocks[i];
        let ghost bp = "/content"@ + item_pointer(i as int);
        proof {
            let sub = json_nodes(blocks@[i as int]);
            assert(nodes_under(m, bp, sub));
            reveal_strlit("/type");
            reveal_strlit("/text");
            assert(is_pointer("/type"@));
            assert(is_pointer("/text"@));
            assert(sub.contains_key("/type"@) <==> m.contains_key(bp + "/type"@));
            assert(sub.contains_key("/text"@) <==> m.contains_key(bp + "/text"@));
        }
        let kind = text_at(b, "/type");
        let is_text = match kind {
            Some(k) => crate::text::str_eq(k.as_str(), "text"),
            None => false,
        };
        proof {
            reveal_strlit("text");
            let sub = json_nodes(blocks@[i as int]);
            assert(str_at(sub, "/type"@) == str_at(m, bp + "/type"@));
            assert(str_at(sub, "/text"@) == str_at(m, bp + "/text"@));
        }
        if is_text {
            if let Some(s) = text_at(b, "/text") {
                text.append(s.as_str());
            }
        }
        proof {
            assert(text@ =~= blocks_text(m, "/content"@, (i + 1) as nat));
        }
        i = i + 1;
    }
    visible_or_error(text)
}

/// The answer whose text is the string at `p` of `m` (`missing` is the error
/// when there is none).
pub open spec fn text_answer(r: Result<String, AiError>, m: Map<Seq<char>, (u8, Seq<char>, nat, Seq<char>)>, p: Seq<char>, missing: Seq<char>) -> bool {
    match str_at(m, p) {
        Some(t) => visible_result(r, t),
        None => bad_response(r, missing),
    }
}

/// OpenAI: `choices[0].message.content`; missing or without visible text is a
/// `BadResponse`.
pub fn openai_extract(v: &serde_json::Value) -> (r: Result<String, AiError>)
    ensures
        text_answer(r, json_nodes(*v), "/choices/0/message/content"@, "sem `choices[0].message.content`"@),
{
    match text_at(v, "/choices/0/message/content") {
        Some(t) => visible_or_error(t),
        None => Err(AiError::BadResponse(copy_str("sem `choices[0].message.content`"))),
    }
}

/// Ollama: `message.content`; missing or without visible text is a
/// `BadResponse`.
pub fn ollama_extract(v: &serde_json::Value) -> (r: Result<String, AiError>)
    ensures
        text_answer(r, json_nodes(*v), "/message/content"@, "sem `message.content`"@),
{
    match text_at(v, "/message/content") {
        Some(t) => visible_or_error(t),
        None => Err(AiError::BadResponse(copy_str("sem `message.content`"))),
    }
}

/// The pointer of the parts of Gemini's first candidate, in a whole answer.
pub open spec fn first_candidate_parts() -> Seq<char> {
    "/candidates"@ + item_pointer(0) + "/content/parts"@
}

/// What Gemini's answer `m` gives.
pub open spec fn gemini_answer(r: Result<String, AiError>, m: Map<Seq<char>, (u8, Seq<char>, nat, Seq<char>)>) -> bool {
    if array_at(m, "/candidates"@) matches Some(n) && n > 0 {
        match array_at(m, first_candidate_parts()) {
            None => bad_response(r, "sem `content.parts` no candidate"@),
            Some(k) => visible_result(r, parts_text(m, first_candidate_parts(), k)),
        }
    } else {
        match str_at(m, "/promptFeedback/blockReason"@) {
            Some(reason) => bad_response(r, blocked_msg(reason)),
            None => bad_response(r, "sem `candidates` na resposta"@),
        }
    }
}

/// What lies under `p` of `m` lies, in `sub`, at the same place under `b`.
proof fn lemma_parts_text_under(
    m: Map<Seq<char>, (u8, Seq<char>, nat, Seq<char>)>,
    p: Seq<char>,
    sub: Map<Seq<char>, (u8, Seq<char>, nat, Seq<char>)>,
    b: Seq<char>,
    n: nat,
)
    requires
        nodes_under(m, p, sub),
        is_pointer(b),
    ensures
        parts_text(sub, b, n) == parts_text(m, p + b, n),
        array_at(sub, b) == array_at(m, p + b),
    decreases n,
{
    assert(sub.contains_key(b) <==> m.contains_key(p + b));
    if n > 0 {
        lemma_parts_text_under(m, p, sub, b, (n - 1) as nat);
        let q = b + item_pointer(n - 1) + "/text"@;
        reveal_strlit("/text");
        lemma_item_pointer(n - 1);
        lemma_join_pointer(b, item_pointer(n - 1));
        lemma_join_pointer(b + item_pointer(n - 1), "/text"@);
        assert(is_pointer(q));
        assert(sub.contains_key(q) <==> m.contains_key(p + q));
        assert(p + q =~= (p + b) + item_pointer(n - 1) + "/text"@);
    }
}

/// Gemini: the concatenated `candidates[0].content.parts[*].text`. Without
/// candidates the answer was blocked (`promptFeedback.blockReason`, when
/// given, is named in the message); a candidate without parts or an answer
/// with no visible text is a `BadResponse`.
pub fn gemini_extract(v: &serde_json::Value) -> (r: Result<String, AiError>)
    ensures
        gemini_answer(r, json_nodes(*v)),
{
    let ghost m = json_nodes(*v);
    let candidates = match array_items(v, "/candidates") {
        Some(a) => if a.len() > 0 { Some(a) } else { None },
        None => None,
    };
    let candidates = match candidates {
        Some(c) => c,
        None => {
            return match text_at(v, "/promptFeedback/blockReason") {
                Some(reason) => {
                    let mut msg = copy_str("resposta bloqueada pelo provedor: ");
                    msg.append(reason.as_str());
                    proof {
                        reveal_strlit("resposta bloqueada pelo provedor: ");
                    }
                    Err(AiError::BadResponse(msg))
                },
                None => Err(AiError::BadResponse(copy_str("sem `candidates` na resposta"))),
            };
        },
    };
    let ghost c0 = "/candidates"@ + item_pointer(0);
    let ghost mc = json_nodes(candidates@[0]);
    proof {
        assert(nodes_under(m, c0, mc));
        reveal_strlit("/content/parts");
        assert(is_pointer("/content/parts"@));
        lemma_parts_text_under(m, c0, mc, "/content/parts"@, 0);
    }
    let parts = match array_items(&candidates[0], "/content/parts") {
        Some(a) => a,
        None => return Err(AiError::BadResponse(copy_str("sem `content.parts` no candidate"))),
    };
    let text = concat_texts(parts, Ghost(mc), Ghost("/content/parts"@));
    proof {
        lemma_parts_text_under(m, c0, mc, "/content/parts"@, parts@.len());
    }
    visible_or_error(text)
}

/// The head of the error of an unsuccessful HTTP status: `HTTP <status>: `.
pub open spec fn http_error_head(status: Seq<char>) -> Seq<char> {
    "HTTP "@ + status + ": "@
}

/// Reads an HTTP answer, the status first: an unsuccessful status is an
/// `Http` error that names it (with the API's message when the body is a JSON
/// error, else the trimmed body); a successful one must carry a JSON document,
/// else it is a `BadResponse`.
pub fn parse_api_response(success: bool, status: &str, body: &str) -> (r: Result<
    serde_json::Value,
    AiError,
>)
    ensures
        !success ==> (r matches Err(AiError::Http(m)) && starts_with(m@, http_error_head(status@))),
        !success ==> match json_parsed(body@) {
            Err(_) => r matches Err(AiError::Http(m)) && m@ == http_error_head(status@) + trim(body@),
            Ok(doc) => r matches Err(AiError::Http(m)) && m@ == http_error_head(status@) + api_error_text(doc),
        },
        success ==> match json_parsed(body@) {
            Ok(doc) => r matches Ok(v) && json_nodes(v) == doc,
            Err(e) => bad_response(r, e),
        },
{
    if !success {
        let msg = match parse_json(body) {
            Ok(v) => api_error_msg(&v),
            Err(_) => {
                let c = chars_of(body);
                string_of(trim_chars(c.as_slice()).as_slice())
            },
        };
        let mut m = copy_str("HTTP ");
        m.append(status);
        m.append(": ");
        let ghost head = m@;
        m.append(msg.as_str());
        proof {
            reveal_strlit("HTTP ");
            reveal_strlit(": ");
            assert(head =~= http_error_head(status@));
            assert(m@ =~= head + msg@);
            assert(m@.subrange(0, head.len() as int) =~= head);
        }
        return Err(AiError::Http(m));
    }
    match parse_json(body) {
        Ok(v) => Ok(v),
        Err(e) => Err(AiError::BadResponse(e)),
    }
}

} // verus!
