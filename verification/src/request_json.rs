//! The JSON bodies of the providers' requests, built as a tree of the
//! library's own (`Json`); the HTTP layer turns it into the wire format.
use vstd::prelude::*;

use crate::ai::{ChatMessage, ChatRole};
use crate::text::{copy_str, str_eq};

verus! {

/// A JSON value built by the library: objects keep their keys in order.
#[derive(Debug, PartialEq, Eq)]
pub enum Json {
    Str(String),
    Num(u64),
    Bool(bool),
    Arr(Vec<Json>),
    Obj(Vec<(String, Json)>),
}

/// Abstract JSON value.
pub enum JsonView {
    Str(Seq<char>),
    Num(u64),
    Bool(bool),
    Arr(Seq<JsonView>),
    Obj(Seq<(Seq<char>, JsonView)>),
}

/// The abstract value of a `Json`.
pub open spec fn json_view(j: Json) -> JsonView
    decreases j,
{
    match j {
        Json::Str(s) => JsonView::Str(s@),
        Json::Num(n) => JsonView::Num(n),
        Json::Bool(b) => JsonView::Bool(b),
        Json::Arr(v) => JsonView::Arr(
            Seq::new(
                v@.len(),
                |i: int|
                    if 0 <= i < v@.len() {
                        json_view(v@[i])
                    } else {
                        JsonView::Bool(false)
                    },
            ),
        ),
        Json::Obj(v) => JsonView::Obj(
            Seq::new(
                v@.len(),
                |i: int|
                    if 0 <= i < v@.len() {
                        (v@[i].0@, json_view(v@[i].1))
                    } else {
                        (Seq::empty(), JsonView::Bool(false))
                    },
            ),
        ),
    }
}

/// The abstract values of a sequence of `Json`.
pub open spec fn views(s: Seq<Json>) -> Seq<JsonView> {
    Seq::new(s.len(), |i: int| json_view(s[i]))
}

/// The abstract members of an object.
pub open spec fn pairs_view(s: Seq<(String, Json)>) -> Seq<(Seq<char>, JsonView)> {
    Seq::new(s.len(), |i: int| (s[i].0@, json_view(s[i].1)))
}

pub(crate) fn jstr(s: &str) -> (r: Json)
    ensures
        json_view(r) == JsonView::Str(s@),
{
    Json::Str(copy_str(s))
}

fn arr(v: Vec<Json>) -> (r: Json)
    ensures
        json_view(r) == JsonView::Arr(views(v@)),
{
    let ghost vv = v@;
    let r = Json::Arr(v);
    assert(json_view(r)->Arr_0 =~= views(vv));
    r
}

pub(crate) fn obj(v: Vec<(String, Json)>) -> (r: Json)
    ensures
        json_view(r) == JsonView::Obj(pairs_view(v@)),
{
    let ghost vv = v@;
    let r = Json::Obj(v);
    assert(json_view(r)->Obj_0 =~= pairs_view(vv));
    r
}

/// The object with the single member `k: v`.
fn member(k: &str, v: Json) -> (r: Json)
    ensures
        json_view(r) == JsonView::Obj(seq![(k@, json_view(v))]),
{
    let ghost jv = json_view(v);
    let ps = vec![(copy_str(k), v)];
    assert(pairs_view(ps@) =~= seq![(k@, jv)]);
    obj(ps)
}

/// `{"role": role, "content": content}`.
pub open spec fn message_spec(role: Seq<char>, content: Seq<char>) -> JsonView {
    JsonView::Obj(seq![("role"@, JsonView::Str(role)), ("content"@, JsonView::Str(content))])
}

/// The API name of a chat role.
pub open spec fn role_text(r: ChatRole) -> Seq<char> {
    match r {
        ChatRole::User => "user"@,
        ChatRole::Assistant => "assistant"@,
    }
}

/// The conversation as the `messages` array of the APIs.
pub open spec fn messages_spec(ms: Seq<ChatMessage>) -> Seq<JsonView> {
    Seq::new(ms.len(), |i: int| message_spec(role_text(ms[i].role), ms[i].content@))
}

fn message(role: &str, content: &str) -> (r: Json)
    ensures
        json_view(r) == message_spec(role@, content@),
{
    let a = jstr(role);
    let b = jstr(content);
    let ghost (av, bv) = (json_view(a), json_view(b));
    let ps = vec![(copy_str("role"), a), (copy_str("content"), b)];
    proof {
        reveal_strlit("role");
        reveal_strlit("content");
    }
    assert(pairs_view(ps@) =~= seq![("role"@, av), ("content"@, bv)]);
    obj(ps)
}

/// Converts the conversation into the `[{role, content}]` array of the APIs.
pub fn messages_json(messages: &[ChatMessage]) -> (r: Vec<Json>)
    ensures
        views(r@) == messages_spec(messages@),
{
    let mut out: Vec<Json> = Vec::new();
    let mut i: usize = 0;
    while i < messages.len()
        invariant
            i <= messages.len(),
            views(out@) == messages_spec(messages@.take(i as int)),
        decreases messages.len() - i,
    {
        let m = &messages[i];
        let j = message(m.role.as_str(), m.content.as_str());
        let ghost before = out@;
        out.push(j);
        assert(views(out@) =~= views(before).push(json_view(j)));
        assert(messages_spec(messages@.take((i + 1) as int)) =~= messages_spec(messages@.take(i as int)).push(
            message_spec(role_text(messages@[i as int].role), messages@[i as int].content@),
        ));
        i = i + 1;
    }
    assert(messages@.take(i as int) =~= messages@);
    out
}

/// The Anthropic Messages body: model, token limit, system prompt, adaptive
/// thinking and the messages.
pub open spec fn anthropic_shape(model: Seq<char>, system: Seq<char>, msgs: Seq<JsonView>, max_tokens: u32) -> JsonView {
    JsonView::Obj(
        seq![
            ("model"@, JsonView::Str(model)),
            ("max_tokens"@, JsonView::Num(max_tokens as u64)),
            ("system"@, JsonView::Str(system)),
            ("thinking"@, JsonView::Obj(seq![("type"@, JsonView::Str("adaptive"@))])),
            ("messages"@, JsonView::Arr(msgs)),
        ],
    )
}

/// The OpenAI chat body: the system prompt opens the messages.
pub open spec fn openai_shape(model: Seq<char>, system: Seq<char>, msgs: Seq<JsonView>, max_tokens: u32) -> JsonView {
    JsonView::Obj(
        seq![
            ("model"@, JsonView::Str(model)),
            ("max_tokens"@, JsonView::Num(max_tokens as u64)),
            ("messages"@, JsonView::Arr(seq![message_spec("system"@, system)] + msgs)),
        ],
    )
}

/// The Ollama chat body: not streamed, the system prompt opens the messages.
pub open spec fn ollama_shape(model: Seq<char>, system: Seq<char>, msgs: Seq<JsonView>) -> JsonView {
    JsonView::Obj(
        seq![
            ("model"@, JsonView::Str(model)),
            ("stream"@, JsonView::Bool(false)),
            ("messages"@, JsonView::Arr(seq![message_spec("system"@, system)] + msgs)),
        ],
    )
}

/// One Gemini turn: `{"role": role, "parts": [{"text": text}]}`.
pub open spec fn gemini_turn(role: Seq<char>, text: Seq<char>) -> JsonView {
    JsonView::Obj(
        seq![
            ("role"@, JsonView::Str(role)),
            ("parts"@, JsonView::Arr(seq![JsonView::Obj(seq![("text"@, JsonView::Str(text))])])),
        ],
    )
}

/// The Gemini role of a chat role: the assistant is `model`.
pub open spec fn gemini_role(r: ChatRole) -> Seq<char> {
    match r {
        ChatRole::User => "user"@,
        ChatRole::Assistant => "model"@,
    }
}

/// The conversation as Gemini `contents`.
pub open spec fn gemini_turns(ms: Seq<ChatMessage>) -> Seq<JsonView> {
    Seq::new(ms.len(), |i: int| gemini_turn(gemini_role(ms[i].role), ms[i].content@))
}

/// The Gemini `generateContent` body (the model goes in the URL, not here).
pub open spec fn gemini_shape(system: Seq<char>, contents: Seq<JsonView>, max_tokens: u32) -> JsonView {
    JsonView::Obj(
        seq![
            ("contents"@, JsonView::Arr(contents)),
            (
                "system_instruction"@,
                JsonView::Obj(
                    seq![("parts"@, JsonView::Arr(seq![JsonView::Obj(seq![("text"@, JsonView::Str(system))])]))],
                ),
            ),
            ("generationConfig"@, JsonView::Obj(seq![("maxOutputTokens"@, JsonView::Num(max_tokens as u64))])),
        ],
    )
}

fn anthropic_build(model: &str, system: &str, msgs: Vec<Json>, max_tokens: u32) -> (r: Json)
    ensures
        json_view(r) == anthropic_shape(model@, system@, views(msgs@), max_tokens),
{
    proof {
        reveal_strlit("type");
    }
    let thinking = member("type", jstr("adaptive"));
    let m = arr(msgs);
    let a = jstr(model);
    let b = jstr(system);
    let ghost (av, bv, tv, mv) = (json_view(a), json_view(b), json_view(thinking), json_view(m));
    let ps = vec![
        (copy_str("model"), a),
        (copy_str("max_tokens"), Json::Num(max_tokens as u64)),
        (copy_str("system"), b),
        (copy_str("thinking"), thinking),
        (copy_str("messages"), m),
    ];
    assert(pairs_view(ps@) =~= seq![
        ("model"@, av),
        ("max_tokens"@, JsonView::Num(max_tokens as u64)),
        ("system"@, bv),
        ("thinking"@, tv),
        ("messages"@, mv),
    ]);
    obj(ps)
}

/// Anthropic Messages body of a single question.
pub fn anthropic_body(model: &str, system: &str, user: &str, max_tokens: u32) -> (r: Json)
    ensures
        json_view(r) == anthropic_shape(model@, system@, seq![message_spec("user"@, user@)], max_tokens),
{
    let u = message("user", user);
    let ghost uv = json_view(u);
    let v = vec![u];
    assert(views(v@) =~= seq![uv]);
    anthropic_build(model, system, v, max_tokens)
}

/// Anthropic Messages body of a conversation.
pub fn anthropic_chat_body(model: &str, system: &str, messages: &[ChatMessage], max_tokens: u32) -> (r: Json)
    ensures
        json_view(r) == anthropic_shape(model@, system@, messages_spec(messages@), max_tokens),
{
    anthropic_build(model, system, messages_json(messages), max_tokens)
}

/// The system message followed by `rest`.
fn with_system(system: &str, rest: Vec<Json>) -> (r: Json)
    ensures
        json_view(r) == JsonView::Arr(seq![message_spec("system"@, system@)] + views(rest@)),
{
    let s = message("system", system);
    let ghost sv = json_view(s);
    let ghost rv = views(rest@);
    let mut v = vec![s];
    let mut rest = rest;
    v.append(&mut rest);
    assert(views(v@) =~= seq![sv] + rv);
    arr(v)
}

fn openai_build(model: &str, system: &str, msgs: Vec<Json>, max_tokens: u32) -> (r: Json)
    ensures
        json_view(r) == openai_shape(model@, system@, views(msgs@), max_tokens),
{
    let a = jstr(model);
    let m = with_system(system, msgs);
    let ghost (av, mv) = (json_view(a), json_view(m));
    let ps = vec![
        (copy_str("model"), a),
        (copy_str("max_tokens"), Json::Num(max_tokens as u64)),
        (copy_str("messages"), m),
    ];
    assert(pairs_view(ps@) =~= seq![
        ("model"@, av),
        ("max_tokens"@, JsonView::Num(max_tokens as u64)),
        ("messages"@, mv),
    ]);
    obj(ps)
}

/// OpenAI chat body of a single question.
pub fn openai_body(model: &str, system: &str, user: &str, max_tokens: u32) -> (r: Json)
    ensures
        json_view(r) == openai_shape(model@, system@, seq![message_spec("user"@, user@)], max_tokens),
{
    let u = message("user", user);
    let ghost uv = json_view(u);
    let v = vec![u];
    assert(views(v@) =~= seq![uv]);
    openai_build(model, system, v, max_tokens)
}

/// OpenAI chat body of a conversation.
pub fn openai_chat_body(model: &str, system: &str, messages: &[ChatMessage], max_tokens: u32) -> (r: Json)
    ensures
        json_view(r) == openai_shape(model@, system@, messages_spec(messages@), max_tokens),
{
    openai_build(model, system, messages_json(messages), max_tokens)
}

fn ollama_build(model: &str, system: &str, msgs: Vec<Json>) -> (r: Json)
    ensures
        json_view(r) == ollama_shape(model@, system@, views(msgs@)),
{
    let a = jstr(model);
    let m = with_system(system, msgs);
    let ghost (av, mv) = (json_view(a), json_view(m));
    let ps = vec![
        (copy_str("model"), a),
        (copy_str("stream"), Json::Bool(false)),
        (copy_str("messages"), m),
    ];
    assert(pairs_view(ps@) =~= seq![("model"@, av), ("stream"@, JsonView::Bool(false)), ("messages"@, mv)]);
    obj(ps)
}

/// Ollama chat body of a single question.
pub fn ollama_body(model: &str, system: &str, user: &str) -> (r: Json)
    ensures
        json_view(r) == ollama_shape(model@, system@, seq![message_spec("user"@, user@)]),
{
    let u = message("user", user);
    let ghost uv = json_view(u);
    let v = vec![u];
    assert(views(v@) =~= seq![uv]);
    ollama_build(model, system, v)
}

/// Ollama chat body of a conversation.
pub fn ollama_chat_body(model: &str, system: &str, messages: &[ChatMessage]) -> (r: Json)
    ensures
        json_view(r) == ollama_shape(model@, system@, messages_spec(messages@)),
{
    ollama_build(model, system, messages_json(messages))
}

fn gemini_part(role: &str, text: &str) -> (r: Json)
    ensures
        json_view(r) == gemini_turn(role@, text@),
{
    proof {
        reveal_strlit("text");
    }
    let part = member("text", jstr(text));
    let ghost pv = json_view(part);
    let pv_vec = vec![part];
    assert(views(pv_vec@) =~= seq![pv]);
    let parts = arr(pv_vec);
    let r0 = jstr(role);
    let ghost (rv, av) = (json_view(r0), json_view(parts));
    let ps = vec![(copy_str("role"), r0), (copy_str("parts"), parts)];
    assert(pairs_view(ps@) =~= seq![("role"@, rv), ("parts"@, av)]);
    obj(ps)
}

fn gemini_build(system: &str, contents: Vec<Json>, max_tokens: u32) -> (r: Json)
    ensures
        json_view(r) == gemini_shape(system@, views(contents@), max_tokens),
{
    proof {
        reveal_strlit("text");
        reveal_strlit("parts");
        reveal_strlit("maxOutputTokens");
    }
    let sys_part = member("text", jstr(system));
    let ghost sp = json_view(sys_part);
    let sv = vec![sys_part];
    assert(views(sv@) =~= seq![sp]);
    let instruction = member("parts", arr(sv));
    let config = member("maxOutputTokens", Json::Num(max_tokens as u64));
    let c = arr(contents);
    let ghost (cv, iv, gv) = (json_view(c), json_view(instruction), json_view(config));
    let ps = vec![
        (copy_str("contents"), c),
        (copy_str("system_instruction"), instruction),
        (copy_str("generationConfig"), config),
    ];
    assert(pairs_view(ps@) =~= seq![("contents"@, cv), ("system_instruction"@, iv), ("generationConfig"@, gv)]);
    obj(ps)
}

/// Gemini `generateContent` body of a single question; the model is not
/// part of the body (it goes in the URL).
pub fn gemini_body(_model: &str, system: &str, user: &str, max_tokens: u32) -> (r: Json)
    ensures
        json_view(r) == gemini_shape(system@, seq![gemini_turn("user"@, user@)], max_tokens),
{
    let u = gemini_part("user", user);
    let ghost uv = json_view(u);
    let v = vec![u];
    assert(views(v@) =~= seq![uv]);
    gemini_build(system, v, max_tokens)
}

/// Gemini `generateContent` body of a conversation: the assistant's turns
/// take the role `model`; the model itself is not part of the body.
pub fn gemini_chat_body(_model: &str, system: &str, messages: &[ChatMessage], max_tokens: u32) -> (r: Json)
    ensures
        json_view(r) == gemini_shape(system@, gemini_turns(messages@), max_tokens),
{
    let mut out: Vec<Json> = Vec::new();
    let mut i: usize = 0;
    while i < messages.len()
        invariant
            i <= messages.len(),
            views(out@) == gemini_turns(messages@.take(i as int)),
        decreases messages.len() - i,
    {
        let m = &messages[i];
        let role = match m.role {
            ChatRole::User => "user",
            ChatRole::Assistant => "model",
        };
        proof {
            reveal_strlit("user");
            reveal_strlit("model");
        }
        let j = gemini_part(role, m.content.as_str());
        let ghost before = out@;
        out.push(j);
        assert(views(out@) =~= views(before).push(json_view(j)));
        assert(gemini_turns(messages@.take((i + 1) as int)) =~= gemini_turns(messages@.take(i as int)).push(
            gemini_turn(gemini_role(messages@[i as int].role), messages@[i as int].content@),
        ));
        i = i + 1;
    }
    assert(messages@.take(i as int) =~= messages@);
    gemini_build(system, out, max_tokens)
}

/// The members with `k` set to `v`: the first member named `k` takes the
/// new value, else the member is added at the end.
pub open spec fn put_member(ps: Seq<(Seq<char>, JsonView)>, k: Seq<char>, v: JsonView) -> Seq<(Seq<char>, JsonView)> {
    if exists|i: int| 0 <= i < ps.len() && ps[i].0 == k {
        let i = choose|i: int| 0 <= i < ps.len() && ps[i].0 == k && forall|j: int| 0 <= j < i ==> ps[j].0 != k;
        ps.update(i, (k, v))
    } else {
        ps.push((k, v))
    }
}

/// A body with `"stream": true`; a value that is not an object is left as it is.
pub open spec fn with_stream_spec(b: JsonView) -> JsonView {
    match b {
        JsonView::Obj(ps) => JsonView::Obj(put_member(ps, "stream"@, JsonView::Bool(true))),
        _ => b,
    }
}

/// Sets `"stream": true` on a request body (replacing the value where the
/// key is already there, as in the Ollama body), so the streamed request
/// reuses the body of the plain one.
pub fn with_stream(body: Json) -> (r: Json)
    ensures
        json_view(r) == with_stream_spec(json_view(body)),
{
    match body {
        Json::Obj(ps) => {
            let ghost pv = pairs_view(ps@);
            let ghost k = "stream"@;
            proof {
                assert(json_view(Json::Obj(ps))->Obj_0 =~= pv);
            }
            let mut ps = ps;
            let mut i: usize = 0;
            let mut found = false;
            while i < ps.len() && !found
                invariant
                    i <= ps.len(),
                    pv == pairs_view(ps@),
                    k == "stream"@,
                    forall|j: int| 0 <= j < i ==> pv[j].0 != k,
                    found ==> i < ps.len() && pv[i as int].0 == k,
                decreases ps.len() - i + (if found { 0int } else { 1int }),
            {
                assert(pv[i as int].0 == ps@[i as int].0@);
                if str_eq(ps[i].0.as_str(), "stream") {
                    found = true;
                } else {
                    i = i + 1;
                }
            }
            if found {
                assert(pv[i as int].0 == k);
                let ghost c = choose|c: int| 0 <= c < pv.len() && pv[c].0 == k && forall|j: int| 0 <= j < c ==> pv[j].0 != k;
                assert(0 <= c < pv.len() && pv[c].0 == k && forall|j: int| 0 <= j < c ==> pv[j].0 != k);
                assert(c == i) by {
                    if c < i {
                        assert(pv[c].0 != k);
                    } else if c > i {
                        assert(pv[i as int].0 != k);
                    }
                }
                ps.set(i, (copy_str("stream"), Json::Bool(true)));
                let r = obj(ps);
                assert(pairs_view(ps@) =~= put_member(pv, k, JsonView::Bool(true)));
                r
            } else {
                ps.push((copy_str("stream"), Json::Bool(true)));
                let r = obj(ps);
                assert(pairs_view(ps@) =~= put_member(pv, k, JsonView::Bool(true)));
                r
            }
        },
        other => other,
    }
}

} // verus!
