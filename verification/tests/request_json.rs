use serde_json::Value;
use the_light_core::ai::{ChatMessage, ChatRole};
use the_light_core::request_json::{
    anthropic_body, anthropic_chat_body, gemini_body, gemini_chat_body, messages_json, ollama_body,
    ollama_chat_body, openai_body, openai_chat_body, with_stream, Json,
};

fn to_value(j: &Json) -> Value {
    match j {
        Json::Str(s) => Value::String(s.clone()),
        Json::Num(n) => Value::from(*n),
        Json::Bool(b) => Value::Bool(*b),
        Json::Arr(v) => Value::Array(v.iter().map(to_value).collect()),
        Json::Obj(ps) => {
            let mut m = serde_json::Map::new();
            for (k, v) in ps {
                m.insert(k.clone(), to_value(v));
            }
            Value::Object(m)
        }
    }
}

fn conversation() -> Vec<ChatMessage> {
    vec![
        ChatMessage { role: ChatRole::User, content: "oi".into() },
        ChatMessage { role: ChatRole::Assistant, content: "olá".into() },
    ]
}

#[test]
fn anthropic_body_shape() {
    let b = to_value(&anthropic_body("opus-4-8", "sys", "usr", 4096));
    assert_eq!(b["model"], "opus-4-8");
    assert_eq!(b["system"], "sys");
    assert_eq!(b["max_tokens"], 4096);
    assert_eq!(b["thinking"]["type"], "adaptive");
    assert_eq!(b["messages"][0]["role"], "user");
    assert_eq!(b["messages"][0]["content"], "usr");
}

#[test]
fn body_builders_for_openai_and_ollama() {
    let o = to_value(&openai_body("gpt-4o", "s", "u", 100));
    assert_eq!(o["messages"][0]["role"], "system");
    assert_eq!(o["messages"][1]["content"], "u");
    let l = to_value(&ollama_body("llama3", "s", "u"));
    assert_eq!(l["stream"], false);
    assert_eq!(l["model"], "llama3");
}

#[test]
fn gemini_body_shape() {
    let b = to_value(&gemini_body("gemini-2.0-flash", "sys", "usr", 4096));
    assert!(b.get("model").is_none());
    assert_eq!(b["contents"][0]["role"], "user");
    assert_eq!(b["contents"][0]["parts"][0]["text"], "usr");
    assert_eq!(b["system_instruction"]["parts"][0]["text"], "sys");
    assert_eq!(b["generationConfig"]["maxOutputTokens"], 4096);
}

#[test]
fn gemini_chat_body_maps_assistant_to_model_role() {
    let b = to_value(&gemini_chat_body("gemini-2.0-flash", "sys", &conversation(), 100));
    assert_eq!(b["contents"][0]["role"], "user");
    assert_eq!(b["contents"][1]["role"], "model");
    assert_eq!(b["contents"][1]["parts"][0]["text"], "olá");
    assert_eq!(b["system_instruction"]["parts"][0]["text"], "sys");
}

#[test]
fn with_stream_sets_flag_true() {
    let b = to_value(&with_stream(ollama_body("llama3", "sys", "user")));
    assert_eq!(b.pointer("/stream"), Some(&Value::Bool(true)));
}

#[test]
fn with_stream_adds_the_flag_and_keeps_the_rest() {
    let plain = to_value(&openai_body("gpt-4o", "s", "u", 100));
    let streamed = to_value(&with_stream(openai_body("gpt-4o", "s", "u", 100)));
    assert_eq!(streamed["stream"], true);
    let mut expected = plain.clone();
    expected.as_object_mut().unwrap().insert("stream".into(), Value::Bool(true));
    assert_eq!(streamed, expected);
    assert_eq!(with_stream(Json::Num(7)), Json::Num(7));
}

#[test]
fn chat_bodies_put_the_system_prompt_first_and_keep_the_turns() {
    let msgs = conversation();
    let o = to_value(&openai_chat_body("gpt-4o", "s", &msgs, 50));
    assert_eq!(o["messages"].as_array().unwrap().len(), 3);
    assert_eq!(o["messages"][0]["content"], "s");
    assert_eq!(o["messages"][2]["role"], "assistant");
    assert_eq!(o["max_tokens"], 50);
    let l = to_value(&ollama_chat_body("llama3", "s", &msgs));
    assert_eq!(l["messages"][1]["content"], "oi");
    assert_eq!(l["stream"], false);
    let a = to_value(&anthropic_chat_body("m", "s", &msgs, 10));
    assert_eq!(a["system"], "s");
    assert_eq!(a["messages"].as_array().unwrap().len(), 2);
    assert_eq!(a["messages"][1]["role"], "assistant");
    let js: Vec<Value> = messages_json(&msgs).iter().map(to_value).collect();
    assert_eq!(js.len(), 2);
    assert_eq!(js[0]["role"], "user");
    assert_eq!(js[0]["content"], "oi");
    assert_eq!(js[0].as_object().unwrap().len(), 2);
}
