use the_light_core::providers::{
    anthropic_extract, api_error_msg, gemini_extract, ollama_extract, openai_extract,
    parse_api_response, anthropic_headers, anthropic_stream_delta, gemini_headers, gemini_stream_delta, gemini_url,
    ollama_headers, ollama_stream_delta, ollama_url, openai_headers, openai_stream_delta, sse_data,
    StreamText, ANTHROPIC_URL, DEFAULT_MAX_TOKENS, OLLAMA_DEFAULT_HOST, OPENAI_URL,
};
use the_light_core::ai::AiError;

#[test]
fn transport_data_surface_urls_and_headers() {
    assert_eq!(DEFAULT_MAX_TOKENS, 8192);
    assert_eq!(ANTHROPIC_URL, "https://api.anthropic.com/v1/messages");
    assert_eq!(OPENAI_URL, "https://api.openai.com/v1/chat/completions");
    assert_eq!(OLLAMA_DEFAULT_HOST, "http://localhost:11434");
    assert_eq!(ollama_url("http://h:1/"), "http://h:1/api/chat");
    assert_eq!(
        gemini_url("gemini-2.5-flash", false),
        "https://generativelanguage.googleapis.com/v1beta/models/gemini-2.5-flash:generateContent"
    );
    assert_eq!(
        gemini_url("gemini-2.5-flash", true),
        "https://generativelanguage.googleapis.com/v1beta/models/gemini-2.5-flash:streamGenerateContent?alt=sse"
    );
    assert_eq!(
        anthropic_headers("K", false),
        vec![
            ("x-api-key".to_string(), "K".to_string()),
            ("anthropic-version".to_string(), "2023-06-01".to_string()),
            ("content-type".to_string(), "application/json".to_string()),
        ]
    );
    assert!(anthropic_headers("K", true)
        .iter()
        .any(|(k, v)| k == "anthropic-dangerous-direct-browser-access" && v == "true"));
    assert_eq!(
        openai_headers("K"),
        vec![
            ("authorization".to_string(), "Bearer K".to_string()),
            ("content-type".to_string(), "application/json".to_string()),
        ]
    );
    assert_eq!(ollama_headers(), vec![("content-type".to_string(), "application/json".to_string())]);
    assert_eq!(
        gemini_headers("K"),
        vec![
            ("x-goog-api-key".to_string(), "K".to_string()),
            ("content-type".to_string(), "application/json".to_string()),
        ]
    );
}

/// Reads `body` line by line through `parse`, as a streamed answer is read.
fn run(
    body: &str,
    mut parse: impl FnMut(&str) -> Result<Option<String>, AiError>,
) -> Result<(Vec<String>, String), AiError> {
    let mut deltas: Vec<String> = Vec::new();
    let mut acc = StreamText::new();
    for line in body.lines() {
        if let Some(d) = acc.push(parse(line)?) {
            deltas.push(d);
        }
    }
    let full = acc.finish()?;
    Ok((deltas, full))
}

#[test]
fn ollama_ndjson_deltas_concat_to_full() {
    let body: String = [
        "{\"message\":{\"role\":\"assistant\",\"content\":\"Deus \"},\"done\":false}\n",
        "{\"message\":{\"content\":\"amou \"},\"done\":false}\n",
        "{\"message\":{\"content\":\"o mundo.\"},\"done\":false}\n",
        "{\"message\":{\"content\":\"\"},\"done\":true}\n",
    ].concat();
    let (deltas, full) = run(&body, ollama_stream_delta).unwrap();
    assert_eq!(deltas, ["Deus ", "amou ", "o mundo."]);
    assert_eq!(full, "Deus amou o mundo.");
}

#[test]
fn anthropic_sse_text_deltas_concat_to_full() {
    let body: String = [
        "event: message_start\n",
        "data: {\"type\":\"message_start\"}\n",
        "\n",
        "event: content_block_delta\n",
        "data: {\"type\":\"content_block_delta\",\"delta\":{\"type\":\"text_delta\",\"text\":\"Deus \"}}\n",
        "\n",
        "data: {\"type\":\"content_block_delta\",\"delta\":{\"type\":\"thinking_delta\",\"thinking\":\"...\"}}\n",
        "data: {\"type\":\"content_block_delta\",\"delta\":{\"type\":\"text_delta\",\"text\":\"amou \"}}\n",
        "data: {\"type\":\"content_block_delta\",\"delta\":{\"type\":\"text_delta\",\"text\":\"o mundo.\"}}\n",
        "event: message_stop\n",
        "data: {\"type\":\"message_stop\"}\n",
    ].concat();
    let (deltas, full) = run(&body, |l| match sse_data(l) {
        Some(d) => anthropic_stream_delta(&d),
        None => Ok(None),
    })
    .unwrap();
    assert_eq!(deltas, ["Deus ", "amou ", "o mundo."]);
    assert_eq!(full, "Deus amou o mundo.");
}

#[test]
fn openai_sse_deltas_concat_and_done_ignored() {
    let body: String = [
        "data: {\"choices\":[{\"delta\":{\"content\":\"Deus \"}}]}\n",
        "data: {\"choices\":[{\"delta\":{\"content\":\"amou \"}}]}\n",
        "data: {\"choices\":[{\"delta\":{\"content\":\"o mundo.\"}}]}\n",
        "data: [DONE]\n",
    ].concat();
    let (deltas, full) = run(&body, |l| match sse_data(l) {
        Some(d) => openai_stream_delta(&d),
        None => Ok(None),
    })
    .unwrap();
    assert_eq!(deltas, ["Deus ", "amou ", "o mundo."]);
    assert_eq!(full, "Deus amou o mundo.");
}

#[test]
fn gemini_sse_parts_concat_to_full() {
    let body: String = [
        "data: {\"candidates\":[{\"content\":{\"parts\":[{\"text\":\"Deus \"}]}}]}\n",
        "\n",
        "data: {\"candidates\":[{\"content\":{\"parts\":[{\"text\":\"amou \"}]}}]}\n",
        "data: {\"candidates\":[{\"content\":{\"parts\":[{\"text\":\"o mundo.\"}]}}]}\n",
    ].concat();
    let (deltas, full) = run(&body, |l| match sse_data(l) {
        Some(d) => gemini_stream_delta(&d),
        None => Ok(None),
    })
    .unwrap();
    assert_eq!(deltas, ["Deus ", "amou ", "o mundo."]);
    assert_eq!(full, "Deus amou o mundo.");
}

#[test]
fn refusal_block_and_error_frames_are_errors() {
    let refusal = "{\"type\":\"message_delta\",\"delta\":{\"stop_reason\":\"refusal\"}}";
    assert!(matches!(anthropic_stream_delta(refusal), Err(AiError::BadResponse(_))));
    let blocked = "{\"promptFeedback\":{\"blockReason\":\"SAFETY\"}}";
    match gemini_stream_delta(blocked) {
        Err(AiError::BadResponse(m)) => assert_eq!(m, "resposta bloqueada pelo provedor: SAFETY"),
        other => panic!("{other:?}"),
    }
    match openai_stream_delta("{\"error\":{\"message\":\"rate limit\",\"type\":\"x\"}}") {
        Err(AiError::Http(m)) => assert_eq!(m, "rate limit"),
        other => panic!("{other:?}"),
    }
    match ollama_stream_delta("{\"error\":\"model not found\"}") {
        Err(AiError::Http(m)) => assert_eq!(m, "model not found"),
        other => panic!("{other:?}"),
    }
}

#[test]
fn empty_stream_is_an_error_and_sse_ignores_other_lines() {
    assert!(matches!(run("\n\n", ollama_stream_delta), Err(AiError::BadResponse(_))));
    assert_eq!(sse_data("event: x"), None);
    assert_eq!(sse_data("data:  {\"a\":1} ").as_deref(), Some("{\"a\":1}"));
    assert_eq!(ollama_url("http://h:1///"), "http://h:1/api/chat");
}

fn json(text: &str) -> serde_json::Value {
    serde_json::from_str(text).unwrap()
}

#[test]
fn anthropic_extract_concats_text_blocks_only() {
    let v = json(
        r#"{"stop_reason": "end_turn", "content": [
            {"type": "thinking", "thinking": ""},
            {"type": "text", "text": "Parte 1. "},
            {"type": "text", "text": "Parte 2."}
        ]}"#,
    );
    assert_eq!(anthropic_extract(&v).unwrap(), "Parte 1. Parte 2.");
}

#[test]
fn anthropic_extract_handles_refusal() {
    let v = json(r#"{"stop_reason": "refusal", "content": []}"#);
    assert!(anthropic_extract(&v).is_err());
}

#[test]
fn openai_and_ollama_extract() {
    let o = json(r#"{"choices": [{"message": {"content": "Resposta OpenAI"}}]}"#);
    assert_eq!(openai_extract(&o).unwrap(), "Resposta OpenAI");
    let l = json(r#"{"message": {"content": "Resposta Ollama"}}"#);
    assert_eq!(ollama_extract(&l).unwrap(), "Resposta Ollama");
}

#[test]
fn gemini_extract_concats_parts() {
    let v = json(
        r#"{"candidates": [{"content": {"role": "model", "parts": [
            {"text": "Parte 1. "}, {"text": "Parte 2."}
        ]}}]}"#,
    );
    assert_eq!(gemini_extract(&v).unwrap(), "Parte 1. Parte 2.");
}

#[test]
fn gemini_extract_errors_without_candidates() {
    let v = json(r#"{"usageMetadata": {}}"#);
    assert!(gemini_extract(&v).is_err());
    let empty = json(r#"{"candidates": []}"#);
    assert!(gemini_extract(&empty).is_err());
    let blocked = json(r#"{"promptFeedback": {"blockReason": "SAFETY"}}"#);
    let msg = gemini_extract(&blocked).unwrap_err().message();
    assert!(msg.contains("SAFETY"), "{msg}");
}

#[test]
fn parse_api_response_checks_status_before_json() {
    let ok = parse_api_response(true, "200", r#"{"a":1}"#).unwrap();
    assert_eq!(ok["a"], 1);
    let e = parse_api_response(false, "401", r#"{"error":{"message":"invalid x-api-key"}}"#)
        .unwrap_err()
        .message();
    assert!(e.contains("401") && e.contains("invalid x-api-key"), "{e}");
    let e = parse_api_response(false, "502", "Bad Gateway").unwrap_err().message();
    assert!(e.contains("502") && e.contains("Bad Gateway"), "{e}");
    assert!(matches!(
        parse_api_response(true, "200", "not json"),
        Err(AiError::BadResponse(_))
    ));
}

#[test]
fn api_error_msg_extracts_message() {
    let v = json(r#"{"error": {"message": "chave inválida"}}"#);
    assert_eq!(api_error_msg(&v), "chave inválida");
    let v2 = json(r#"{"error": "string simples"}"#);
    assert_eq!(api_error_msg(&v2), "string simples");
}

#[test]
fn extractors_refuse_blank_answers() {
    let blank = json(r#"{"message": {"content": "  \n "}}"#);
    match ollama_extract(&blank) {
        Err(AiError::BadResponse(m)) => assert_eq!(m, "resposta de texto vazia"),
        other => panic!("{other:?}"),
    }
    let no_content = json(r#"{"stop_reason": "end_turn"}"#);
    assert!(matches!(anthropic_extract(&no_content), Err(AiError::BadResponse(_))));
    match parse_api_response(false, "500", "  down  ") {
        Err(AiError::Http(m)) => assert_eq!(m, "HTTP 500: down"),
        other => panic!("{other:?}"),
    }
}

fn sse(parse: fn(&str) -> Result<Option<String>, AiError>) -> impl FnMut(&str) -> Result<Option<String>, AiError> {
    move |l: &str| match sse_data(l) {
        Some(d) => parse(&d),
        None => Ok(None),
    }
}

#[test]
fn anthropic_refusal_in_stream_is_error() {
    let body = "data: {\"type\":\"message_delta\",\"delta\":{\"stop_reason\":\"refusal\"}}\n";
    let err = run(body, sse(anthropic_stream_delta));
    assert!(matches!(err, Err(AiError::BadResponse(_))));
}

#[test]
fn gemini_block_reason_in_stream_is_error() {
    let body = "data: {\"promptFeedback\":{\"blockReason\":\"SAFETY\"}}\n";
    let err = run(body, sse(gemini_stream_delta));
    assert!(matches!(err, Err(AiError::BadResponse(_))));
}

#[test]
fn anthropic_error_event_in_stream_aborts_not_truncates() {
    let body: String = [
        "data: {\"type\":\"content_block_delta\",\"delta\":{\"type\":\"text_delta\",\"text\":\"Deus \"}}\n",
        "event: error\n",
        "data: {\"type\":\"error\",\"error\":{\"type\":\"overloaded_error\",\"message\":\"Overloaded\"}}\n",
    ]
    .concat();
    match run(&body, sse(anthropic_stream_delta)) {
        Err(AiError::Http(m)) => assert!(m.contains("Overloaded"), "{m}"),
        other => panic!("esperava Err(Http), veio {other:?}"),
    }
}

#[test]
fn openai_error_frame_in_stream_is_http_error() {
    let body = "data: {\"error\":{\"message\":\"rate limit\",\"type\":\"rate_limit_error\"}}\n";
    match run(body, sse(openai_stream_delta)) {
        Err(AiError::Http(m)) => assert!(m.contains("rate limit"), "{m}"),
        other => panic!("esperava Err(Http), veio {other:?}"),
    }
}

#[test]
fn gemini_error_frame_in_stream_is_http_error() {
    let body =
        "data: {\"error\":{\"code\":429,\"message\":\"RESOURCE_EXHAUSTED\",\"status\":\"RESOURCE_EXHAUSTED\"}}\n";
    match run(body, sse(gemini_stream_delta)) {
        Err(AiError::Http(m)) => assert!(m.contains("RESOURCE_EXHAUSTED"), "{m}"),
        other => panic!("esperava Err(Http), veio {other:?}"),
    }
}

#[test]
fn ollama_error_line_in_stream_is_http_error() {
    let body: String = [
        "{\"message\":{\"content\":\"Deus \"},\"done\":false}\n",
        "{\"error\":\"model not found\"}\n",
    ]
    .concat();
    match run(&body, ollama_stream_delta) {
        Err(AiError::Http(m)) => assert!(m.contains("model not found"), "{m}"),
        other => panic!("esperava Err(Http), veio {other:?}"),
    }
}

#[test]
fn api_error_msg_falls_back_to_the_compact_json() {
    let v = json(r#"{ "error": { "code": 42 },  "status": "bad" }"#);
    assert_eq!(api_error_msg(&v), r#"{"error":{"code":42},"status":"bad"}"#);
    match parse_api_response(false, "400", r#"{"detail": "no"}"#) {
        Err(AiError::Http(m)) => assert_eq!(m, r#"HTTP 400: {"detail":"no"}"#),
        other => panic!("unexpected {:?}", other),
    }
}

