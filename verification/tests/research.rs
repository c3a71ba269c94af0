use the_light_core::ai::AiError;
use the_light_core::request_json::Json;
use the_light_core::research::{
    research_backend, strip_html, tavily_response, urlencode, wikipedia_response, MockResearchProvider, ResearchBackend,
};

#[test]
fn strip_html_removes_tags() {
    assert_eq!(strip_html("Grace is <span class=\"x\">free</span> favor"), "Grace is free favor");
}

#[test]
fn urlencode_keeps_unreserved_and_encodes_bytes() {
    assert_eq!(urlencode("a b-c_d.e~f"), "a%20b-c_d.e~f");
    assert_eq!(urlencode("graça/1"), "gra%C3%A7a%2F1");
}

#[test]
fn backend_choice_gates_keys() {
    assert!(matches!(research_backend("mock", None, "en"), Ok(ResearchBackend::Mock)));
    match research_backend(" Wiki ", None, "pt") {
        Ok(ResearchBackend::Wikipedia(w)) => assert_eq!(w.lang(), "pt"),
        _ => panic!("expected wikipedia"),
    }
    assert!(matches!(research_backend("tavily", None, "en"), Err(AiError::NoKey(_))));
    match research_backend("tavily", Some("k"), "en") {
        Ok(ResearchBackend::Tavily(t)) => assert_eq!(t.key(), "k"),
        _ => panic!("expected tavily"),
    }
    assert!(matches!(research_backend("bing", None, "en"), Err(AiError::UnknownProvider(_))));
}

#[test]
fn mock_returns_canned_and_respects_limit() {
    let p = MockResearchProvider::canned();
    assert_eq!(p.name(), "mock");
    assert_eq!(p.search("graça", 5).unwrap().len(), 2);
    assert_eq!(p.search("graça", 1).unwrap().len(), 1);
}

#[test]
fn build_provider_resolves_and_gates_keys() {
    assert!(research_backend("mock", None, "en").is_ok());
    assert!(research_backend("wikipedia", None, "pt").is_ok());
    assert!(matches!(research_backend("tavily", None, "en"), Err(AiError::NoKey(_))));
    assert!(research_backend("tavily", Some("k"), "en").is_ok());
    assert!(matches!(research_backend("bing", None, "en"), Err(AiError::UnknownProvider(_))));
}

fn json_doc(text: &str) -> serde_json::Value {
    serde_json::from_str(text).unwrap()
}

#[test]
fn wikipedia_answer_becomes_web_sources() {
    let body = json_doc(
        r#"{"query":{"search":[
            {"title":"Grace (Christianity)","snippet":"<span class=\"searchmatch\">Grace</span> is unmerited favor"},
            {"title":"","snippet":"ignored"},
            {"title":"Agape"}
        ]}}"#,
    );
    let got = the_light_core::research::wikipedia_results(&body, "en", 42);
    assert_eq!(got.len(), 2);
    assert_eq!(got[0].title, "Grace (Christianity)");
    assert_eq!(got[0].url, "https://en.wikipedia.org/wiki/Grace_(Christianity)");
    assert_eq!(got[0].snippet, "Grace is unmerited favor");
    assert_eq!(got[0].site, "en.wikipedia.org");
    assert_eq!(got[0].fetched_at, 42);
    assert_eq!(got[1].title, "Agape");
    assert_eq!(got[1].snippet, "");
    assert!(the_light_core::research::wikipedia_results(&json_doc(r#"{"batch":1}"#), "en", 0).is_empty());
}

#[test]
fn tavily_answer_becomes_web_sources() {
    let body = json_doc(
        r#"{"results":[
            {"url":"https://example.org/grace/page","title":"Grace","content":"unmerited favor"},
            {"url":"","title":"skipped"},
            {"url":"example.org/no-scheme","content":"x"},
            {"url":"https://a.org://b/c"}
        ]}"#,
    );
    let got = the_light_core::research::tavily_results(&body, 7);
    assert_eq!(got.len(), 3);
    assert_eq!(got[0].site, "example.org");
    assert_eq!(got[0].title, "Grace");
    assert_eq!(got[0].snippet, "unmerited favor");
    assert_eq!(got[1].site, "");
    assert_eq!(got[1].title, "(sem título)");
    assert_eq!(got[2].site, "a.org");
    assert_eq!(got[2].fetched_at, 7);
}

#[test]
fn search_requests_keep_the_count_within_one_to_ten() {
    assert_eq!(
        the_light_core::research::wikipedia_search_url("pt", "graça de Deus", 0),
        "https://pt.wikipedia.org/w/api.php?action=query&list=search&srsearch=gra%C3%A7a%20de%20Deus&srlimit=1&format=json"
    );
    assert!(the_light_core::research::wikipedia_search_url("en", "x", 50).contains("&srlimit=10&"));
    match the_light_core::research::tavily_search_body("k", "q", 5) {
        Json::Obj(ps) => {
            let keys: Vec<&str> = ps.iter().map(|(k, _)| k.as_str()).collect();
            assert_eq!(keys, vec!["api_key", "query", "max_results", "search_depth"]);
            assert_eq!(ps[2].1, Json::Num(5));
            assert_eq!(ps[3].1, Json::Str("basic".to_string()));
        }
        other => panic!("unexpected {:?}", other),
    }
}

#[test]
fn search_answers_check_the_status_then_the_json() {
    match wikipedia_response(false, "503 Service Unavailable", "oops", "en", 0) {
        Err(AiError::BadResponse(m)) => assert_eq!(m, "HTTP 503 Service Unavailable"),
        other => panic!("unexpected {:?}", other),
    }
    match tavily_response(false, "401 Unauthorized", "{}", 0) {
        Err(AiError::BadResponse(m)) => assert_eq!(m, "Tavily HTTP 401 Unauthorized"),
        other => panic!("unexpected {:?}", other),
    }
    assert!(matches!(wikipedia_response(true, "200 OK", "not json", "en", 0), Err(AiError::BadResponse(_))));
    let got = wikipedia_response(true, "200 OK", r#"{"query":{"search":[{"title":"Agape","snippet":"love"}]}}"#, "pt", 5).unwrap();
    assert_eq!(got.len(), 1);
    assert_eq!(got[0].url, "https://pt.wikipedia.org/wiki/Agape");
    let t = tavily_response(true, "200 OK", r#"{"results":[{"url":"https://x.org/a","title":"X","content":"c"}]}"#, 9).unwrap();
    assert_eq!(t[0].site, "x.org");
}
