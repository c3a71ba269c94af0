use the_light_core::ai::{
    AiError, ChatMessage, ChatRole, Denomination, LlmProvider, MockLlmProvider, StudyDepth,
    StudyMode,
};
use the_light_core::citation::{Citation, CitationKind};
use the_light_core::model::{Lang, Passage, Reference, TranslationId, Verse, VerseRange};
use the_light_core::study::{
    ask, ask_context, ask_session, numbered_passage, numbered_verses, parse_refinement,
    refine_scope, split_sections, StudyResult, StudySection,
};

fn passage() -> Passage {
    let r = Reference { book: 49, chapter: 2, verses: VerseRange::Range { start: 8, end: 9 } };
    Passage {
        reference: r,
        verses: vec![
            Verse {
                reference: Reference::single(49, 2, 8),
                text: "Porque pela graça sois salvos".to_string(),
                translation: TranslationId::new("alm"),
            },
            Verse {
                reference: Reference::single(49, 2, 9),
                text: "Não vem das obras".to_string(),
                translation: TranslationId::new("alm"),
            },
        ],
    }
}

/// A provider that answers with the contents of the messages it received.
struct EchoProvider;

impl LlmProvider for EchoProvider {
    fn name(&self) -> &str {
        "echo"
    }
    fn model(&self) -> &str {
        "echo-1"
    }
    fn complete(&self, _system: &str, user: &str) -> Result<String, AiError> {
        Ok(user.to_string())
    }
    fn chat(&self, _system: &str, messages: &[ChatMessage]) -> Result<String, AiError> {
        Ok(messages
            .iter()
            .map(|m| format!("[{}] {}", m.role.as_str(), m.content))
            .collect::<Vec<_>>()
            .join("\n---\n"))
    }
}

fn user(c: &str) -> ChatMessage {
    ChatMessage { role: ChatRole::User, content: c.to_string() }
}

fn assistant(c: &str) -> ChatMessage {
    ChatMessage { role: ChatRole::Assistant, content: c.to_string() }
}

#[test]
fn parse_refinement_reads_question_and_options() {
    let raw = "PERGUNTA: Qual o foco?\n- exegese de uma passagem\n- tema geral\n- estudo de palavra\n- estudo de palavra";
    let r = parse_refinement(raw);
    assert_eq!(r.question, "Qual o foco?");
    assert_eq!(r.options.len(), 3, "dedup: {:?}", r.options);
    assert_eq!(r.options[0], "exegese de uma passagem");
    let r2 = parse_refinement("Escolha o ângulo\n* histórico\n* teológico");
    assert_eq!(r2.question, "Escolha o ângulo");
    assert_eq!(r2.options, vec!["histórico", "teológico"]);
}

#[test]
fn split_sections_drops_preamble_and_trims() {
    let raw = "preâmbulo ignorado\n## Um\nlinha a\nlinha b\n\n## Dois\nsó isto\n";
    let s = split_sections(raw);
    assert_eq!(s.len(), 2);
    assert_eq!(s[0].heading, "Um");
    assert_eq!(s[0].body, "linha a\nlinha b");
    assert_eq!(s[1].heading, "Dois");
    assert_eq!(s[1].body, "só isto");
    assert!(split_sections("sem cabeçalho nenhum").is_empty());
}

#[test]
fn ask_returns_provider_answer() {
    let provider = MockLlmProvider::new("Resposta ancorada.");
    let answer = ask(&provider, "O que é graça?", "Ef 2.8 ...", Lang::Pt).unwrap();
    assert_eq!(answer, "Resposta ancorada.");
}

#[test]
fn numbered_verses_and_passage_agree() {
    let expected = "8 Porque pela graça sois salvos\n9 Não vem das obras";
    assert_eq!(numbered_passage(&passage()), expected);
    let from_tuples =
        numbered_verses(&[(8u16, "Porque pela graça sois salvos"), (9, "Não vem das obras")]);
    assert_eq!(from_tuples, expected);
}

#[test]
fn ask_context_assembles_the_rag_block() {
    let numbered = "23 For all have sinned\n24 Being justified";
    let ctx = ask_context("Romans 3", numbered, &["Romans 6:23".to_string()]);
    assert_eq!(
        ctx,
        "Romans 3:\n23 For all have sinned\n24 Being justified\n\nReferências relacionadas: Romans 6:23"
    );
    let empty = ask_context("Romans 3", numbered, &[]);
    assert!(empty.ends_with("Referências relacionadas: (nenhuma)"), "{empty}");
}

#[test]
fn ask_session_wraps_context_only_in_first_user_turn() {
    let turns = [user("q1"), assistant("a1"), user("q2")];
    let out = ask_session(&EchoProvider, Lang::Pt, "CTX-UNICO", &turns, None).unwrap();
    assert_eq!(out.matches("CTX-UNICO").count(), 1, "{out}");
    assert_eq!(out.matches("CONTEXTO").count(), 1, "{out}");
    assert!(out.contains("[user] q2"), "{out}");
    assert!(out.contains("[assistant] a1"), "{out}");
}

#[test]
fn chat_default_impl_folds_history_for_mock() {
    let provider = MockLlmProvider::new("ok");
    let out = provider.chat("sys", &[user("oi"), assistant("olá"), user("e agora?")]).unwrap();
    assert_eq!(out, "ok");
}

#[test]
fn ask_session_leading_assistant_turn_is_kept() {
    let turns = [assistant("boas-vindas"), user("q1"), user("q2")];
    let out = ask_session(
        &EchoProvider,
        Lang::En,
        "CTX",
        &turns,
        Some((StudyMode::Sermon, Denomination::Baptist)),
    )
    .unwrap();
    assert!(out.starts_with("[assistant] boas-vindas\n---\n[user] Pergunta: q1"), "{out}");
    assert!(out.ends_with("[user] q2"), "{out}");
}

#[test]
fn refine_scope_parses_the_reply_and_sends_history() {
    let provider = MockLlmProvider::new("PERGUNTA: Qual livro?\n- Romanos\n- Efésios");
    let r = refine_scope(&provider, StudyMode::Academic, Lang::Pt, "graça", &[], 1).unwrap();
    assert_eq!(r.question, "Qual livro?");
    assert_eq!(r.options, vec!["Romanos", "Efésios"]);
    let prior = [("Qual foco?".to_string(), "exegese".to_string())];
    let echoed = refine_scope(&EchoProvider, StudyMode::Academic, Lang::Pt, "graça", &prior, 3).unwrap();
    assert_eq!(echoed.question, "ASSUNTO DO ESTUDO: graça");
    assert_eq!(echoed.options, vec!["Qual foco? → exegese"]);
}

fn result(sections: Vec<StudySection>, warnings: Vec<String>) -> StudyResult {
    StudyResult {
        reference: passage().reference,
        reference_label: "Efésios 2.8-9".to_string(),
        mode: StudyMode::Academic,
        lens: Denomination::Lutheran,
        depth: StudyDepth::Exegetical,
        language: Lang::Pt,
        passage_text: numbered_passage(&passage()),
        interpretation: "A salvação é dom de Deus (v.8).".to_string(),
        sections,
        warnings,
        citations: Vec::new(),
        provider: "mock".to_string(),
        model: "mock-1".to_string(),
    }
}

#[test]
fn markdown_plain_layout_has_no_mode_line() {
    let md = result(Vec::new(), Vec::new()).to_markdown();
    assert!(md.starts_with("# Estudo — Efésios 2.8-9\n\n- Lente: Luterana\n"));
    assert!(md.contains("## Texto citado\n\n8 Porque pela graça sois salvos"));
    assert!(md.contains("## Interpretação (Luterana)\n\nA salvação é dom de Deus (v.8)."));
    assert!(md.contains("confira sempre as Escrituras"));
    assert!(!md.contains("- Modo:"));
    assert!(!md.contains("Avisos de verificação"));
}

#[test]
fn markdown_sections_layout_and_warnings() {
    let sections = split_sections("## Texto e tradução\nO texto fala da graça.\n\n## Síntese teológica\nA fé é dom.");
    let md = result(sections, vec!["Strong G9999 fora do acervo".to_string()]).to_markdown();
    assert!(md.contains("- Modo: Acadêmico"));
    assert!(md.contains("## Texto e tradução\n\nO texto fala da graça.\n\n## Síntese teológica\n\nA fé é dom.\n\n"));
    assert!(md.ends_with("\n## Avisos de verificação\n\n- Strong G9999 fora do acervo\n"));
}

#[test]
fn academic_markdown_notes_only_cited_keys_and_sorts_bibliography() {
    let mut r = result(
        split_sections("## Análise lexical\nO termo [V:H7225] abre; [V:G9999] não existe."),
        Vec::new(),
    );
    let mut lex = Citation::empty(CitationKind::Lexicon, "H7225");
    lex.author = Some("STEP Bible".to_string());
    lex.title = Some("TBESH".to_string());
    lex.locus = Some("rēʾšît (H7225)".to_string());
    let mut unused = Citation::empty(CitationKind::Lexicon, "G0026");
    unused.author = Some("STEP Bible".to_string());
    let mut b = Citation::empty(CitationKind::Source, "src-b");
    b.title = Some("Zeta".to_string());
    let mut a = Citation::empty(CitationKind::Source, "src-a");
    a.title = Some("Alfa".to_string());
    let a2 = a.duplicate();
    r.citations = vec![lex, unused, b, a, a2];
    let md = r.to_academic_markdown(Lang::Pt);
    assert!(md.starts_with("---\ntitle: \"Estudo Exegético — Efésios 2.8-9\"\nauthor: \"The Light — mock/mock-1\"\nlang: \"pt\"\n---\n\n"));
    assert!(md.contains("O termo [^H7225] abre;  não existe."), "{md}");
    assert!(md.contains("## Notas\n\n[^H7225]: STEP Bible, *TBESH*, s.v. “rēʾšît (H7225)”.\n\n"), "{md}");
    assert!(!md.contains("[^G0026]"));
    assert!(md.contains("## Bibliografia\n\n- *Alfa*.\n- *Zeta*.\n\n"), "{md}");
}
