use the_light_core::ai::{
    AiError, ChatMessage, Denomination, LlmProvider, MockLlmProvider, StudyDepth, StudyMode,
};
use the_light_core::lexicon::{LexicalEntry, VerifiedLexicon};
use the_light_core::model::{Lang, Passage, Reference, TranslationId, Verse, VerseRange};
use the_light_core::citation::CitationKind;
use the_light_core::research::MockResearchProvider;
use the_light_core::study_request::{cited_web_indices, study, user_prompt, StudyRequest};

fn passage() -> Passage {
    let r = Reference { book: 49, chapter: 2, verses: VerseRange::Range { start: 8, end: 9 } };
    Passage {
        reference: r,
        verses: vec![
            Verse {
                reference: Reference::single(49, 2, 8),
                text: "Porque pela graça sois salvos".to_string(),
                translation: TranslationId::new("alm"),
            },
            Verse {
                reference: Reference::single(49, 2, 9),
                text: "Não vem das obras".to_string(),
                translation: TranslationId::new("alm"),
            },
        ],
    }
}

/// A provider that answers with the user prompt it received.
struct EchoProvider;

impl LlmProvider for EchoProvider {
    fn name(&self) -> &str {
        "echo"
    }
    fn model(&self) -> &str {
        "echo-1"
    }
    fn complete(&self, _system: &str, user: &str) -> Result<String, AiError> {
        Ok(user.to_string())
    }
    fn chat(&self, _system: &str, messages: &[ChatMessage]) -> Result<String, AiError> {
        Ok(messages.iter().map(|m| m.content.clone()).collect::<Vec<_>>().join("\n"))
    }
}

/// No prompt override file.
fn no_overrides() -> Vec<Option<String>> {
    vec![None, None, None]
}

fn lexicon(source: &str) -> VerifiedLexicon {
    VerifiedLexicon {
        entries: vec![LexicalEntry {
            strongs: "H7225".into(),
            lemma: Some("rēʾšît".into()),
            translit: None,
            gloss: Some("beginning".into()),
            occurrences: 1,
            testament: "OT".into(),
        }],
        sources: vec![source.into()],
    }
}

fn request<'a>(p: &'a Passage, label: &str, mode: StudyMode, lens: Denomination) -> StudyRequest<'a> {
    StudyRequest {
        reference: p.reference,
        reference_label: label.to_string(),
        mode,
        lens,
        depth: StudyDepth::Exegetical,
        language: Lang::Pt,
        passage: Some(p),
        cross_references: vec![],
        verified_lexicon: VerifiedLexicon::default(),
        web_sources: vec![],
        brief: None,
    }
}

#[test]
fn study_cites_local_text_and_includes_interpretation() {
    let p = passage();
    let mut req = request(&p, "Efésios 2.8-9", StudyMode::Academic, Denomination::Lutheran);
    req.cross_references = vec!["Romanos 3.24".to_string()];
    let provider = MockLlmProvider::new("A salvação é dom de Deus (v.8).");
    let result = study(&provider, &req, &no_overrides()).unwrap();

    assert!(result.passage_text.contains("8 Porque pela graça sois salvos"));
    assert!(result.passage_text.contains("9 Não vem das obras"));
    assert_eq!(result.interpretation, "A salvação é dom de Deus (v.8).");
    assert_eq!(result.provider, "mock");
    assert!(result.sections.is_empty(), "no `## `, no sections");

    let md = result.to_markdown();
    assert!(md.contains("# Estudo — Efésios 2.8-9"));
    assert!(md.contains("Lente: Luterana"));
    assert!(md.contains("## Texto citado"));
    assert!(md.contains("## Interpretação"));
    assert!(md.contains("A salvação é dom de Deus"));
    assert!(md.contains("confira sempre as Escrituras"));
    assert!(!md.contains("- Modo:"), "the plain rendering has no mode line");
}

#[test]
fn structured_sections_render_mode_and_headings() {
    let p = passage();
    let req = request(&p, "Efésios 2.8-9", StudyMode::Academic, Denomination::Presbyterian);
    let provider = MockLlmProvider::new(
        "## Texto e tradução\nO texto fala da graça.\n\n## Síntese teológica\nA fé é dom.",
    );
    let result = study(&provider, &req, &no_overrides()).unwrap();

    assert_eq!(result.sections.len(), 2);
    assert_eq!(result.sections[0].heading, "Texto e tradução");
    assert_eq!(result.sections[0].body, "O texto fala da graça.");
    assert_eq!(result.sections[1].heading, "Síntese teológica");

    let md = result.to_markdown();
    assert!(md.contains("- Modo: Acadêmico"));
    assert!(md.contains("## Texto citado"));
    assert!(md.contains("## Texto e tradução"));
    assert!(md.contains("## Síntese teológica"));
    assert!(md.contains("confira sempre as Escrituras"));
}

#[test]
fn academic_mode_injects_lexical_block_and_flags_invented_strongs() {
    let p = passage();
    let mk = |mode: StudyMode, vl: VerifiedLexicon| {
        let mut r = request(&p, "Efésios 2.8-9", mode, Denomination::Presbyterian);
        r.verified_lexicon = vl;
        r
    };

    let echoed = study(&EchoProvider, &mk(StudyMode::Academic, lexicon("STEP Bible")), &no_overrides()).unwrap();
    assert!(echoed.interpretation.contains("DADOS LÉXICOS"));
    assert!(echoed.interpretation.contains("[V:H7225]"));

    let devo = study(&EchoProvider, &mk(StudyMode::Devotional, lexicon("STEP Bible")), &no_overrides()).unwrap();
    assert!(!devo.interpretation.contains("DADOS LÉXICOS"));
    assert!(devo.warnings.is_empty());

    let inv = MockLlmProvider::new("Veja [V:H7225] (ok) e [V:G9999] (inventado).");
    let flagged = study(&inv, &mk(StudyMode::Academic, lexicon("STEP Bible")), &no_overrides()).unwrap();
    assert_eq!(flagged.warnings.len(), 1, "{:?}", flagged.warnings);
    assert!(flagged.warnings[0].contains("G9999"));
    assert!(flagged.to_markdown().contains("## Avisos de verificação"));
}

#[test]
fn academic_markdown_has_footnotes_bibliography_and_provenance() {
    let p = passage();
    let mut req = request(&p, "Gênesis 1.1", StudyMode::Academic, Denomination::Presbyterian);
    req.verified_lexicon = lexicon("STEP Bible (CC BY 4.0)");
    let provider = MockLlmProvider::new("## Análise lexical\nO termo [V:H7225] abre o relato.");
    let r = study(&provider, &req, &no_overrides()).unwrap();
    let md = r.to_academic_markdown(Lang::Pt);

    assert!(md.contains("title: \"Estudo Exegético — Gênesis 1.1\""));
    assert!(md.contains("## Texto (acervo local)"));
    assert!(md.contains("[^H7225]"), "the anchor becomes a footnote");
    assert!(!md.contains("[V:H7225]"), "the original anchor is gone");
    assert!(md.contains("## Notas"));
    assert!(md.contains("s.v."));
    assert!(md.contains("## Bibliografia"));
    assert!(md.contains("Tyndale House"));
    assert!(md.contains("Gerado por IA"));
}

#[test]
fn research_injects_web_block_cites_and_flags_out_of_range() {
    let p = passage();
    let web = MockResearchProvider::canned().search("x", 5).unwrap();
    assert_eq!(web.len(), 2);
    let mk = |prov: &dyn Fn(&StudyRequest) -> the_light_core::study::StudyResult| {
        let mut req = request(&p, "Ef 2.8", StudyMode::Academic, Denomination::Presbyterian);
        req.web_sources = web.iter().cloned().collect();
        prov(&req)
    };

    let echoed = mk(&|r| study(&EchoProvider, r, &no_overrides()).unwrap());
    assert!(echoed.interpretation.contains("FONTES SECUNDÁRIAS"));
    assert!(echoed.interpretation.contains("[W:1] Grace (Christianity) (example.org)"));
    assert!(echoed.interpretation.contains("unmerited favor"));
    let web_cites = echoed.citations.iter().filter(|c| c.kind == CitationKind::Web).count();
    assert_eq!(web_cites, 2);

    let inv = MockLlmProvider::new("## Análise\nVer [W:1] e também [W:3].");
    let flagged = mk(&|r| study(&inv, r, &no_overrides()).unwrap());
    assert!(flagged.warnings.iter().any(|w| w.contains("[W:3]")));
    assert_eq!(
        flagged.warnings,
        vec!["Fonte web citada [W:3] fora do intervalo (há 2 fonte(s))".to_string()]
    );
    let md = flagged.to_academic_markdown(Lang::Pt);
    assert!(md.contains("Ver [^W1] e também"), "{md}");
    assert!(!md.contains("[W:1]") && !md.contains("[W:3]."), "{md}");
    assert!(md.contains("unmerited favor"));
    assert!(md.contains("[^W1]: “Grace (Christianity)”, https://example.org/grace."), "{md}");
    assert!(md.contains("Recuperado da web"));
}

#[test]
fn topical_study_has_no_cited_text_block_and_injects_brief() {
    let p = passage();
    let mut req = request(&p, "a graça em Paulo", StudyMode::Introductory, Denomination::Presbyterian);
    req.depth = StudyDepth::Overview;
    req.passage = None;
    req.brief = Some("a graça em Paulo".to_string());
    let echoed = study(&EchoProvider, &req, &no_overrides()).unwrap();
    assert!(echoed.interpretation.contains("TEMÁTICO"));
    assert!(echoed.interpretation.contains("FOCO DO ESTUDO"));
    assert!(echoed.passage_text.is_empty());

    let provider = MockLlmProvider::new("## Ideia principal\nA graça é dom.");
    let r = study(&provider, &req, &no_overrides()).unwrap();
    let md = r.to_markdown();
    assert!(!md.contains("## Texto citado"), "{md}");
    assert!(md.contains("## Ideia principal"));
}

#[test]
fn override_file_replaces_the_system_prompt() {
    struct SystemEcho;
    impl LlmProvider for SystemEcho {
        fn name(&self) -> &str {
            "sys"
        }
        fn model(&self) -> &str {
            "sys-1"
        }
        fn complete(&self, system: &str, _user: &str) -> Result<String, AiError> {
            Ok(system.to_string())
        }
        fn chat(&self, system: &str, _m: &[ChatMessage]) -> Result<String, AiError> {
            Ok(system.to_string())
        }
    }
    let p = passage();
    let req = request(&p, "Ef 2.8", StudyMode::Sermon, Denomination::Baptist);
    let found = vec![None, Some("PROMPT LOCAL".to_string()), Some("outro".to_string())];
    let r = study(&SystemEcho, &req, &found).unwrap();
    assert_eq!(r.interpretation, "PROMPT LOCAL");
}

#[test]
fn user_prompt_lists_cross_references_or_none() {
    let p = passage();
    let mut req = request(&p, "Ef 2.8", StudyMode::Devotional, Denomination::Baptist);
    let text = user_prompt(&req, "8 x");
    assert!(text.starts_with("Faça um estudo bíblico (Devocional) da passagem Ef 2.8, pela lente Batista"));
    assert!(text.contains("REFERÊNCIAS CRUZADAS LOCAIS (contexto, use se ajudar):\n(nenhuma)\n"));
    req.cross_references = vec!["Rm 3.24".into(), "Tt 3.5".into()];
    req.brief = Some("   ".into());
    let text = user_prompt(&req, "8 x");
    assert!(text.contains("Rm 3.24; Tt 3.5"));
    assert!(!text.contains("FOCO DO ESTUDO"));
}

#[test]
fn web_indices_read_numbered_anchors_only() {
    assert_eq!(cited_web_indices("a [W:1] b [W:12] c [W:x] d [W:] e [W:3"), vec![1, 12]);
    assert_eq!(cited_web_indices("[W:99999999999999999999999]"), Vec::<usize>::new());
    assert!(cited_web_indices("sem âncoras").is_empty());
}
