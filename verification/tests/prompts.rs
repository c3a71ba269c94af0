use the_light_core::ai::{Denomination, StudyDepth, StudyMode};
use the_light_core::model::Lang;
use the_light_core::prompts::{builtin, override_names, system_prompt_from};

/// The override files a directory holds, looked up in the library's order.
fn found_in(dir: &[(&str, &str)], mode: StudyMode, lens: Denomination) -> Vec<Option<String>> {
    override_names(mode, lens)
        .iter()
        .map(|n| dir.iter().find(|(f, _)| f == n).map(|(_, c)| c.to_string()))
        .collect()
}

fn prompt_in(mode: StudyMode, lens: Denomination, depth: StudyDepth, lang: Lang, dir: &[(&str, &str)]) -> String {
    system_prompt_from(mode, lens, depth, lang, &found_in(dir, mode, lens))
}

#[test]
fn builtin_has_mandatory_rules_and_lens() {
    let p = prompt_in(StudyMode::Academic, Denomination::Baptist, StudyDepth::Exegetical, Lang::Pt, &[]);
    assert!(p.contains("Cite os versículos"));
    assert!(p.contains("Separe claramente"));
    assert!(p.contains("NÃO invente"));
    assert!(p.contains("Batista"));
    assert!(p.contains("EXEGÉTICA"));
    assert!(p.contains("português"));
    assert!(p.contains("## Análise lexical"));
    assert!(p.contains("ESTRUTURA OBRIGATÓRIA"));
}

#[test]
fn each_lens_is_distinct() {
    let mut seen = std::collections::HashSet::new();
    for lens in Denomination::all() {
        let p = prompt_in(StudyMode::Academic, lens, StudyDepth::Overview, Lang::Pt, &[]);
        assert!(seen.insert(p), "lente {} gerou prompt duplicado", lens.slug());
    }
}

#[test]
fn english_language_line() {
    let p = prompt_in(StudyMode::Devotional, Denomination::Lutheran, StudyDepth::Overview, Lang::En, &[]);
    assert!(p.contains("English"));
}

#[test]
fn override_file_replaces_prompt() {
    let dir = [("presbyterian.md", "PROMPT CUSTOMIZADO DO USUÁRIO")];
    let p = prompt_in(StudyMode::Academic, Denomination::Presbyterian, StudyDepth::Exegetical, Lang::Pt, &dir);
    assert_eq!(p, "PROMPT CUSTOMIZADO DO USUÁRIO");
    let q = prompt_in(StudyMode::Academic, Denomination::Baptist, StudyDepth::Overview, Lang::Pt, &dir);
    assert!(q.contains("Batista"));
}

#[test]
fn override_mode_lens_takes_precedence() {
    let dir = [
        ("academic.presbyterian.md", "ESPECÍFICO"),
        ("academic.md", "SÓ MODO"),
        ("presbyterian.md", "SÓ LENTE"),
    ];
    let p = prompt_in(StudyMode::Academic, Denomination::Presbyterian, StudyDepth::Exegetical, Lang::Pt, &dir);
    assert_eq!(p, "ESPECÍFICO");
    let q = prompt_in(StudyMode::Devotional, Denomination::Presbyterian, StudyDepth::Overview, Lang::Pt, &dir);
    assert_eq!(q, "SÓ LENTE");
}

#[test]
fn prompt_without_overrides_is_the_builtin() {
    let p = prompt_in(StudyMode::Sermon, Denomination::Catholic, StudyDepth::Overview, Lang::En, &[]);
    assert_eq!(p, builtin(StudyMode::Sermon, Denomination::Catholic, StudyDepth::Overview, Lang::En));
    assert_eq!(
        override_names(StudyMode::Academic, Denomination::Baptist),
        vec!["academic.baptist.md", "academic.md", "baptist.md"]
    );
}

#[test]
fn each_mode_is_distinct() {
    let mut seen: Vec<String> = Vec::new();
    for mode in StudyMode::all() {
        for lens in Denomination::all() {
            let p = prompt_in(mode, lens, StudyDepth::Overview, Lang::Pt, &[]);
            assert!(p.contains(mode.name_pt()), "modo {} ausente do prompt", mode.slug());
            assert!(!seen.contains(&p), "par {}×{} gerou prompt duplicado", mode.slug(), lens.slug());
            seen.push(p);
        }
    }
}
