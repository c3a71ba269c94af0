use the_light_core::citation::{
    provenance_footer, rewrite_anchors, sbl_bibliography_entry, sbl_footnote, CitationCollector,
    CitationKind,
};
use the_light_core::lexicon::{LexicalEntry, VerifiedLexicon};
use the_light_core::model::Lang;

fn vl() -> VerifiedLexicon {
    VerifiedLexicon {
        entries: vec![
            LexicalEntry {
                strongs: "H7225".into(),
                lemma: Some("rēʾšît".into()),
                translit: None,
                gloss: Some("beginning".into()),
                occurrences: 1,
                testament: "OT".into(),
            },
            LexicalEntry {
                strongs: "G0026".into(),
                lemma: Some("agápē".into()),
                translit: None,
                gloss: Some("love".into()),
                occurrences: 2,
                testament: "NT".into(),
            },
        ],
        sources: vec!["Credit it to 'STEP Bible' (CC BY 4.0)".into()],
    }
}

#[test]
fn collector_builds_footnotes_and_bibliography() {
    let mut c = CitationCollector::new();
    c.from_verified_lexicon(&vl());
    let cites = c.into_vec();
    let notes = cites.iter().filter(|c| c.kind == CitationKind::Lexicon).count();
    let srcs = cites.iter().filter(|c| c.kind == CitationKind::Source).count();
    assert_eq!(notes, 2);
    assert_eq!(srcs, 2);
    let h = cites.iter().find(|c| c.key == "H7225").unwrap();
    assert_eq!(
        sbl_footnote(h, Lang::Pt),
        "STEP Bible, *Translators Brief lexicon of Extended Strongs for Hebrew (TBESH)*, s.v. “rēʾšît (H7225)”."
    );
}

#[test]
fn rewrite_anchors_keeps_valid_strips_invalid() {
    let valid: Vec<String> = vec!["H7225".to_string()];
    let got = rewrite_anchors("graça [V:H7225] e falso [V:G9999] fim", &valid);
    assert_eq!(got, "graça [^H7225] e falso  fim");
    assert_eq!(rewrite_anchors("sem ancora", &valid), "sem ancora");
}

#[test]
fn bibliography_entry_is_sbl_inverted() {
    let mut c = CitationCollector::new();
    c.from_verified_lexicon(&vl());
    let cites = c.into_vec();
    let src = cites.iter().find(|c| c.kind == CitationKind::Source).unwrap();
    let bib = sbl_bibliography_entry(src);
    assert!(bib.starts_with("STEP Bible. *"));
    assert!(bib.contains("Tyndale House, Cambridge."));
    assert!(bib.contains("CC BY 4.0."));
}

#[test]
fn provenance_footer_separates_verifiable_from_ai() {
    let mut c = CitationCollector::new();
    c.from_verified_lexicon(&vl());
    let footer = provenance_footer(&c.into_vec(), "anthropic", "opus-4-8", Lang::Pt);
    assert!(footer.contains("Verificável"));
    assert!(footer.contains("CC BY 4.0"));
    assert!(footer.contains("Gerado por IA"));
    assert!(footer.contains("anthropic/opus-4-8"));
    assert!(!footer.contains("Recuperado da web"));
}

#[test]
fn anchor_that_is_not_well_formed_is_kept() {
    let valid: Vec<String> = vec!["H7225".to_string()];
    assert_eq!(rewrite_anchors("veja [V:xyz] e [V:", &valid), "veja [V:xyz] e [V:");
}

#[test]
fn collecting_the_same_lexicon_twice_adds_nothing() {
    let mut once = CitationCollector::new();
    once.from_verified_lexicon(&vl());
    let mut twice = CitationCollector::new();
    twice.from_verified_lexicon(&vl());
    twice.from_verified_lexicon(&vl());
    let a = once.into_vec();
    let b = twice.into_vec();
    assert_eq!(a.len(), 4);
    assert_eq!(a, b);
}

#[test]
fn strong_set_lists_each_number_once() {
    let mut lex = vl();
    let mut dup = lex.entries[0].clone();
    dup.occurrences = 3;
    lex.entries.push(dup);
    assert_eq!(lex.strong_set(), vec!["H7225".to_string(), "G0026".to_string()]);
}

#[test]
fn collector_keeps_the_first_citation_of_each_key_in_order() {
    assert!(CitationCollector::new().into_vec().is_empty());
    let mut c = CitationCollector::new();
    let mut a1 = the_light_core::citation::Citation::empty(CitationKind::Lexicon, "H1");
    a1.title = Some("first".into());
    let b = the_light_core::citation::Citation::empty(CitationKind::Source, "B");
    let mut a2 = the_light_core::citation::Citation::empty(CitationKind::Lexicon, "H1");
    a2.title = Some("second".into());
    c.push(a1);
    c.push(b);
    c.push(a2);
    let v = c.into_vec();
    let keys: Vec<&str> = v.iter().map(|x| x.key.as_str()).collect();
    assert_eq!(keys, vec!["H1", "B"]);
    assert_eq!(v[0].title.as_deref(), Some("first"));
}
