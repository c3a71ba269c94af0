use the_light_core::model::Lang;
use the_light_core::translation_import::{
    available_versions, check_verse_count, parse_import_args, positional_verses, require_versions,
    requested_spec, scrollmapper_verses, translation_spec, Format, SmBook, SmChapter, SmVerse,
};

/// 66 books; the first has two real verses, the others one placeholder.
fn scrollmapper_fixture() -> Vec<SmBook> {
    (0..66)
        .map(|bi| {
            let verses = if bi == 0 {
                vec![
                    SmVerse {
                        verse: 1,
                        text: "  In the beginning God created the heaven and the earth.  ".into(),
                    },
                    SmVerse { verse: 2, text: "And the earth was without form.".into() },
                ]
            } else {
                vec![SmVerse { verse: 1, text: "placeholder".into() }]
            };
            SmBook { chapters: vec![SmChapter { chapter: 1, verses }] }
        })
        .collect()
}

fn positional_fixture() -> Vec<Vec<Vec<String>>> {
    (0..66)
        .map(|bi| {
            if bi == 0 {
                vec![vec![
                    "No princípio criou Deus os céus e a terra. ".to_string(),
                    "E a terra era sem forma.".to_string(),
                ]]
            } else {
                vec![vec!["placeholder".to_string()]]
            }
        })
        .collect()
}

#[test]
fn parses_scrollmapper_shape_and_trims() {
    let v = scrollmapper_verses(&scrollmapper_fixture()).unwrap();
    assert_eq!(v.len(), 67);
    assert_eq!(v[0].book_number, 1);
    assert_eq!(v[0].chapter, 1);
    assert_eq!(v[0].verse, 1);
    assert_eq!(v[0].text, "In the beginning God created the heaven and the earth.");
    assert_eq!(v[66].book_number, 66);
}

#[test]
fn parses_thiagobodruk_positional_and_trims() {
    let v = positional_verses(&positional_fixture()).unwrap();
    assert_eq!(v.len(), 67);
    assert_eq!(v[0].book_number, 1);
    assert_eq!(v[0].chapter, 1);
    assert_eq!(v[0].verse, 1);
    assert_eq!(v[0].text, "No princípio criou Deus os céus e a terra.");
    assert_eq!(v[1].verse, 2);
}

#[test]
fn rejects_wrong_book_count() {
    assert_eq!(
        scrollmapper_verses(&[]).unwrap_err(),
        "esperados 66 livros, encontrados 0"
    );
    assert!(positional_verses(&positional_fixture()[..65]).is_err());
}

#[test]
fn registry_holds_only_free_translations() {
    let kjv = translation_spec("kjv").unwrap();
    assert_eq!(kjv.lang, Lang::En);
    assert_eq!(kjv.format, Format::Scrollmapper);
    assert_eq!(kjv.expected_verses, 31_102);
    assert!(translation_spec("nvi").is_none());
    assert_eq!(
        available_versions(),
        "kjv (en, public-domain), alm1911 (pt, public-domain)"
    );
    let e = requested_spec("nvi").unwrap_err();
    assert!(e.starts_with("versão `nvi` não é uma versão livre conhecida. Versões embarcáveis: kjv, alm1911."));
    assert_eq!(requested_spec("alm1911").unwrap().abbrev, "ALM1911");
}

#[test]
fn import_arguments_are_parsed() {
    let args: Vec<String> = ["--version", " kjv, ,alm1911 ", "--db", "x.db", "--force", "--offline"]
        .iter()
        .map(|s| s.to_string())
        .collect();
    let o = parse_import_args(&args).unwrap();
    assert_eq!(o.versions, vec!["kjv".to_string(), "alm1911".to_string()]);
    assert_eq!(o.db_path.as_deref(), Some("x.db"));
    assert_eq!(o.seed_dir, "data/seed");
    assert!(o.force && o.offline);
    let d = parse_import_args(&[]).unwrap();
    assert!(d.versions.is_empty() && !d.force && !d.offline && d.db_path.is_none());
    assert_eq!(parse_import_args(&["--db".to_string()]).unwrap_err(), "--db requer um caminho");
    assert_eq!(
        parse_import_args(&["--bogus".to_string()]).unwrap_err(),
        "argumento desconhecido para `import`: --bogus"
    );
}

#[test]
fn too_few_verses_is_an_incomplete_dataset() {
    let kjv = translation_spec("kjv").unwrap();
    assert_eq!(
        check_verse_count(&kjv, 67).unwrap_err(),
        "`kjv`: apenas 67 versículos parseados (esperado ~31102); dataset incompleto?"
    );
    assert!(check_verse_count(&kjv, 31_102).is_ok());
}

#[test]
fn import_request_must_name_a_version() {
    let none = parse_import_args(&[]).unwrap();
    assert_eq!(
        require_versions(&none).unwrap_err(),
        "nenhuma versão informada — use `--version kjv,alm1911`"
    );
    let some = parse_import_args(&["--version".to_string(), "kjv".to_string()]).unwrap();
    assert!(require_versions(&some).is_ok());
}
