use the_light_core::scholarly::{
    available_datasets, braces_content, default_datasets, encode_path, ensure_embeddable,
    extract_strong, parse_greek_row, parse_hebrew_row, parse_lexicon_row, parse_ref, specs,
    step_book_number, Kind, ScholarlySpec,
};

#[test]
fn step_book_codes_resolve() {
    assert_eq!(step_book_number("Gen"), Some(1));
    assert_eq!(step_book_number("Deu"), Some(5));
    assert_eq!(step_book_number("Psa"), Some(19));
    assert_eq!(step_book_number("Mrk"), Some(41));
    assert_eq!(step_book_number("Jhn"), Some(43));
    assert_eq!(step_book_number("Rev"), Some(66));
    assert_eq!(step_book_number("Nope"), None);
}

#[test]
fn parse_ref_uses_english_versification() {
    assert_eq!(parse_ref("Gen.1.1#01=L"), Some((1, 1, 1, 1)));
    assert_eq!(parse_ref("Mat.1.1#03=NKO"), Some((40, 1, 1, 3)));
    assert_eq!(parse_ref("Psa.3.1(3.2)#05=L"), Some((19, 3, 1, 5)));
    assert_eq!(parse_ref("lixo"), None);
}

#[test]
fn extract_strong_handles_prefixes_and_letters() {
    assert_eq!(extract_strong("{H7225G}").as_deref(), Some("H7225G"));
    assert_eq!(extract_strong("H1254A").as_deref(), Some("H1254A"));
    assert_eq!(extract_strong("G0976=N-NSF").as_deref(), Some("G0976"));
    assert_eq!(braces_content("H9003/{H7225G}").as_deref(), Some("H7225G"));
    assert_eq!(extract_strong("H9003/{H7225G}").as_deref(), Some("H9003"));
}

#[test]
fn parse_hebrew_row_extracts_root_strong() {
    let line = "Gen.1.1#01=L\tבְּ/רֵאשִׁ֖ית\tbe./re.Shit\tin/ beginning\tH9003/{H7225G}\tHR/Ncfsa\t\t\tH7225G";
    let t = parse_hebrew_row(line).unwrap();
    assert_eq!(t.testament, "OT");
    assert_eq!((t.book, t.chapter, t.verse, t.word_index), (1, 1, 1, 1));
    assert_eq!(t.strongs.as_deref(), Some("H7225G"));
    assert_eq!(t.gloss.as_deref(), Some("in beginning"));
    assert_eq!(t.morph.as_deref(), Some("HR/Ncfsa"));
}

#[test]
fn parse_greek_row_splits_strong_and_morph() {
    let line = "Mat.1.1#01=NKO\tΒίβλος (Biblos)\t[The] book\tG0976=N-NSF\tβίβλος=book";
    let t = parse_greek_row(line).unwrap();
    assert_eq!(t.testament, "NT");
    assert_eq!((t.book, t.chapter, t.verse, t.word_index), (40, 1, 1, 1));
    assert_eq!(t.surface, "Βίβλος");
    assert_eq!(t.translit.as_deref(), Some("Biblos"));
    assert_eq!(t.strongs.as_deref(), Some("G0976"));
    assert_eq!(t.morph.as_deref(), Some("N-NSF"));
    assert_eq!(t.lemma.as_deref(), Some("βίβλος"));
    assert_eq!(t.gloss.as_deref(), Some("The book"));
}

#[test]
fn parse_lexicon_row_keys_on_extended_strong() {
    let line = "H0001\tH0001G =\tH0001G\tאָב\tav\tH:N-M\tfather\t1) father of an individual<br>2) of God";
    let e = parse_lexicon_row(line).unwrap();
    assert_eq!(e.strongs, "H0001G");
    assert_eq!(e.lemma.as_deref(), Some("אָב"));
    assert_eq!(e.translit.as_deref(), Some("av"));
    assert_eq!(e.gloss.as_deref(), Some("father"));
    assert_eq!(e.definition.as_deref(), Some("1) father of an individual; 2) of God"));
}

#[test]
fn denylist_and_license_are_enforced() {
    let bad = ScholarlySpec {
        id: "sblgnt",
        name: "x",
        license: "cc-by",
        embeddable: true,
        kind: Kind::GreekTokens,
        folder: "",
        files: &[],
    };
    assert!(ensure_embeddable(&bad).is_err());
    let sa = ScholarlySpec {
        id: "foo",
        name: "x",
        license: "cc-by-sa",
        embeddable: true,
        kind: Kind::Lexicon,
        folder: "",
        files: &[],
    };
    assert!(ensure_embeddable(&sa).is_err());
    assert!(ensure_embeddable(&specs()[0]).is_ok());
}

#[test]
fn encode_path_percent_encodes_spaces_and_plus() {
    assert_eq!(encode_path("Translators Amalgamated OT+NT"), "Translators%20Amalgamated%20OT%2BNT");
    assert_eq!(encode_path("a-b_c.txt"), "a-b_c.txt");
}

#[test]
fn encode_path_encodes_utf8_bytes() {
    assert_eq!(encode_path("é/ü"), "%C3%A9/%C3%BC");
    assert_eq!(encode_path("€"), "%E2%82%AC");
    assert_eq!(encode_path("𝄞"), "%F0%9D%84%9E");
}

#[test]
fn datasets_are_listed_in_order() {
    assert_eq!(default_datasets(), vec!["tahot", "tagnt", "tbesh", "tbesg"]);
    assert_eq!(available_datasets(), "tahot, tagnt, tbesh, tbesg");
}

#[test]
fn short_rows_are_rejected() {
    assert!(parse_hebrew_row("Gen.1.1#01=L\ta\tb").is_none());
    assert!(parse_greek_row("Mat.1.1#01\tx").is_none());
    assert!(parse_lexicon_row("H0001\tx\ty").is_none());
    assert!(parse_lexicon_row("H0001\tnone\t\t\t\t\t").is_none());
}

#[test]
fn not_embeddable_flag_is_reported() {
    let spec = ScholarlySpec {
        id: "x",
        name: "x",
        license: "public-domain",
        embeddable: false,
        kind: Kind::Lexicon,
        folder: "",
        files: &[],
    };
    match ensure_embeddable(&spec) {
        Err(the_light_core::scholarly::ScholarlyError::Msg(m)) => {
            assert_eq!(m, "`x` não é embarcável (embeddable=false)")
        }
        _ => panic!("expected an error"),
    }
}
