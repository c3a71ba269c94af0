use the_light_core::alias::{book_number, build_alias_map};
use the_light_core::books::books;
use the_light_core::model::{Lang, Reference, VerseRange};
use the_light_core::reference::{
    format_reference, parse_reference, parse_references, ReferenceError,
};
use the_light_core::scan::scan_references;

fn r(book: u8, chapter: u16, verses: VerseRange) -> Reference {
    Reference {
        book,
        chapter,
        verses,
    }
}

#[test]
fn alias_map_has_no_conflicts_and_covers_66_books() {
    // Construir o mapa em modo debug dispara `debug_assert` em colisão real.
    let map = build_alias_map();
    // Cada um dos 66 livros deve ser alcançável pelo nome em inglês.
    for b in books().iter() {
        assert_eq!(book_number(b.name_en), Some(b.number), "en {}", b.name_en);
        assert_eq!(book_number(b.name_pt), Some(b.number), "pt {}", b.name_pt);
        assert_eq!(
            book_number(b.abbrev_en),
            Some(b.number),
            "abbr_en {}",
            b.abbrev_en
        );
        assert_eq!(
            book_number(b.abbrev_pt),
            Some(b.number),
            "abbr_pt {}",
            b.abbrev_pt
        );
    }
    assert!(
        map.len() > 300,
        "mapa de aliases pequeno demais: {}",
        map.len()
    );
}

#[test]
fn portuguese_job_vs_john_disambiguation() {
    // `Jó` (com acento) = Job (18); `Jo` (sem acento) = João (43).
    assert_eq!(book_number("Jó"), Some(18));
    assert_eq!(book_number("Job"), Some(18));
    assert_eq!(book_number("Jo"), Some(43));
    assert_eq!(book_number("João"), Some(43));
    assert_eq!(book_number("joao"), Some(43));
    // `Jn` = Jonas (32), não João.
    assert_eq!(book_number("Jn"), Some(32));
}

#[test]
fn roman_numeral_books() {
    assert_eq!(book_number("II Coríntios"), Some(47));
    assert_eq!(book_number("I John"), Some(62));
    assert_eq!(book_number("III João"), Some(64));
}

#[test]
fn handles_decomposed_utf8_nfd_input() {
    // "Coríntios" em NFD: 'i' seguido de acento agudo combinante (U+0301).
    let nfd = "1 Cori\u{0301}ntios 13.4";
    assert_eq!(
        parse_reference(nfd).unwrap(),
        r(46, 13, VerseRange::Single(4))
    );
    // "João" decomposto (a + til combinante U+0303).
    assert_eq!(book_number("Joa\u{0303}o"), Some(43));
}

// ---- ≥20 formatos válidos ----

#[test]
fn valid_single_verse_pt() {
    assert_eq!(
        parse_reference("Jo 3.16").unwrap(),
        r(43, 3, VerseRange::Single(16))
    );
}
#[test]
fn valid_single_verse_en_colon() {
    assert_eq!(
        parse_reference("John 3:16").unwrap(),
        r(43, 3, VerseRange::Single(16))
    );
}
#[test]
fn valid_range_pt() {
    assert_eq!(
        parse_reference("Gn 1.1-3").unwrap(),
        r(1, 1, VerseRange::Range { start: 1, end: 3 })
    );
}
#[test]
fn valid_whole_chapter() {
    assert_eq!(
        parse_reference("Sl 23").unwrap(),
        r(19, 23, VerseRange::WholeChapter)
    );
}
#[test]
fn valid_numbered_book_no_space() {
    assert_eq!(
        parse_reference("1Co 13.4-7").unwrap(),
        r(46, 13, VerseRange::Range { start: 4, end: 7 })
    );
}
#[test]
fn valid_numbered_book_with_space() {
    assert_eq!(
        parse_reference("1 Coríntios 13.4").unwrap(),
        r(46, 13, VerseRange::Single(4))
    );
}
#[test]
fn valid_full_name_en() {
    assert_eq!(
        parse_reference("Genesis 1:1").unwrap(),
        r(1, 1, VerseRange::Single(1))
    );
}
#[test]
fn valid_full_name_pt_accented() {
    assert_eq!(
        parse_reference("Gênesis 1.1").unwrap(),
        r(1, 1, VerseRange::Single(1))
    );
}
#[test]
fn valid_multiword_book() {
    assert_eq!(
        parse_reference("Song of Solomon 2:1").unwrap(),
        r(22, 2, VerseRange::Single(1))
    );
}
#[test]
fn valid_psalm_long_chapter() {
    assert_eq!(
        parse_reference("Salmos 119.105").unwrap(),
        r(19, 119, VerseRange::Single(105))
    );
}
#[test]
fn valid_revelation_pt() {
    assert_eq!(
        parse_reference("Ap 22.21").unwrap(),
        r(66, 22, VerseRange::Single(21))
    );
}
#[test]
fn valid_extra_spaces() {
    assert_eq!(
        parse_reference("  Mt   5 : 9 ").unwrap(),
        r(40, 5, VerseRange::Single(9))
    );
}
#[test]
fn valid_colon_range() {
    assert_eq!(
        parse_reference("Romanos 8:38-39").unwrap(),
        r(45, 8, VerseRange::Range { start: 38, end: 39 })
    );
}
#[test]
fn valid_lowercase_input() {
    assert_eq!(
        parse_reference("joão 1.1").unwrap(),
        r(43, 1, VerseRange::Single(1))
    );
}
#[test]
fn valid_abbrev_with_dot() {
    assert_eq!(
        parse_reference("Gen. 2:7").unwrap(),
        r(1, 2, VerseRange::Single(7))
    );
}
#[test]
fn valid_job_accented() {
    assert_eq!(
        parse_reference("Jó 1.1").unwrap(),
        r(18, 1, VerseRange::Single(1))
    );
}
#[test]
fn valid_jonah_abbrev() {
    assert_eq!(
        parse_reference("Jn 2.1").unwrap(),
        r(32, 2, VerseRange::Single(1))
    );
}
#[test]
fn valid_third_john_whole_chapter() {
    assert_eq!(
        parse_reference("3Jo 1").unwrap(),
        r(64, 1, VerseRange::WholeChapter)
    );
}
#[test]
fn valid_dot_separator_en_name() {
    assert_eq!(
        parse_reference("Matthew 6.33").unwrap(),
        r(40, 6, VerseRange::Single(33))
    );
}
#[test]
fn valid_collapsing_equal_range_to_single() {
    assert_eq!(
        parse_reference("Tg 2.24-24").unwrap(),
        r(59, 2, VerseRange::Single(24))
    );
}
#[test]
fn valid_psalm_word_singular() {
    assert_eq!(
        parse_reference("Salmo 23.1").unwrap(),
        r(19, 23, VerseRange::Single(1))
    );
}
#[test]
fn valid_first_peter() {
    assert_eq!(
        parse_reference("1Pe 5.7").unwrap(),
        r(60, 5, VerseRange::Single(7))
    );
}

#[test]
fn valid_reference_list() {
    let refs = parse_references("Jo 3.16; Rm 8.28; Sl 23").unwrap();
    assert_eq!(refs.len(), 3);
    assert_eq!(refs[0], r(43, 3, VerseRange::Single(16)));
    assert_eq!(refs[1], r(45, 8, VerseRange::Single(28)));
    assert_eq!(refs[2], r(19, 23, VerseRange::WholeChapter));
}

// ---- ≥8 formatos inválidos ----

#[test]
fn invalid_empty() {
    assert_eq!(parse_reference(""), Err(ReferenceError::Empty));
}
#[test]
fn invalid_whitespace_only() {
    assert_eq!(parse_reference("   "), Err(ReferenceError::Empty));
}
#[test]
fn invalid_unknown_book() {
    assert!(matches!(
        parse_reference("Xyz 3.16"),
        Err(ReferenceError::UnknownBook(_))
    ));
}
#[test]
fn invalid_missing_chapter() {
    assert!(matches!(
        parse_reference("John"),
        Err(ReferenceError::Malformed(_))
    ));
}
#[test]
fn invalid_dangling_separator() {
    assert!(matches!(
        parse_reference("John 3:"),
        Err(ReferenceError::Malformed(_))
    ));
}
#[test]
fn invalid_non_numeric_chapter() {
    assert!(matches!(
        parse_reference("John abc"),
        Err(ReferenceError::Malformed(_))
    ));
}
#[test]
fn invalid_missing_book() {
    assert!(matches!(
        parse_reference("3:16"),
        Err(ReferenceError::Malformed(_))
    ));
}
#[test]
fn invalid_chapter_zero() {
    assert!(matches!(
        parse_reference("John 0:16"),
        Err(ReferenceError::InvalidNumber(_))
    ));
}
#[test]
fn invalid_verse_zero() {
    assert!(matches!(
        parse_reference("John 3:0"),
        Err(ReferenceError::InvalidNumber(_))
    ));
}
#[test]
fn invalid_inverted_range() {
    assert_eq!(
        parse_reference("John 3:16-12"),
        Err(ReferenceError::RangeOrder { start: 16, end: 12 })
    );
}
#[test]
fn invalid_trailing_junk() {
    assert!(matches!(
        parse_reference("John 3:16xyz"),
        Err(ReferenceError::Malformed(_))
    ));
}
#[test]
fn invalid_dangling_range() {
    assert!(matches!(
        parse_reference("Gn 1.1-"),
        Err(ReferenceError::Malformed(_))
    ));
}

// ---- formatação ----

#[test]
fn format_pt_and_en() {
    let single = r(43, 3, VerseRange::Single(16));
    assert_eq!(format_reference(&single, Lang::Pt), "João 3.16");
    assert_eq!(format_reference(&single, Lang::En), "John 3:16");
    let range = r(1, 1, VerseRange::Range { start: 1, end: 3 });
    assert_eq!(format_reference(&range, Lang::Pt), "Gênesis 1.1-3");
    assert_eq!(format_reference(&range, Lang::En), "Genesis 1:1-3");
    let whole = r(19, 23, VerseRange::WholeChapter);
    assert_eq!(format_reference(&whole, Lang::Pt), "Salmos 23");
}

// ---- varredura de referências em prosa ----

#[test]
fn scan_finds_references_in_prose() {
    let refs = scan_references("Como diz João 3:16 e Romanos 5.8, veja também Salmo 23.");
    let got: Vec<Reference> = refs.iter().map(|s| s.reference).collect();
    assert!(got.contains(&r(43, 3, VerseRange::Single(16))), "{got:?}");
    assert!(got.contains(&r(45, 5, VerseRange::Single(8))), "{got:?}");
    assert!(
        got.contains(&r(19, 23, VerseRange::WholeChapter)),
        "{got:?}"
    );
}

#[test]
fn scan_handles_ranges_and_numbered_books() {
    let refs = scan_references("Leia 1 Coríntios 13:4-7 com atenção.");
    assert_eq!(refs.len(), 1, "{refs:?}");
    assert_eq!(
        refs[0].reference,
        r(46, 13, VerseRange::Range { start: 4, end: 7 })
    );
    // O numeral inicial não vira um capítulo solto.
    assert!(!refs.iter().any(|s| s.reference.chapter == 1));
}

#[test]
fn scan_ignores_bare_abbrev_and_out_of_range() {
    // "am 7" (abreviação sem versículo) é ruído; capítulo fora do intervalo
    // do livro é descartado; só a referência plena sobrevive.
    let refs = scan_references("eu am 7 anos; João 999 não existe; mas João 3:16 sim.");
    assert!(refs
        .iter()
        .any(|s| s.reference == r(43, 3, VerseRange::Single(16))));
    assert!(!refs.iter().any(|s| s.reference.chapter == 999));
    assert!(!refs.iter().any(|s| s.reference.chapter == 7));
}

#[test]
fn scan_ranges_point_to_the_matched_text() {
    let text = "ver João 3:16 aqui";
    let refs = scan_references(text);
    assert_eq!(refs.len(), 1);
    assert_eq!(&text[refs[0].range.clone()], "João 3:16");
}

#[test]
fn escape_backslashes_meta_characters() {
    assert_eq!(the_light_core::scan::escape("1 Co. (x)"), "1 Co\\. \\(x\\)");
    assert_eq!(the_light_core::scan::escape("Gênesis"), "Gênesis");
    assert_eq!(the_light_core::scan::escape("a-b~c#"), "a\\-b\\~c\\#");
}

#[test]
fn scanned_ranges_are_in_order_and_on_char_boundaries() {
    let t = "Em João 3:16, então Romanos 5.8 e Gênesis 1:1.";
    let found = scan_references(t);
    assert_eq!(found.len(), 3);
    for w in found.windows(2) {
        assert!(w[0].range.end <= w[1].range.start);
    }
    for f in &found {
        assert!(t.is_char_boundary(f.range.start) && t.is_char_boundary(f.range.end));
        assert!(f.range.start <= f.range.end);
    }
    assert_eq!(&t[found[2].range.clone()], "Gênesis 1:1");
}
