use the_light_core::xref_import::{parse_line, parse_osis, parse_to, parse_tsv, strip_bom};

#[test]
fn parse_osis_resolves_codes() {
    assert_eq!(parse_osis("Gen.1.1"), Some((1, 1, 1)));
    assert_eq!(parse_osis("Ps.23.1"), Some((19, 23, 1)));
    assert_eq!(parse_osis("1Cor.13.4"), Some((46, 13, 4)));
    assert_eq!(parse_osis("Rom.3.23"), Some((45, 3, 23)));
    assert_eq!(parse_osis("Rev.22.21"), Some((66, 22, 21)));
    assert_eq!(parse_osis("Nope.1.1"), None);
    assert_eq!(parse_osis("From Verse"), None);
}

#[test]
fn parse_to_single_and_range() {
    assert_eq!(parse_to("John.1.1"), Some((43, 1, 1, 1)));
    assert_eq!(parse_to("John.1.1-John.1.3"), Some((43, 1, 1, 3)));
    assert_eq!(parse_to("John.1.50-John.2.2"), Some((43, 1, 50, 50)));
}

#[test]
fn parse_line_skips_header_and_parses_rows() {
    let header = "From Verse\tTo Verse\tVotes\t#www.openbible.info CC-BY";
    assert_eq!(parse_line(header), None);
    let row = parse_line("Rom.3.23\tRom.6.23\t50").unwrap();
    assert_eq!(row.from_book, 45);
    assert_eq!(row.from_verse, 23);
    assert_eq!(row.to_book, 45);
    assert_eq!(row.to_chapter, 6);
    assert_eq!(row.votes, 50);
    assert_eq!(parse_line("Rom.3.23\tRom.3.9\t-5").unwrap().votes, -5);
}

#[test]
fn parse_tsv_filters_invalid() {
    let tsv = "From Verse\tTo Verse\tVotes\nRom.3.23\tRom.6.23\t50\nlixo\nGen.1.1\tJohn.1.1-John.1.3\t12\n";
    let rows = parse_tsv(tsv);
    assert_eq!(rows.len(), 2);
    assert_eq!(rows[1].to_verse_end, 3);
}

#[test]
fn strip_bom_removes_leading_marker() {
    let with_bom = [0xEF, 0xBB, 0xBF, b'[', b']'];
    assert_eq!(strip_bom(&with_bom), b"[]");
    assert_eq!(strip_bom(b"[]"), b"[]");
}

#[test]
fn votes_parse_with_sign_and_limits() {
    assert_eq!(parse_line("Gen.1.1\tGen.1.2\t+7").unwrap().votes, 7);
    assert_eq!(
        parse_line("Gen.1.1\tGen.1.2\t-9223372036854775808").unwrap().votes,
        i64::MIN
    );
    assert_eq!(parse_line("Gen.1.1\tGen.1.2\t9223372036854775808"), None);
    assert_eq!(parse_line("Gen.1.1\tGen.1.2"), None);
    assert_eq!(parse_osis("Gen.1.1.1"), None);
}
