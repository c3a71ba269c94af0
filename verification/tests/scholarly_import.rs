use the_light_core::scholarly::{Kind, ScholarlyError, ScholarlySpec};
use the_light_core::scholarly_import::{
    check_floor, choose_datasets, collect_lexicon, collect_tokens,
};

const GEN_1_1_A: &str =
    "Gen.1.1#01=L\tבְּ/רֵאשִׁ֖ית\tbe./re.Shit\tin/ beginning\tH9003/{H7225G}\tHR/Ncfsa\t\t\tH7225G";
const GEN_1_1_B: &str =
    "Gen.1.1#01=Q\tאחר\tother\tanother reading\tH9003/{H7225G}\tHR/Ncfsa\t\t\tH7225G";
const GEN_1_1_2: &str =
    "Gen.1.1#02=L\tבָּרָ֣א\tba.Ra'\the created\t{H1254A}\tHVqp3ms\t\t\tH1254A";

fn msg(e: ScholarlyError) -> String {
    match e {
        ScholarlyError::Msg(m) => m,
        _ => panic!("expected a message"),
    }
}

#[test]
fn tokens_keep_first_reading_of_each_word() {
    let text = format!("# header\r\n{GEN_1_1_A}\r\n{GEN_1_1_B}\n{GEN_1_1_2}\n");
    let ts = collect_tokens(&text, Kind::HebrewTokens);
    assert_eq!(ts.len(), 2);
    assert_eq!(ts[0].gloss.as_deref(), Some("in beginning"));
    assert_eq!(ts[1].word_index, 2);
}

#[test]
fn greek_tokens_use_the_greek_parser() {
    let line = "Mat.1.1#01=NKO\tΒίβλος (Biblos)\t[The] book\tG0976=N-NSF\tβίβλος=book";
    let text = format!("{line}\n{line}\n");
    let ts = collect_tokens(&text, Kind::GreekTokens);
    assert_eq!(ts.len(), 1);
    assert_eq!(ts[0].book, 40);
    assert!(collect_tokens(&text, Kind::HebrewTokens).is_empty());
}

#[test]
fn lexicon_keeps_first_entry_of_each_strong() {
    let a = "H0001\tH0001G =\tH0001G\tאָב\tav\tH:N-M\tfather\t1) father";
    let b = "H0001\tH0001G =\tH0001G\tאָב\tav\tH:N-M\tother gloss\t2) other";
    let c = "H0002\tH0002 =\tH0002\tאַב\tav\tA:N-M\tfather\tfather";
    let text = format!("{a}\n{b}\n{c}\nnot a row\n");
    let es = collect_lexicon(&text);
    assert_eq!(es.len(), 2);
    assert_eq!(es[0].strongs, "H0001G");
    assert_eq!(es[0].gloss.as_deref(), Some("father"));
    assert_eq!(es[1].strongs, "H0002");
}

#[test]
fn floor_rejects_an_incomplete_dataset() {
    let sp = choose_datasets(&["tbesh".to_string()]).unwrap()[0];
    let e = check_floor(&sp, 12).unwrap_err();
    assert_eq!(msg(e), "apenas 12 entradas em `tbesh` (piso 5000); fonte incompleta?");
    assert!(check_floor(&sp, 5000).is_ok());
    let tahot = choose_datasets(&["tahot".to_string()]).unwrap()[0];
    let e = check_floor(&tahot, 7).unwrap_err();
    assert_eq!(msg(e), "apenas 7 tokens em `tahot` (piso 300000); fonte incompleta?");
}

#[test]
fn choose_datasets_trims_lowercases_and_keeps_order() {
    let chosen: Vec<ScholarlySpec> =
        choose_datasets(&[" TAGNT ".to_string(), "tbesg".to_string()]).unwrap();
    assert_eq!(chosen.len(), 2);
    assert_eq!(chosen[0].id, "tagnt");
    assert_eq!(chosen[0].kind, Kind::GreekTokens);
    assert_eq!(chosen[1].id, "tbesg");
    assert_eq!(chosen[1].kind, Kind::Lexicon);
}

#[test]
fn choose_datasets_rejects_empty_and_unknown() {
    let e = choose_datasets(&[]).unwrap_err();
    assert_eq!(msg(e), "informe ao menos um conjunto (disponíveis: tahot, tagnt, tbesh, tbesg)");
    let e = choose_datasets(&["tahot".to_string(), "SBLGNT".to_string()]).unwrap_err();
    assert_eq!(msg(e), "conjunto desconhecido `sblgnt` (use: tahot, tagnt, tbesh, tbesg)");
}
