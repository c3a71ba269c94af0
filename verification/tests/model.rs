use the_light_core::model::{Lang, License, Reference, TranslationId, VerseRange};

#[test]
fn embeddable_licenses() {
    assert!(License::PublicDomain.is_embeddable());
    assert!(License::Cc0.is_embeddable());
    assert!(License::from("cc-by").is_embeddable());
    assert!(License::from("cc-by-sa").is_embeddable());
}

#[test]
fn non_embeddable_licenses() {
    assert!(!License::from("cc-by-nc").is_embeddable());
    assert!(!License::from("cc-by-nd").is_embeddable());
    assert!(!License::from("cc-by-nc-sa").is_embeddable());
    assert!(!License::Proprietary.is_embeddable());
    assert!(!License::from("all-rights-reserved").is_embeddable());
}

#[test]
fn license_roundtrips_text() {
    assert_eq!(License::from("public-domain"), License::PublicDomain);
    assert_eq!(License::PublicDomain.as_str(), "public-domain");
    assert_eq!(License::from("cc-by").as_str(), "cc-by");
}

#[test]
fn lang_parses_names_and_codes() {
    assert_eq!("Português".parse::<Lang>().unwrap(), Lang::Pt);
    assert_eq!(" EN ".parse::<Lang>().unwrap(), Lang::En);
    assert!("klingon".parse::<Lang>().is_err());
    assert_eq!(Lang::En.code(), "en");
}

#[test]
fn verse_range_bounds() {
    let r = VerseRange::Range { start: 16, end: 18 };
    assert_eq!(r.start(), Some(16));
    assert_eq!(r.end(), Some(18));
    assert!(r.contains(17));
    assert!(!r.contains(19));
    assert!(VerseRange::WholeChapter.contains(99));
    let one = Reference::single(43, 3, 16);
    assert_eq!(one.verses.start(), Some(16));
    assert_eq!(Reference::whole_chapter(1, 1).verses.start(), None);
}

#[test]
fn translation_id_is_normalized_once_and_for_all() {
    let id = TranslationId::new("  KJV ");
    assert_eq!(id.as_str(), "kjv");
    let again = TranslationId::new(id.as_str());
    assert_eq!(again, id);
}
