use the_light_core::note_slug::{parse_slug, slug};
use the_light_core::reference::parse_reference;

#[test]
fn slug_roundtrips_for_all_shapes() {
    for r in ["John 3:16", "Genesis 1:1-3", "Psalms 23", "1 John 2:1", "Song of Solomon 1:2"] {
        let reference = parse_reference(r).unwrap();
        let name = slug(&reference);
        assert!(name.ends_with(".md"), "slug termina em .md: {name}");
        let stem = name.strip_suffix(".md").unwrap();
        assert_eq!(parse_slug(stem), Some(reference), "slug {name}");
    }
}

#[test]
fn slug_formats_in_english_with_underscores() {
    let r = parse_reference("João 3:16").unwrap();
    assert_eq!(slug(&r), "John_3.16.md");
    assert_eq!(parse_slug("nada_aqui"), None);
}
