use the_light_core::export::{export_format, slugify, ExportFormat};

#[test]
fn slugify_lowercases_and_dashes() {
    assert_eq!(slugify("Ef 2.8-9 (Presb.)"), "ef-2-8-9-presb");
    assert_eq!(slugify("João 3:16"), "jo-o-3-16");
    assert_eq!(slugify("---a---"), "a");
}

#[test]
fn slugify_of_nothing_alphanumeric_is_empty() {
    assert_eq!(slugify(" ... "), "");
    assert_eq!(slugify(""), "");
}

#[test]
fn export_format_by_extension() {
    assert_eq!(export_format(None), ExportFormat::Markdown);
    assert_eq!(export_format(Some("md")), ExportFormat::Markdown);
    assert_eq!(export_format(Some("markdown")), ExportFormat::Markdown);
    assert_eq!(export_format(Some("pdf")), ExportFormat::Pandoc);
    assert_eq!(export_format(Some("MD")), ExportFormat::Pandoc);
}
