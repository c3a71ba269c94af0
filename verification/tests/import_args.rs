use the_light_core::import_args::{check_xref_count, parse_scholarly_args, parse_xref_args};

fn args(xs: &[&str]) -> Vec<String> {
    xs.iter().map(|s| s.to_string()).collect()
}

#[test]
fn xref_args_defaults_and_flags() {
    let o = parse_xref_args(&[]).unwrap();
    assert!(o.versions.is_empty());
    assert_eq!(o.db_path, None);
    assert_eq!(o.seed_dir, "data/seed");
    assert!(!o.force && !o.offline);
    let o = parse_xref_args(&args(&["--db", "x.db", "--seed-dir", "s", "--force", "--offline"])).unwrap();
    assert_eq!(o.db_path.as_deref(), Some("x.db"));
    assert_eq!(o.seed_dir, "s");
    assert!(o.force && o.offline);
}

#[test]
fn xref_args_refuse_versions_and_missing_values() {
    assert_eq!(
        parse_xref_args(&args(&["--version", "kjv"])).unwrap_err(),
        "argumento desconhecido para `import-xref`: --version"
    );
    assert_eq!(parse_xref_args(&args(&["--db"])).unwrap_err(), "--db requer caminho");
    assert_eq!(parse_xref_args(&args(&["--seed-dir"])).unwrap_err(), "--seed-dir requer caminho");
}

#[test]
fn scholarly_args_lowercase_and_default_to_every_dataset() {
    let o = parse_scholarly_args(&[]).unwrap();
    assert_eq!(o.versions, vec!["tahot", "tagnt", "tbesh", "tbesg"]);
    assert_eq!(o.seed_dir, "data/seed/scholarly");
    let o = parse_scholarly_args(&args(&["--version", " TAHOT, ,tbesh ", "--offline"])).unwrap();
    assert_eq!(o.versions, vec!["tahot", "tbesh"]);
    assert!(o.offline);
    let o = parse_scholarly_args(&args(&["--version", "tagnt", "--version", "tbesg"])).unwrap();
    assert_eq!(o.versions, vec!["tbesg"]);
    let o = parse_scholarly_args(&args(&["--version", " , "])).unwrap();
    assert_eq!(o.versions.len(), 4);
    assert_eq!(
        parse_scholarly_args(&args(&["--version"])).unwrap_err(),
        "--version requer uma lista (ex.: tahot,tagnt)"
    );
    assert_eq!(
        parse_scholarly_args(&args(&["--bogus"])).unwrap_err(),
        "argumento desconhecido para `import-scholarly`: --bogus"
    );
}

#[test]
fn xref_floor_refuses_incomplete_files() {
    assert_eq!(
        check_xref_count(12).unwrap_err(),
        "apenas 12 referências cruzadas parseadas (esperado ~344.799); fonte incompleta?"
    );
    assert!(check_xref_count(299_999).is_err());
    assert!(check_xref_count(300_000).is_ok());
}
