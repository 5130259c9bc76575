use say_no_to_poetry::{
    accumulate_dependencies, convert_pip_deps_map_to_text, get_poetry_dependencies,
    get_version, merging_deps, process_poetry_version, processing_deps, requirements_text,
    table_get, validate_toml, DepMap, ManifestError, Node,
};

fn s(text: &str) -> String {
    text.to_string()
}

fn table(entries: Vec<(&str, Node)>) -> Node {
    Node::Table(entries.into_iter().map(|(k, v)| (s(k), v)).collect())
}

fn string(text: &str) -> Node {
    Node::Str(s(text))
}

fn manifest(sections: Vec<(&str, Node)>) -> Node {
    table(vec![("tool", table(vec![("poetry", table(sections))]))])
}

#[test]
fn test_poetry_version_conversion() {
    assert_eq!(process_poetry_version(&"^6.2.4".to_string()), ">=6.2.4");
    assert_eq!(
        process_poetry_version(&"^2021.4.11-beta.34".to_string()),
        ">=2021.4.11-beta.34"
    );
    assert_eq!(process_poetry_version(&"\"^1.2\"".to_string()), ">=1.2");
    assert_eq!(process_poetry_version(&"6.2.4".to_string()), "==6.2.4");
}

#[test]
fn caret_rewrite_keeps_the_rest() {
    assert_eq!(process_poetry_version(&s("^0.1")), ">=0.1");
    assert_eq!(process_poetry_version(&s("^")), ">=");
}

#[test]
fn only_the_leading_caret_is_rewritten() {
    assert_eq!(process_poetry_version(&s("^1.0^2")), ">=1.0^2");
}

#[test]
fn bare_literal_is_pinned() {
    assert_eq!(process_poetry_version(&s("1.0.0")), "==1.0.0");
    assert_eq!(process_poetry_version(&s("")), "==");
    assert_eq!(process_poetry_version(&s("~1.2")), "==~1.2");
}

#[test]
fn quotes_and_backslashes_are_stripped() {
    assert_eq!(process_poetry_version(&s("\\\"^3.1\\\"")), ">=3.1");
    assert_eq!(process_poetry_version(&s("\"2.0\"")), "==2.0");
    assert_eq!(process_poetry_version(&s("1\\.2")), "==1.2");
}

#[test]
fn runtime_entry_is_dropped() {
    let mut deps = DepMap::new();
    deps.insert(s("python"), s("^3.9"));
    deps.insert(s("flask"), s("2.0"));
    let out = processing_deps(deps);
    assert_eq!(out.len(), 1);
    assert!(!out.contains_key(&s("python")));
    assert_eq!(out.get(&s("flask")), Some(&s("==2.0")));
}

#[test]
fn later_section_wins_on_merge() {
    let primary = table(vec![("A", string("1.0"))]);
    let secondary = table(vec![("A", string("2.0")), ("B", string("3.0"))]);
    let merged = match merging_deps(vec![&primary, &secondary]) {
        Ok(m) => m,
        Err(_) => panic!("merge failed"),
    };
    assert_eq!(merged.len(), 2);
    assert_eq!(merged.get(&s("A")), Some(&s("2.0")));
    assert_eq!(merged.get(&s("B")), Some(&s("3.0")));
}

#[test]
fn validation_rejects_missing_sections() {
    let doc = manifest(vec![("name", string("demo"))]);
    assert!(!validate_toml(&doc));
    assert!(matches!(requirements_text(&doc), Ok(None)));
    let no_tool = table(vec![("project", table(vec![]))]);
    assert!(!validate_toml(&no_tool));
    let poetry_not_table = table(vec![("tool", table(vec![("poetry", string("x"))]))]);
    assert!(!validate_toml(&poetry_not_table));
    let deps_not_table = manifest(vec![("dependencies", string("x"))]);
    assert!(!validate_toml(&deps_not_table));
}

#[test]
fn validation_accepts_either_section() {
    assert!(validate_toml(&manifest(vec![("dependencies", table(vec![]))])));
    assert!(validate_toml(&manifest(vec![("dev-dependencies", table(vec![]))])));
}

#[test]
fn end_to_end_single_line() {
    let doc = manifest(vec![(
        "dependencies",
        table(vec![("requests", string("^2.25.1")), ("python", string("^3.9"))]),
    )]);
    match requirements_text(&doc) {
        Ok(Some(text)) => assert_eq!(text, "requests>=2.25.1\n"),
        _ => panic!("conversion failed"),
    }
}

#[test]
fn end_to_end_with_dev_dependencies() {
    let doc = manifest(vec![
        ("dependencies", table(vec![("a", string("1.0")), ("b", string("^2.0"))])),
        (
            "dev-dependencies",
            table(vec![("b", table(vec![("version", string("3.0"))]))]),
        ),
    ]);
    match requirements_text(&doc) {
        Ok(Some(text)) => assert_eq!(text, "a==1.0\nb==3.0\n"),
        _ => panic!("conversion failed"),
    }
}

#[test]
fn sections_come_primary_first() {
    let doc = manifest(vec![
        ("dev-dependencies", table(vec![("x", string("1"))])),
        ("dependencies", table(vec![("y", string("2"))])),
    ]);
    let sections = get_poetry_dependencies(&doc);
    assert_eq!(sections.len(), 2);
    assert!(matches!(sections[0], Node::Table(e) if e[0].0 == "y"));
    assert!(matches!(sections[1], Node::Table(e) if e[0].0 == "x"));
}

#[test]
fn version_resolution() {
    assert_eq!(get_version(&string("^1.0")), Some(s("^1.0")));
    let with_version = table(vec![("version", string("2.1")), ("optional", Node::Other)]);
    assert_eq!(get_version(&with_version), Some(s("2.1")));
    assert_eq!(get_version(&Node::Other), Some(s("")));
    assert_eq!(get_version(&table(vec![("git", string("url"))])), None);
}

#[test]
fn missing_version_is_an_error() {
    let deps = table(vec![("ok", string("1")), ("broken", table(vec![("git", string("u"))]))]);
    match accumulate_dependencies(&deps) {
        Err(ManifestError::MissingVersion(name)) => assert_eq!(name, "broken"),
        Ok(_) => panic!("expected an error"),
    }
    let doc = manifest(vec![("dependencies", deps)]);
    assert!(matches!(requirements_text(&doc), Err(ManifestError::MissingVersion(_))));
}

#[test]
fn non_table_section_is_empty() {
    match accumulate_dependencies(&string("x")) {
        Ok(m) => assert_eq!(m.len(), 0),
        Err(_) => panic!("unexpected error"),
    }
}

#[test]
fn table_lookup_takes_the_later_entry() {
    let entries = vec![(s("k"), string("1")), (s("k"), string("2"))];
    assert!(matches!(table_get(&entries, &s("k")), Some(Node::Str(v)) if v == "2"));
    assert!(table_get(&entries, &s("z")).is_none());
}

#[test]
fn map_insert_replace_and_remove() {
    let mut m = DepMap::new();
    m.insert(s("a"), s("1"));
    m.insert(s("b"), s("2"));
    m.insert(s("a"), s("3"));
    assert_eq!(m.len(), 2);
    assert_eq!(m.key_at(0), "a");
    assert_eq!(m.value_at(0), "3");
    m.remove(&s("a"));
    assert_eq!(m.len(), 1);
    assert_eq!(m.get(&s("a")), None);
    m.remove(&s("zz"));
    assert_eq!(m.len(), 1);
}

#[test]
fn text_has_one_line_per_entry() {
    let mut m = DepMap::new();
    m.insert(s("numpy"), s(">=1.20"));
    m.insert(s("six"), s("==1.16.0"));
    assert_eq!(convert_pip_deps_map_to_text(m), "numpy>=1.20\nsix==1.16.0\n");
    assert_eq!(convert_pip_deps_map_to_text(DepMap::new()), "");
}
