use cursor_rust_tools::manifest::{
    collect_dependencies, get, less_text, member_patterns, sort_dedup_by_name, TomlValue,
};

fn s(v: &str) -> TomlValue {
    TomlValue::String(v.to_string())
}

fn table(entries: Vec<(&str, TomlValue)>) -> TomlValue {
    TomlValue::Table(entries.into_iter().map(|(k, v)| (k.to_string(), v)).collect())
}

fn pairs(v: &[(&str, &str)]) -> Vec<(String, String)> {
    v.iter().map(|(a, b)| (a.to_string(), b.to_string())).collect()
}

fn package_manifest() -> TomlValue {
    table(vec![
        ("package", table(vec![("name", s("demo"))])),
        (
            "dependencies",
            table(vec![
                ("serde", table(vec![("version", s("1.0")), ("features", TomlValue::Array(vec![s("derive")]))])),
                ("anyhow", s("1")),
                ("local", table(vec![("path", s("../local"))])),
            ]),
        ),
        ("dev-dependencies", table(vec![("anyhow", s("2")), ("tempfile", s("3"))])),
        (
            "target",
            table(vec![("cfg(unix)", table(vec![("dependencies", table(vec![("libc", s("0.2"))]))]))]),
        ),
    ])
}

#[test]
fn package_dependencies_sorted_and_unique() {
    let manifest = package_manifest();
    assert!(member_patterns(&manifest).is_none());
    let deps = collect_dependencies(&manifest, &vec![package_manifest()]);
    assert_eq!(
        deps,
        pairs(&[("anyhow", "1"), ("libc", "0.2"), ("serde", "1.0"), ("tempfile", "3")])
    );
}

#[test]
fn workspace_dependencies_come_first() {
    let root = table(vec![(
        "workspace",
        table(vec![
            ("members", TomlValue::Array(vec![s("crates/*"), TomlValue::Other])),
            ("dependencies", table(vec![("tokio", s("1.40"))])),
        ]),
    )]);
    assert_eq!(member_patterns(&root), Some(vec!["crates/*".to_string()]));
    let member = table(vec![("dependencies", table(vec![("tokio", s("1.0")), ("bytes", s("1"))]))]);
    let deps = collect_dependencies(&root, &vec![member]);
    assert_eq!(deps, pairs(&[("bytes", "1"), ("tokio", "1.40")]));
    assert!(get(&root, "package").is_none());
}

#[test]
fn sorting_keeps_first_versions() {
    let deps = pairs(&[("b", "1"), ("a", "2"), ("b", "3"), ("A", "4"), ("a", "5")]);
    assert_eq!(sort_dedup_by_name(&deps), pairs(&[("A", "4"), ("a", "2"), ("b", "1")]));
    assert!(less_text("ab", "abc"));
    assert!(!less_text("abc", "ab"));
    assert!(less_text("Z", "a"));
    assert!(!less_text("x", "x"));
}
