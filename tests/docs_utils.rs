use cursor_rust_tools::docs::{
    extract_crate_and_path, page_symbol, page_version, parse_rust_symbol, path_to_cache_key,
    DocsCache, DocsIndex, RustSymbol,
};
use cursor_rust_tools::path::ProjectPath;

fn path(parts: &[&str]) -> ProjectPath {
    ProjectPath::from_components(parts.iter().map(|p| p.to_string()).collect())
}

#[test]
fn test_parse_rust_symbol() {
    assert_eq!(
        parse_rust_symbol("fn.Ok.html"),
        Some(RustSymbol::Function("Ok"))
    );
    assert_eq!(
        parse_rust_symbol("macro.ensure!.html"),
        Some(RustSymbol::Macro("ensure"))
    );
    assert_eq!(
        parse_rust_symbol("struct.Chain.html"),
        Some(RustSymbol::Struct("Chain"))
    );
    assert_eq!(
        parse_rust_symbol("trait.Context.html"),
        Some(RustSymbol::Trait("Context"))
    );
    assert_eq!(parse_rust_symbol("invalid"), None);
}

#[test]
fn test_to_string() {
    assert_eq!(RustSymbol::Function("Ok").to_string(), "fn Ok");
    assert_eq!(RustSymbol::Macro("ensure").to_string(), "macro ensure!");
    assert_eq!(RustSymbol::Struct("Chain").to_string(), "struct Chain");
    assert_eq!(RustSymbol::Trait("Context").to_string(), "trait Context");
    assert_eq!(RustSymbol::Type("Result").to_string(), "type Result");
    assert_eq!(RustSymbol::Enum("Option").to_string(), "enum Option");
}

#[test]
fn parse_rust_symbol_edge_cases() {
    assert_eq!(parse_rust_symbol("enum.Option"), Some(RustSymbol::Enum("Option")));
    assert_eq!(parse_rust_symbol("type.Result.html"), Some(RustSymbol::Type("Result")));
    assert_eq!(parse_rust_symbol("index.html"), None);
    assert_eq!(parse_rust_symbol("constant.MAX.html"), None);
    assert_eq!(parse_rust_symbol("fn."), Some(RustSymbol::Function("")));
}

#[test]
fn page_symbol_falls_back_to_the_path() {
    assert_eq!(page_symbol("struct.Chain.html"), "struct Chain");
    assert_eq!(page_symbol("macro.ensure!.html"), "macro ensure!");
    assert_eq!(page_symbol("all.html"), "all.html");
}

#[test]
fn crate_and_path_split_at_first_slash() {
    assert_eq!(
        extract_crate_and_path("anyhow/struct.Chain.html"),
        Some(("anyhow", "struct.Chain.html"))
    );
    assert_eq!(extract_crate_and_path("a/b/c.html"), Some(("a", "b/c.html")));
    assert_eq!(extract_crate_and_path("index.html"), None);
}

#[test]
fn cache_key_is_relative_to_docs_dir() {
    let docs = path(&["p", ".docs-cache", "doc"]);
    let page = path(&["p", ".docs-cache", "doc", "anyhow", "fn.Ok.html"]);
    assert_eq!(path_to_cache_key(&page, &docs), Some("anyhow/fn.Ok.html".to_string()));
    assert_eq!(path_to_cache_key(&path(&["q", "x.html"]), &docs), None);
}

fn sample_index() -> DocsIndex {
    let mut cache = DocsCache::empty();
    cache.record_page("anyhow", "fn Ok".to_string(), "Ok docs".to_string(), "1.0".to_string());
    cache.record_page(
        "anyhow",
        "struct Chain".to_string(),
        "Chain docs".to_string(),
        "1.0".to_string(),
    );
    DocsIndex::from_parts(vec![("anyhow".to_string(), "1.0".to_string())], cache)
}

#[test]
fn docs_index_lookups() {
    let index = sample_index();
    assert_eq!(
        index.symbols("anyhow"),
        Some(vec!["fn Ok".to_string(), "struct Chain".to_string()])
    );
    assert_eq!(index.symbols("serde"), None);
    assert_eq!(
        index.docs("anyhow", &vec!["struct Chain".to_string(), "fn Missing".to_string()]),
        Some(vec![("struct Chain".to_string(), "Chain docs".to_string())])
    );
    assert_eq!(
        index.markdown_docs("anyhow"),
        Some("fn Ok\nfn Ok\nOk docs\nstruct Chain\nstruct Chain\nChain docs\n".to_string())
    );
    assert_eq!(index.markdown_docs("serde"), None);
}

#[test]
fn recording_a_page_again_replaces_its_text() {
    let mut cache = DocsCache::empty();
    cache.record_page("anyhow", "fn Ok".to_string(), "old".to_string(), "1.0".to_string());
    cache.record_page("anyhow", "fn Ok".to_string(), "new".to_string(), "1.1".to_string());
    assert_eq!(cache.deps.len(), 1);
    assert_eq!(cache.deps[0].1, vec![("fn Ok".to_string(), "new".to_string())]);
    assert_eq!(cache.crate_versions, vec![("anyhow".to_string(), "1.1".to_string())]);
}

#[test]
fn crate_docs_errors() {
    let empty = DocsIndex::new_empty();
    assert_eq!(
        empty.crate_docs("anyhow"),
        Err("No dependencies found. Please update the docs cache first".to_string())
    );
    let index = sample_index();
    assert_eq!(
        index.crate_docs("serde"),
        Err("No docs found for crate: serde".to_string())
    );
    assert_eq!(
        index.crate_symbol_docs("anyhow", "fn Ok"),
        Ok(vec![("fn Ok".to_string(), "Ok docs".to_string())])
    );
    assert_eq!(index.crate_symbol_docs("anyhow", "fn Nope"), Ok(vec![]));
}

#[test]
fn page_version_rules() {
    let deps = vec![
        ("anyhow".to_string(), "1.0".to_string()),
        ("serde".to_string(), "1.2".to_string()),
    ];
    let mut cache = DocsCache::empty();
    cache.crate_versions.push(("serde".to_string(), "1.2".to_string()));
    let ignore = vec!["tokio".to_string()];
    assert_eq!(page_version("anyhow", &deps, &ignore, &cache), Some(&"1.0".to_string()));
    assert_eq!(page_version("serde", &deps, &ignore, &cache), None);
    assert_eq!(page_version("regex", &deps, &ignore, &cache), None);
    let ignore_anyhow = vec!["anyhow".to_string()];
    assert_eq!(page_version("anyhow", &deps, &ignore_anyhow, &cache), None);
}
