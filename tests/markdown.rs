use cursor_rust_tools::markdown::{
    extract_lines_after_package, extract_md, find_text, join_lines, remove_backslashes,
    remove_markdown_links, remove_tags, split_lines, starts_with_text,
};

#[test]
fn remove_backslashes_keeps_comment_lines() {
    assert_eq!(remove_backslashes("a\\_b\n// c\\d\n\\*x\\*"), "a_b\n// c\\d\n*x*");
    assert_eq!(remove_backslashes(""), "");
    assert_eq!(remove_backslashes("x\r\ny\n"), "x\ny");
}

#[test]
fn lines_follow_str_lines() {
    for text in ["", "a", "a\n", "a\n\nb", "\n", "a\r\nb\r\n", "\r"] {
        let expected: Vec<String> = text.lines().map(|l| l.to_string()).collect();
        assert_eq!(split_lines(text), expected, "for {:?}", text);
    }
    assert_eq!(join_lines(&vec!["a".to_string(), "".to_string(), "b".to_string()]), "a\n\nb");
}

#[test]
fn text_search() {
    assert!(find_text("hello world", "o w"));
    assert!(find_text("abc", ""));
    assert!(!find_text("abc", "abcd"));
    assert!(!find_text("abc", "ac"));
    assert!(starts_with_text("// x", "//"));
    assert!(!starts_with_text("/ x", "//"));
}

#[test]
fn lines_after_the_crate_header() {
    let page = "Menu\nDocs.rs\n{\"name\": \"anyhow\", \"version\": \"1.0.0\"}\nnav\n[anyhow](/x) 1.0.0\n\nBody one\nBody two";
    assert_eq!(extract_lines_after_package(page), "Body one\nBody two");
}

#[test]
fn lines_after_the_frame_marker() {
    let page = "junk\n<iframe src=\"/-/storage-change-detection.html\" width=\"0\" height=\"0\" style=\"display: none\">\nA\n  \nB";
    assert_eq!(extract_lines_after_package(page), "A\nB");
}

#[test]
fn short_remainders_fall_back_to_what_was_read() {
    let page = "Top\nDocs.rs\nnot json\nOnly";
    assert_eq!(extract_lines_after_package(page), "Top\nDocs.rs");
    assert_eq!(extract_lines_after_package("a\n\nb"), "a\nb");
}

#[test]
fn links_and_tags() {
    assert_eq!(remove_markdown_links("see [Chain](struct.Chain.html) here"), "see Chain here");
    assert_eq!(
        remove_tags("<details class=\"x\"><summary>S</summary><a href=\"y\">T</a></details>"),
        "ST"
    );
}

#[test]
fn whole_page() {
    let html = "<html><head><title>t</title></head><body><script>var x;</script><p>Hello</p></body></html>";
    let md = extract_md(html);
    assert!(md.contains("Hello"));
    assert!(!md.contains("<p>"));
    assert!(!md.contains("var x"));
    assert!(!md.contains("title"));
}
