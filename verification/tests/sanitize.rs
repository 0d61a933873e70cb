use vibeking::transcript::sanitize_output;


#[test]
fn passes_clean_text_through() {
    assert_eq!(sanitize_output("hello world"), "hello world");
    assert_eq!(sanitize_output("你好世界"), "你好世界");
}

#[test]
fn strips_leading_ascii_punctuation() {
    assert_eq!(sanitize_output(". hello world"), "hello world");
    assert_eq!(sanitize_output(", hello"), "hello");
    assert_eq!(sanitize_output("! hello"), "hello");
}

#[test]
fn strips_leading_cjk_punctuation() {
    assert_eq!(sanitize_output("。你好"), "你好");
    assert_eq!(sanitize_output("，世界"), "世界");
    assert_eq!(sanitize_output("、 测试"), "测试");
}

#[test]
fn strips_only_one_leading_punctuation() {
    // Conservative: only the first char is stripped, so legitimate
    // "..." or "?!" mid-content survives if it isn't the first artifact.
    assert_eq!(sanitize_output("..hello"), ".hello");
}

#[test]
fn trims_outer_whitespace() {
    assert_eq!(sanitize_output("   hello   "), "hello");
    assert_eq!(sanitize_output("\n\t hello \t\n"), "hello");
}

#[test]
fn preserves_internal_punctuation() {
    assert_eq!(
        sanitize_output("hello, world. how are you?"),
        "hello, world. how are you?"
    );
}

#[test]
fn empty_and_whitespace_only() {
    assert_eq!(sanitize_output(""), "");
    assert_eq!(sanitize_output("   "), "");
    assert_eq!(sanitize_output("."), "");
}
