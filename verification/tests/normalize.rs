use diff_push::html::normalize_text;
use diff_push::html::parse_html_text;

#[test]
fn example_page_normalizes() {
    let r = parse_html_text("<body><p>Hello   World</p><script>ignored</script></body>");
    assert_eq!(r, "hello world");
}

#[test]
fn script_text_is_excluded() {
    let r = parse_html_text("<body><div>A</div><script>var x = 1;</script><div>B</div></body>");
    assert_eq!(r, "a b");
}

#[test]
fn normalize_is_idempotent_on_examples() {
    for s in [
        "  Hello \t\n World  ",
        "already normal",
        "",
        "\t\r\n",
        "MiXeD CaSe\u{00A0}Spaces",
        "a  b   c",
    ] {
        let once = normalize_text(s);
        let twice = normalize_text(&once);
        assert_eq!(once, twice);
    }
}

#[test]
fn normalize_collapses_and_trims() {
    assert_eq!(normalize_text("  A \t B\r\nC  "), "a b c");
    assert_eq!(normalize_text(""), "");
    assert_eq!(normalize_text("   \t  "), "");
    assert_eq!(normalize_text("ONE"), "one");
}

#[test]
fn normalize_handles_unicode_whitespace() {
    assert_eq!(normalize_text("a\u{00A0}\u{2003}b\u{3000}"), "a b");
}

#[test]
fn normalize_keeps_non_ascii_letters() {
    assert_eq!(normalize_text("Grüße  WELT"), "grüße welt");
}

#[test]
fn malformed_html_still_normalizes() {
    // the parse recovers from any input; a nested selected element repeats
    // its text, since every element under body contributes its own content
    assert_eq!(parse_html_text("<body><p>Broken <b>MARKUP</body>"), "broken markup markup");
    assert_eq!(parse_html_text(""), "");
}
