use mdbook_quiz::escape::escape_attribute;

#[test]
fn plain_text_is_kept() {
    assert_eq!(escape_attribute(""), "");
    assert_eq!(escape_attribute("geo"), "geo");
    assert_eq!(escape_attribute("it's a/b é"), "it's a/b é");
}

#[test]
fn the_four_characters_become_entities() {
    assert_eq!(escape_attribute("&"), "&amp;");
    assert_eq!(escape_attribute("<"), "&lt;");
    assert_eq!(escape_attribute(">"), "&gt;");
    assert_eq!(escape_attribute("\""), "&quot;");
    assert_eq!(escape_attribute("a<b>&\"c\""), "a&lt;b&gt;&amp;&quot;c&quot;");
}

#[test]
fn an_entity_in_the_text_is_escaped_again() {
    assert_eq!(escape_attribute("&quot;"), "&amp;quot;");
    assert_eq!(escape_attribute("&amp;lt;"), "&amp;amp;lt;");
}

#[test]
fn escaped_text_holds_no_quote() {
    let samples = ["\"", "say \"hi\"", "{\"a\":\"x\\\"y\"}", "<a href=\"x\">", "\"\"\"\""];
    for sample in samples {
        let escaped = escape_attribute(sample);
        assert!(!escaped.contains('"'), "for {:?}", sample);
        assert!(!escaped.contains('<'), "for {:?}", sample);
        assert!(!escaped.contains('>'), "for {:?}", sample);
    }
}

#[test]
fn escaped_text_is_read_back() {
    let samples = [
        "",
        "plain",
        "\"",
        "say \"hi\" & <bye>",
        "&quot;",
        "&amp;amp;",
        "&lt",
        "a & b && c",
        "{\"q\":\"What is \\\"x\\\"?\"}",
        "é & 日本語",
    ];
    for sample in samples {
        let escaped = escape_attribute(sample);
        assert_eq!(html_escape::decode_html_entities(&escaped), sample, "for {:?}", sample);
    }
}
