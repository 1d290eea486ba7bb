use plaatbook::markdown::render_markdown;

#[test]
fn test_render_markdown_urls() {
    let input = "Check this out: https://example.com";
    let expected = r#"<p>Check this out: <a href="https://example.com" target="_blank" rel="noreferrer">https://example.com</a></p>"#;
    assert_eq!(render_markdown(input), expected);
}

#[test]
fn test_render_markdown_bold() {
    let input = "This is **bold** text.";
    let expected = r#"<p>This is <b>bold</b> text.</p>"#;
    assert_eq!(render_markdown(input), expected);
}

#[test]
fn test_render_markdown_italic() {
    let input = "This is *italic* text.";
    let expected = r#"<p>This is <i>italic</i> text.</p>"#;
    assert_eq!(render_markdown(input), expected);
}

#[test]
fn test_render_markdown_paragraphs() {
    let input = "First paragraph.\n\nSecond paragraph.";
    let expected = r#"<p>First paragraph.</p><p>Second paragraph.</p>"#;
    assert_eq!(render_markdown(input), expected);
}

#[test]
fn test_render_markdown_combined() {
    let input = "Visit **https://example.com** for more *details*.\n\nThank you!";
    let expected = r#"<p>Visit <b><a href="https://example.com" target="_blank" rel="noreferrer">https://example.com</a></b> for more <i>details</i>.</p><p>Thank you!</p>"#;
    assert_eq!(render_markdown(input), expected);
}

#[test]
fn test_render_markdown_http_scheme_and_empty() {
    assert_eq!(render_markdown(""), "<p></p>");
    assert_eq!(
        render_markdown("go to http://a.b now"),
        r#"<p>go to <a href="http://a.b" target="_blank" rel="noreferrer">http://a.b</a> now</p>"#
    );
}

#[test]
fn test_render_markdown_unpaired_stars() {
    assert_eq!(render_markdown("a * b"), "<p>a * b</p>");
    assert_eq!(render_markdown("**a*b**"), "<p><i></i>a<i>b</i>*</p>");
}
