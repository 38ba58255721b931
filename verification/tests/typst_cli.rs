use kodama::typst_cli::{html_to_body_content, inline_svg_from_html, TypstOutputError};

#[test]
fn test_html_to_body_content_ok() {
    let html = "<html><p>Hello</p></html>";
    let body = html_to_body_content(html).unwrap();
    assert_eq!(body, "<p>Hello</p>");
}

#[test]
fn test_html_to_body_content_missing_tags() {
    let err = html_to_body_content("<p>Hello</p>");
    assert!(err.is_err());
}

#[test]
fn body_uses_first_open_and_last_close() {
    let body = html_to_body_content("x<html>a</html>b</html>").unwrap();
    assert_eq!(body, "a</html>b");
    assert_eq!(html_to_body_content("<html>a"), Err(TypstOutputError::MissingHtmlClose));
    assert_eq!(html_to_body_content("</html><html>"), Err(TypstOutputError::MalformedHtmlRange));
    assert_eq!(html_to_body_content("a</html>"), Err(TypstOutputError::MissingHtmlOpen));
}

#[test]
fn inline_svg_wraps_paragraph_content() {
    let out = inline_svg_from_html("<html><p><svg/></p></html>").unwrap();
    assert_eq!(out, "\n<span class=\"inline-typst\"><svg/></span>\n");
    assert_eq!(inline_svg_from_html("<svg/>"), Err(TypstOutputError::MissingParagraphOpen));
}
