use kodama::elaborate::{elaborate_text, TextElaborator, TextPiece};

fn assert_text(piece: &TextPiece, expected: &str) {
    match piece {
        TextPiece::Text(text) => assert_eq!(text, expected),
        _ => panic!("expected text piece"),
    }
}

fn assert_inline_html(piece: &TextPiece, expected: &str) {
    match piece {
        TextPiece::Html(html) => assert_eq!(html, expected),
        _ => panic!("expected inline html piece"),
    }
}

#[test]
fn test_wraps_cjk_text_runs() {
    let actual = elaborate_text("hello 中文 world");
    assert_eq!(actual.len(), 5);
    assert_text(&actual[0], "hello ");
    assert_inline_html(&actual[1], r#"<span lang="zh">"#);
    assert_text(&actual[2], "中文");
    assert_inline_html(&actual[3], "</span>");
    assert_text(&actual[4], " world");
}

#[test]
fn test_uses_japanese_lang_when_kana_present() {
    let actual = elaborate_text("答えの潜む琥珀の太阳");
    assert_eq!(actual.len(), 3);
    assert_inline_html(&actual[0], r#"<span lang="ja">"#);
    assert_text(&actual[1], "答えの潜む琥珀の太阳");
    assert_inline_html(&actual[2], "</span>");
}

#[test]
fn test_uses_korean_lang_when_hangul_present() {
    let actual = elaborate_text("한글漢字");
    assert_eq!(actual.len(), 3);
    assert_inline_html(&actual[0], r#"<span lang="ko">"#);
    assert_text(&actual[1], "한글漢字");
    assert_inline_html(&actual[2], "</span>");
}

#[test]
fn test_splits_between_japanese_and_korean_runs() {
    let actual = elaborate_text("かな한글");
    assert_eq!(actual.len(), 6);
    assert_inline_html(&actual[0], r#"<span lang="ja">"#);
    assert_text(&actual[1], "かな");
    assert_inline_html(&actual[2], "</span>");
    assert_inline_html(&actual[3], r#"<span lang="ko">"#);
    assert_text(&actual[4], "한글");
    assert_inline_html(&actual[5], "</span>");
}

#[test]
fn test_uses_default_zh_lang_for_han_only_text() {
    let actual = elaborate_text("中文");
    assert_eq!(actual.len(), 3);
    assert_inline_html(&actual[0], r#"<span lang="zh">"#);
    assert_text(&actual[1], "中文");
    assert_inline_html(&actual[2], "</span>");
}

#[test]
fn test_skips_wrapping_inside_code_block() {
    let mut elaborator = TextElaborator::default();
    elaborator.start_code_block();
    let actual = elaborator.text("中文");
    assert_eq!(actual.len(), 1);
    assert_text(&actual[0], "中文");
    elaborator.end_code_block();
    elaborator.end_code_block();
    assert_eq!(elaborator.in_code_block, 0);
    assert_eq!(elaborator.text("中文").len(), 3);
}

#[test]
fn elaboration_keeps_all_text() {
    let input = "a，中b한c";
    let pieces = elaborate_text(input);
    let text: String = pieces
        .iter()
        .filter_map(|p| match p {
            TextPiece::Text(t) => Some(t.as_str()),
            _ => None,
        })
        .collect();
    assert_eq!(text, input);
    let plain = elaborate_text("");
    assert_eq!(plain.len(), 1);
}
