use kodama::elaborate::{elaborate_text, TextPiece};
use kodama::entry::HTMLMetaData;
use kodama::figure::{filter_raw_html, formula_disambiguate, ignore_paragraph, Figure2, KatexCompat2};
use kodama::footnote::Footnote;
use kodama::markdown::{MdEvent, Step};
use kodama::metadata::{
    parse_metadata_lines, parse_metadata_value, split_lines, Metadata, MetadataOutput,
};
use kodama::section::HTMLContent;
use kodama::slug::Slug;

fn html_of(step: Step<MdEvent>) -> String {
    match step {
        Step::Emit(MdEvent::Html(h)) => h,
        other => panic!("expected html, got {:?}", other),
    }
}

#[test]
fn test_footnotes_are_numbered_in_order_of_first_sight() {
    let mut f = Footnote::process(Slug::new("a/b"));
    let r1 = html_of(f.next(&MdEvent::FootnoteReference("x".to_string())));
    assert_eq!(
        r1,
        "<sup class=\"footnote-reference\" id=\"a_b_x-back\"><a href=\"#a_b_x\">1</a></sup>"
    );
    let r2 = html_of(f.next(&MdEvent::FootnoteReference("y".to_string())));
    assert!(r2.contains(">2</a>"));
    let d1 = html_of(f.next(&MdEvent::FootnoteDefinition("x".to_string())));
    assert_eq!(
        d1,
        "<div class=\"footnote-definition\" id=\"a_b_x\">\n  <sup class=\"footnote-definition-label\"><a href=\"#a_b_x-back\">1</a></sup>"
    );
    assert!(matches!(f.next(&MdEvent::Text("t".to_string())), Step::Pass));
}

#[test]
fn test_image_becomes_img_with_escaped_title() {
    let mut fig = Figure2::new();
    assert!(matches!(fig.next(&MdEvent::ImageStart("/a.png".to_string())), Step::Absorb));
    assert!(matches!(fig.next(&MdEvent::Text("a \"b\" ".to_string())), Step::Absorb));
    assert!(matches!(fig.next(&MdEvent::Text("& c".to_string())), Step::Absorb));
    let html = html_of(fig.next(&MdEvent::ImageEnd));
    assert_eq!(
        html,
        "<img src=\"/a.png\" title=\"a &quot;b&quot; &amp; c\" alt=\"a &quot;b&quot; &amp; c\">"
    );
    assert!(matches!(fig.next(&MdEvent::Text("after".to_string())), Step::Pass));
}

#[test]
fn test_formulas_get_spaces_around_less_than() {
    assert_eq!(formula_disambiguate("a<b"), "a < b");
    let k = KatexCompat2::new();
    match k.next(&MdEvent::InlineMath("x<y".to_string())) {
        Step::Emit(MdEvent::InlineMath(m)) => assert_eq!(m, "x < y"),
        other => panic!("unexpected {:?}", other),
    }
    assert!(matches!(k.next(&MdEvent::Text("<".to_string())), Step::Pass));
}

fn raw_html_events() -> Vec<MdEvent> {
    vec![
        MdEvent::Text("safe ".to_string()),
        MdEvent::InlineHtml("<span>".to_string()),
        MdEvent::Text("ok".to_string()),
        MdEvent::InlineHtml("</span>".to_string()),
    ]
}

#[test]
fn test_filter_raw_html_drops_html_when_unsafe_html_is_disabled() {
    let actual = filter_raw_html(raw_html_events(), false);
    assert!(matches!(&actual[0], MdEvent::Text(text) if text == "safe "));
    assert!(matches!(&actual[1], MdEvent::Text(text) if text == "ok"));
    assert_eq!(actual.len(), 2);
}

#[test]
fn test_filter_raw_html_preserves_html_when_unsafe_html_is_enabled() {
    let actual = filter_raw_html(raw_html_events(), true);
    assert!(matches!(&actual[0], MdEvent::Text(text) if text == "safe "));
    assert!(matches!(&actual[1], MdEvent::InlineHtml(text) if text == "<span>"));
    assert!(matches!(&actual[2], MdEvent::Text(text) if text == "ok"));
    assert!(matches!(&actual[3], MdEvent::InlineHtml(text) if text == "</span>"));
}

#[test]
fn test_ignore_paragraph_drops_paragraph_events() {
    let events = vec![
        MdEvent::ParagraphStart,
        MdEvent::Text("x".to_string()),
        MdEvent::ParagraphEnd,
    ];
    let actual = ignore_paragraph(events);
    assert_eq!(actual.len(), 1);
    assert!(matches!(&actual[0], MdEvent::Text(t) if t == "x"));
}

fn metadata_with_slug(slug: &str) -> HTMLMetaData {
    let mut metadata = HTMLMetaData::new();
    metadata.insert("slug".to_string(), HTMLContent::Plain(slug.to_string()));
    metadata
}

/// What the markdown of a short metadata value renders to: its text with
/// CJK runs marked.
fn rendered(value: &str) -> HTMLContent {
    let mut out = String::new();
    for piece in elaborate_text(value) {
        match piece {
            TextPiece::Text(t) => out.push_str(&t),
            TextPiece::Html(h) => out.push_str(&h),
        }
    }
    HTMLContent::Plain(out)
}

fn parse_metadata(s: &str, metadata: &mut HTMLMetaData) {
    let slug = metadata.get_str("slug").unwrap().to_string();
    for (k, v) in parse_metadata_lines(s, &slug).unwrap() {
        let value = parse_metadata_value(&k, &v, rendered(&v));
        metadata.insert(k, value);
    }
}

#[test]
fn test_page_title_is_plain_text_and_not_elaborated() {
    let mut metadata = metadata_with_slug("index");
    parse_metadata("page-title: 中文", &mut metadata);
    let parsed = metadata.get_str("page-title").unwrap_or_default().to_string();
    assert_eq!(parsed, "中文");
    assert!(!parsed.contains("<span"));
}

#[test]
fn test_title_stays_rich_and_allows_text_elaboration() {
    let mut metadata = metadata_with_slug("index");
    parse_metadata("title: 中文", &mut metadata);
    let parsed = metadata.get_str("title").unwrap_or_default().to_string();
    assert!(parsed.contains("<span lang=\"zh\">"));
}

#[test]
fn test_taxon_keeps_display_formatting() {
    let mut metadata = metadata_with_slug("index");
    parse_metadata("taxon: remark", &mut metadata);
    let parsed = metadata.get_str("taxon").unwrap_or_default().to_string();
    assert_eq!(parsed, "Remark. ");
}

#[test]
fn test_metadata_lines_report_the_bad_line() {
    let err = parse_metadata_lines("title: a\n\nnot a pair\r\n", "notes/x").unwrap_err();
    assert_eq!(
        err.message(),
        "invalid metadata in `notes/x` at line 3: expected `name: value`, found `not a pair`"
    );
    let ok = parse_metadata_lines(" a : b: c \n\n  x:y", "s").unwrap();
    assert_eq!(ok, vec![("a".to_string(), "b: c".to_string()), ("x".to_string(), "y".to_string())]);
}

#[test]
fn test_split_lines_follows_str_lines() {
    for s in ["", "a", "a\n", "a\r\nb", "\n\nc\r", "x\ny\n\n"] {
        let expected: Vec<String> = s.lines().map(|l| l.to_string()).collect();
        assert_eq!(split_lines(s), expected, "input {:?}", s);
    }
}

#[test]
fn test_metadata_block_gives_entries_or_errors() {
    let metadata = metadata_with_slug("index");
    let mut m = Metadata::process();
    assert!(matches!(m.next(&metadata, &MdEvent::Text("outside".to_string())), Step::Pass));
    assert!(matches!(m.next(&metadata, &MdEvent::MetadataStart), Step::Absorb));
    match m.next(&metadata, &MdEvent::Text("title: T\ntaxon: t".to_string())) {
        Step::Emit(MetadataOutput::Entries(v)) => assert_eq!(v.len(), 2),
        other => panic!("unexpected {:?}", other),
    }
    match m.next(&HTMLMetaData::new(), &MdEvent::Text("title: T".to_string())) {
        Step::Emit(MetadataOutput::Failed(e)) => {
            assert_eq!(e.message(), "missing `slug` while parsing metadata block")
        }
        other => panic!("unexpected {:?}", other),
    }
    assert!(matches!(m.next(&metadata, &MdEvent::MetadataEnd), Step::Absorb));
    assert!(matches!(m.next(&metadata, &MdEvent::Text("body".to_string())), Step::Pass));
}
