use kodama::elaborate::{TextElaborator, TextPiece};
use kodama::embed::{Embed, EmbedOutput};
use kodama::markdown::{MdEvent, Step};
use kodama::section::SectionOption;
use kodama::slug::Slug;
use pulldown_cmark::{Event, Options, Parser, Tag, TagEnd};

const ASSETS_DIR: &str = "assets";
const TREES_DIR: &str = "trees";

/// The events of a markdown source, with CJK text elaborated.
fn elaborated_events(source: &str) -> Vec<MdEvent> {
    let options = Options::ENABLE_MATH | Options::ENABLE_SMART_PUNCTUATION | Options::ENABLE_FOOTNOTES;
    let mut elaborator = TextElaborator::default();
    let mut out = Vec::new();
    for e in Parser::new_ext(source, options) {
        match e {
            Event::Start(Tag::Link { dest_url, .. }) => out.push(MdEvent::LinkStart(dest_url.to_string())),
            Event::End(TagEnd::Link) => out.push(MdEvent::LinkEnd),
            Event::Start(Tag::CodeBlock(_)) => {
                elaborator.start_code_block();
                out.push(MdEvent::Other);
            }
            Event::End(TagEnd::CodeBlock) => {
                elaborator.end_code_block();
                out.push(MdEvent::Other);
            }
            Event::Text(t) => {
                for piece in elaborator.text(&t) {
                    out.push(match piece {
                        TextPiece::Text(s) => MdEvent::Text(s),
                        TextPiece::Html(s) => MdEvent::InlineHtml(s),
                    });
                }
            }
            Event::Code(c) => out.push(MdEvent::Code(c.to_string())),
            Event::InlineMath(m) => out.push(MdEvent::InlineMath(m.to_string())),
            Event::DisplayMath(m) => out.push(MdEvent::DisplayMath(m.to_string())),
            Event::InlineHtml(h) => out.push(MdEvent::InlineHtml(h.to_string())),
            Event::Html(h) => out.push(MdEvent::Html(h.to_string())),
            Event::Start(Tag::Paragraph) => out.push(MdEvent::ParagraphStart),
            Event::End(TagEnd::Paragraph) => out.push(MdEvent::ParagraphEnd),
            _ => out.push(MdEvent::Other),
        }
    }
    out
}

enum Out {
    Passed(MdEvent),
    Made(EmbedOutput),
}

fn run(source: &str, slug: &str) -> Vec<Out> {
    let mut embed = Embed::process_with_roots(Slug::new(slug), ASSETS_DIR.to_string(), TREES_DIR.to_string());
    let mut out = Vec::new();
    for e in elaborated_events(source) {
        match embed.next(&e) {
            Step::Pass => out.push(Out::Passed(e)),
            Step::Absorb => {}
            Step::Emit(o) => out.push(Out::Made(o)),
        }
    }
    out
}

#[test]
fn test_unsafe_link_is_downgraded_to_plain_text_event() {
    let actual = run("[click](javascript:alert(1))", "index");
    assert!(actual
        .iter()
        .any(|o| matches!(o, Out::Made(EmbedOutput::Text(text)) if text == "click")));
    assert!(!actual.iter().any(|o| matches!(
        o,
        Out::Made(EmbedOutput::Html(_)) | Out::Passed(MdEvent::Html(_)) | Out::Passed(MdEvent::InlineHtml(_))
    )));
}

#[test]
fn test_local_link_keeps_text_elaborator_inline_html_in_link_text() {
    let actual = run("[中文](./target)", "index");
    let locals: Vec<_> = actual
        .iter()
        .filter_map(|o| match o {
            Out::Made(EmbedOutput::Local(l)) => Some(l),
            _ => None,
        })
        .collect();
    assert_eq!(locals.len(), 1);
    assert!(!actual.iter().any(|o| matches!(o, Out::Passed(MdEvent::InlineHtml(_)))));
    assert_eq!(locals[0].url, "/target");
    assert_eq!(locals[0].text.as_deref(), Some(r#"<span lang="zh">中文</span>"#));
}

#[test]
fn test_asset_link_title_strips_text_elaborator_inline_html() {
    let actual = run("[中文](/assets/image.png)", "index");
    let html = actual
        .iter()
        .find_map(|o| match o {
            Out::Made(EmbedOutput::Html(h)) => Some(h.as_str()),
            _ => None,
        })
        .expect("expected an html link event");
    assert!(html.contains(r#"class="link asset""#));
    assert!(html.contains(r#"href="/assets/image.png""#));
    assert!(html.contains(r#"title="中文""#));
    assert!(!html.contains(r#"title="<span"#));
    assert!(!html.contains("&lt;span"));
    assert!(html.contains(r#"><span lang="zh">中文</span></a>"#));
}

#[test]
fn test_embed_link_becomes_embed_with_options_and_title() {
    let actual = run("[+-Chapter *one*](./child.md#:embed)", "book/index");
    let embeds: Vec<_> = actual
        .iter()
        .filter_map(|o| match o {
            Out::Made(EmbedOutput::Embed(e)) => Some(e),
            _ => None,
        })
        .collect();
    assert_eq!(embeds.len(), 1);
    assert_eq!(embeds[0].url, "/book/child.md");
    assert_eq!(embeds[0].option, SectionOption::new(true, false, true));
    assert_eq!(embeds[0].title.as_deref(), Some("Chapter one"));
}

#[test]
fn test_embed_without_text_has_no_title() {
    let actual = run("[](/trees/a.md#:embed)", "index");
    match actual.iter().find(|o| matches!(o, Out::Made(EmbedOutput::Embed(_)))) {
        Some(Out::Made(EmbedOutput::Embed(e))) => {
            assert_eq!(e.url, "/a.md");
            assert_eq!(e.title, None);
            assert_eq!(e.option, SectionOption::default());
        }
        _ => panic!("expected an embed"),
    }
}

#[test]
fn test_external_link_escapes_text_and_titles_with_url() {
    let actual = run("[a <b> & c](https://example.com)", "index");
    let html = actual
        .iter()
        .find_map(|o| match o {
            Out::Made(EmbedOutput::Html(h)) => Some(h.clone()),
            _ => None,
        })
        .expect("expected an html link");
    assert_eq!(
        html,
        "<span class=\"link external\"><a href=\"https://example.com\" title=\"a  &amp;amp; c [https://example.com]\">a <b> &amp; c</a></span>"
    );
}

#[test]
fn test_external_link_whose_text_is_its_url() {
    let actual = run("<https://example.com>", "index");
    let html = actual
        .iter()
        .find_map(|o| match o {
            Out::Made(EmbedOutput::Html(h)) => Some(h.clone()),
            _ => None,
        })
        .expect("expected an html link");
    assert!(html.contains("title=\"https://example.com\""));
}

#[test]
fn test_include_link_names_file_and_language() {
    let actual = run("[rust](./code/main.rs#:include)", "docs/page");
    match actual.iter().find(|o| matches!(o, Out::Made(EmbedOutput::Include { .. }))) {
        Some(Out::Made(EmbedOutput::Include { url, language })) => {
            assert_eq!(url, "docs/code/main.rs");
            assert_eq!(language, "rust");
        }
        _ => panic!("expected an include"),
    }
    let actual = run("[](/snippet.txt#:include)", "docs/page");
    match actual.iter().find(|o| matches!(o, Out::Made(EmbedOutput::Include { .. }))) {
        Some(Out::Made(EmbedOutput::Include { url, language })) => {
            assert_eq!(url, "snippet.txt");
            assert_eq!(language, "plain");
        }
        _ => panic!("expected an include"),
    }
}

#[test]
fn test_math_outside_links_becomes_dollar_text() {
    let actual = run("$x$ and $$y$$", "index");
    let texts: Vec<String> = actual
        .iter()
        .filter_map(|o| match o {
            Out::Made(EmbedOutput::Text(t)) => Some(t.clone()),
            _ => None,
        })
        .collect();
    assert_eq!(texts, vec!["$x$".to_string(), "$$y$$".to_string()]);
}

#[test]
fn test_plain_text_and_unknown_links_pass() {
    let mut embed = Embed::process_with_roots(Slug::new("index"), ASSETS_DIR.to_string(), TREES_DIR.to_string());
    assert!(matches!(embed.next(&MdEvent::Text("hi".to_string())), Step::Pass));
    assert!(matches!(embed.next(&MdEvent::LinkStart("local-dir/".to_string())), Step::Pass));
    assert!(matches!(embed.next(&MdEvent::LinkEnd), Step::Pass));
}

#[test]
fn test_include_block_escapes_file_text() {
    assert_eq!(
        kodama::html::html_include_block("a < b && c", "rs"),
        "<pre><code class=\"language-rs\">a &lt; b &amp;&amp; c</code></pre>"
    );
}

#[test]
fn local_link_text_is_rendered_with_escaping() {
    let actual = run("[a & b `<c>`](./target)", "index");
    let texts: Vec<Option<String>> = actual
        .iter()
        .filter_map(|o| match o {
            Out::Made(EmbedOutput::Local(l)) => Some(l.text.clone()),
            _ => None,
        })
        .collect();
    assert_eq!(texts, vec![Some("a &amp; b <code>&lt;c&gt;</code>".to_string())]);
}
