use kodama::environment::mock_environment;
use kodama::markdown::{MdEvent, Step};
use kodama::slug::Slug;
use kodama::typst_image::{smart_punctuation_reverse, typst_path, TypstImage, TypstOutput};
use pulldown_cmark::{Event, Options, Parser, Tag, TagEnd};

fn events(source: &str) -> Vec<MdEvent> {
    let options = Options::ENABLE_MATH | Options::ENABLE_SMART_PUNCTUATION;
    Parser::new_ext(source, options)
        .map(|e| match e {
            Event::Start(Tag::Link { dest_url, .. }) => MdEvent::LinkStart(dest_url.to_string()),
            Event::End(TagEnd::Link) => MdEvent::LinkEnd,
            Event::Text(t) => MdEvent::Text(t.to_string()),
            Event::Code(c) => MdEvent::Code(c.to_string()),
            Event::InlineMath(m) => MdEvent::InlineMath(m.to_string()),
            Event::DisplayMath(m) => MdEvent::DisplayMath(m.to_string()),
            _ => MdEvent::Other,
        })
        .collect()
}

fn outputs(source: &str, slug: &str) -> Vec<TypstOutput> {
    let env = mock_environment();
    let mut typst = TypstImage::process(Slug::new(slug));
    let mut out = Vec::new();
    for e in events(source) {
        if let Step::Emit(o) = typst.next(&env, &e) {
            out.push(o);
        }
    }
    out
}

#[test]
fn test_typst_path_resolves_relative_paths() {
    let env = mock_environment();
    assert_eq!(typst_path(&env, &Slug::new("guide/chapter/index"), "../fig.typ"), "guide/fig.typ");
}

#[test]
fn test_typst_path_relocates_trees_absolute_paths() {
    let env = mock_environment();
    assert_eq!(typst_path(&env, &Slug::new("guide/index"), "/trees/ref/plot.typ"), "ref/plot.typ");
}

#[test]
fn test_typst_path_normalizes_dot_segments() {
    let env = mock_environment();
    assert_eq!(typst_path(&env, &Slug::new("a/b/index"), "./x/../y.typ"), "a/b/y.typ");
}

#[test]
fn test_block_link_becomes_figure() {
    let out = outputs("[A plot](plot.typ#:block)", "guide/index");
    assert_eq!(out.len(), 1);
    match &out[0] {
        TypstOutput::Html(h) => {
            assert!(h.starts_with("<figure>"));
            assert!(h.contains("src=\"/guide/plot.svg\""));
            assert!(h.contains("A plot"));
        }
        other => panic!("unexpected {:?}", other),
    }
}

#[test]
fn test_span_link_becomes_inline_image() {
    let out = outputs("[](dot.typ#:span)", "index");
    match &out[0] {
        TypstOutput::Html(h) => {
            assert!(!h.contains("<figure>"));
            assert!(h.contains("src=\"/dot.svg\""));
        }
        other => panic!("unexpected {:?}", other),
    }
}

#[test]
fn test_code_and_html_links_name_their_files() {
    let out = outputs("[cap](plot.typ#:code) [](frag.typ#:html)", "guide/index");
    assert_eq!(out.len(), 2);
    match &out[0] {
        TypstOutput::FigureCode { image_src, caption, path } => {
            assert_eq!(image_src, "/guide/plot.svg");
            assert_eq!(caption, "cap");
            assert_eq!(path, "guide/plot.typ");
        }
        other => panic!("unexpected {:?}", other),
    }
    match &out[1] {
        TypstOutput::CompileHtml { source, html_path } => {
            assert_eq!(source, "guide/frag.typ");
            assert_eq!(html_path, "guide/frag.html");
        }
        other => panic!("unexpected {:?}", other),
    }
}

#[test]
fn test_inline_typst_uses_shared_imports_and_math_mode() {
    let out = outputs("[](/lib.typ#:shared) [x + 1](inline-math) [y](inline)", "index");
    assert_eq!(out.len(), 2);
    match &out[0] {
        TypstOutput::InlineSvg(src) => assert_eq!(src, "#import \"/lib.typ\": *\n$x + 1$"),
        other => panic!("unexpected {:?}", other),
    }
    match &out[1] {
        TypstOutput::InlineSvg(src) => assert_eq!(src, "#import \"/lib.typ\": *\ny"),
        other => panic!("unexpected {:?}", other),
    }
}

#[test]
fn test_shared_link_with_named_imports() {
    let out = outputs("[foo, bar](/lib.typ#:shared)[`z`](inline-x-math-y)", "index");
    match &out[0] {
        TypstOutput::InlineSvg(src) => {
            assert_eq!(src, "#import \"/lib.typ\": foo, bar\n$<code>z</code>$")
        }
        other => panic!("unexpected {:?}", other),
    }
}

#[test]
fn test_other_links_pass() {
    let env = mock_environment();
    let mut typst = TypstImage::process(Slug::new("index"));
    assert!(matches!(typst.next(&env, &MdEvent::LinkStart("./page.md".to_string())), Step::Pass));
    assert!(matches!(typst.next(&env, &MdEvent::Text("t".to_string())), Step::Pass));
    assert!(matches!(typst.next(&env, &MdEvent::LinkEnd), Step::Pass));
}

#[test]
fn test_smart_punctuation_reverse() {
    assert_eq!(
        smart_punctuation_reverse("\u{201c}a\u{201d} \u{2018}b\u{2019} \u{2013} \u{2014}"),
        "\"a\" 'b' -- ---"
    );
}
