use std::collections::HashSet;

use kodama::embed::{Embed, EmbedOutput};
use kodama::entry::HTMLMetaData;
use kodama::markdown::{MdEvent, Step};
use kodama::markdown_sections::{parse_markdown_sections, SectionsError};
use kodama::metadata::{parse_metadata_value, Metadata, MetadataOutput};
use kodama::references::{compose_subtree_source, extract_shared_reference_definitions};
use kodama::sections::{apply_subtree_defaults, patch_root_subtree_embeds};
use kodama::subtree::extract_subtrees_root;
use kodama::section::{ContentBuilder, HTMLContent, LazyContent, UnresolvedSection};
use kodama::slug::Slug;
use kodama::typst_html::{key_internal_anon_subtree, key_source_slug};
use pulldown_cmark::{Event, Options, Parser, Tag, TagEnd};

/// A section parsed from markdown: its metadata block is read, links go
/// through the embed processor, and text is kept as plain content.
fn parse_section(source: &str, slug: &str) -> UnresolvedSection {
    let mut metadata = HTMLMetaData::new();
    metadata.insert("slug".to_string(), HTMLContent::Plain(slug.to_string()));
    metadata.insert("ext".to_string(), HTMLContent::Plain("md".to_string()));
    let mut meta = Metadata::process();
    let mut embed = Embed::process_with_roots(Slug::new(slug), "assets".to_string(), "trees".to_string());
    let mut builder = ContentBuilder::new();
    for e in Parser::new_ext(source, Options::ENABLE_YAML_STYLE_METADATA_BLOCKS) {
        let model = match &e {
            Event::Start(Tag::MetadataBlock(_)) => MdEvent::MetadataStart,
            Event::End(TagEnd::MetadataBlock(_)) => MdEvent::MetadataEnd,
            Event::Start(Tag::Link { dest_url, .. }) => MdEvent::LinkStart(dest_url.to_string()),
            Event::End(TagEnd::Link) => MdEvent::LinkEnd,
            Event::Text(t) => MdEvent::Text(t.to_string()),
            _ => MdEvent::Other,
        };
        match meta.next(&metadata, &model) {
            Step::Absorb => continue,
            Step::Emit(MetadataOutput::Entries(entries)) => {
                for (key, value) in entries {
                    let parsed = parse_metadata_value(&key, &value, HTMLContent::Plain(value.clone()));
                    metadata.insert(key, parsed);
                }
                continue;
            }
            Step::Emit(MetadataOutput::Failed(err)) => panic!("{}", err.message()),
            Step::Pass => {}
        }
        match embed.next(&model) {
            Step::Emit(EmbedOutput::Embed(c)) => builder.push(LazyContent::Embed(c)),
            Step::Emit(EmbedOutput::Local(l)) => builder.push(LazyContent::Local(l)),
            Step::Absorb => {}
            _ => {
                if let MdEvent::Text(t) = model {
                    let chars: Vec<char> = t.chars().collect();
                    builder.push_str(&chars);
                }
            }
        }
    }
    UnresolvedSection { metadata, content: builder.build() }
}

/// Markdown rendered to HTML.
fn render(source: &str) -> String {
    let mut html = String::new();
    pulldown_cmark::html::push_html(&mut html, Parser::new(source));
    html
}

fn sections_of(source: &str, slug: &str) -> Result<Vec<(Slug, UnresolvedSection)>, SectionsError> {
    let mut st = parse_markdown_sections(source, &Slug::new(slug))?;
    let root = parse_section(&st.root_source.clone(), slug);
    st.accept_root(root)?;
    while let Some(job) = st.next_subtree()? {
        let section = parse_section(&job.source, job.subtree.slug.as_str());
        st.finish_subtree(job, section)?;
    }
    st.finish()
}

fn embed_urls(content: &HTMLContent) -> Vec<String> {
    match content {
        HTMLContent::Lazy(contents) => contents
            .iter()
            .filter_map(|c| match c {
                LazyContent::Embed(e) => Some(e.url.clone()),
                _ => None,
            })
            .collect(),
        _ => panic!("expected lazy content with subtree embed"),
    }
}

fn is_anonymous(section: &UnresolvedSection) -> bool {
    section
        .metadata
        .get(key_internal_anon_subtree())
        .and_then(|v| v.as_str())
        .is_some_and(|v| v == "true")
}

#[test]
fn test_parse_markdown_sections_supports_nested_named_subtrees() {
    let source = r#"
<remark slug="parent" title="Parent">
outer
<lemma slug="child" title="Child">inner</lemma>
</remark>
"#;
    let sections = sections_of(source, "index").unwrap();
    assert!(sections.iter().any(|(slug, _)| slug.as_str() == "index"));
    assert!(sections.iter().any(|(slug, _)| slug.as_str() == "parent"));
    assert!(sections.iter().any(|(slug, _)| slug.as_str() == "child"));
    let parent = sections
        .iter()
        .find_map(|(slug, section)| (slug.as_str() == "parent").then_some(section))
        .expect("parent section should exist");
    assert_eq!(embed_urls(&parent.content), vec!["/child".to_string()]);
}

#[test]
fn test_parse_markdown_sections_nested_named_subtree_under_anonymous_wrapper_uses_visible_prefix() {
    let source = r#"
<remark>
<lemma slug="child" title="Child">inner</lemma>
</remark>
"#;
    let sections = sections_of(source, "book/index").unwrap();
    assert!(sections.iter().any(|(slug, _)| slug.as_str() == "book/child"));
    let anonymous = sections
        .iter()
        .find_map(|(_, section)| is_anonymous(section).then_some(section))
        .expect("anonymous wrapper section should exist");
    assert_eq!(embed_urls(&anonymous.content), vec!["/book/child".to_string()]);
}

#[test]
fn test_parse_markdown_sections_nested_anonymous_subtrees_have_unique_internal_slugs() {
    let source = r#"
<remark>
<proof>a</proof>
</remark>
<lemma>
<proof>b</proof>
</lemma>
"#;
    let sections = sections_of(source, "GALA").unwrap();
    let anonymous_slugs: Vec<String> = sections
        .iter()
        .filter_map(|(slug, section)| is_anonymous(section).then(|| slug.as_str().to_string()))
        .collect();
    assert_eq!(anonymous_slugs.len(), 4);
    let unique: HashSet<String> = anonymous_slugs.iter().cloned().collect();
    assert_eq!(unique.len(), 4);
}

#[test]
fn sections_come_root_first_then_in_queue_order() {
    let source = "<remark slug=\"a\">\n<lemma slug=\"c\">x</lemma>\n</remark>\n<remark slug=\"b\">y</remark>\n";
    let sections = sections_of(source, "index").unwrap();
    let slugs: Vec<&str> = sections.iter().map(|(s, _)| s.as_str()).collect();
    assert_eq!(slugs, vec!["index", "a", "b", "c"]);
    let c = &sections[3].1;
    assert_eq!(c.metadata.get(key_source_slug()).and_then(|v| v.as_str()), Some("index"));
}

#[test]
fn duplicate_named_subtrees_are_refused() {
    let source = "<remark slug=\"a\">x</remark>\n<lemma slug=\"a\">y</lemma>\n";
    match sections_of(source, "index") {
        Err(e) => {
            assert!(matches!(e, SectionsError::DuplicateSlug { .. }));
            assert_eq!(e.message(), "duplicate subtree slug `a` generated from `index`");
        }
        Ok(_) => panic!("expected a duplicate slug error"),
    }
}

#[test]
fn unclosed_subtree_is_reported_before_parsing() {
    match parse_markdown_sections("<remark slug=\"a\">x", &Slug::new("index")) {
        Err(SectionsError::Subtree(e)) => assert!(e.message().contains("unclosed subtree tag")),
        _ => panic!("expected a subtree error"),
    }
}

#[test]
fn root_without_placeholders_is_refused() {
    let mut st = parse_markdown_sections("<remark slug=\"a\">x</remark>", &Slug::new("index")).unwrap();
    let root = UnresolvedSection { metadata: HTMLMetaData::new(), content: HTMLContent::Plain("p".to_string()) };
    match st.accept_root(root) {
        Err(SectionsError::Patch(e)) => assert_eq!(
            e.message(),
            "internal subtree parser error: expected lazy root content with embed placeholders"
        ),
        _ => panic!("expected a patch error"),
    }
}

#[test]
fn test_parse_markdown_sections_anonymous_subtree_has_internal_section_structure() {
    let source = r#"
<remark>
anonymous body
</remark>
"#;
    let extracted = extract_subtrees_root(source, &Slug::new("index")).unwrap();
    let mut root = parse_section(&extracted.root_source, "index");
    patch_root_subtree_embeds(&mut root, &extracted.subtrees).unwrap();
    let mut anonymous = parse_section(&extracted.subtrees[0].body, extracted.subtrees[0].slug.as_str());
    apply_subtree_defaults(&mut anonymous, &extracted.subtrees[0]);

    assert_eq!(extracted.subtrees.len(), 1);
    assert!(extracted.subtrees[0].anonymous);
    let urls = match &root.content {
        HTMLContent::Lazy(_) => embed_urls(&root.content),
        _ => panic!("expected lazy root content"),
    };
    assert_eq!(urls.len(), 1);
    assert!(urls[0].contains("/:"));
    assert!(is_anonymous(&anonymous));
}

#[test]
fn test_parse_markdown_sections_yields_root_and_child_sections() {
    let source = r#"
---
title: Root
---
<remark slug="child">
---
title: Child
---
child body
</remark>
"#;
    let extracted = extract_subtrees_root(source, &Slug::new("book/index")).unwrap();
    let mut root = parse_section(&extracted.root_source, "book/index");
    patch_root_subtree_embeds(&mut root, &extracted.subtrees).unwrap();
    let urls = match &root.content {
        HTMLContent::Lazy(_) => embed_urls(&root.content),
        _ => panic!("expected lazy root content"),
    };
    assert_eq!(urls, vec!["/book/child".to_string()]);

    let mut child = parse_section(&extracted.subtrees[0].body, extracted.subtrees[0].slug.as_str());
    apply_subtree_defaults(&mut child, &extracted.subtrees[0]);
    assert_eq!(child.metadata.get("slug").and_then(|v| v.as_str()), Some("book/child"));
    assert_eq!(child.metadata.get("title").and_then(|v| v.as_str()), Some("Child"));
    assert_eq!(child.metadata.get(key_source_slug()).and_then(|v| v.as_str()), Some("book/index"));
    assert_eq!(child.metadata.get("source-pos").and_then(|v| v.as_str()), Some("5:1"));
}

#[test]
fn test_subtree_can_use_shared_reference_definitions_from_root() {
    let source = r#"
<remark slug="child">

[Subtree][shared-ref]

</remark>

[shared-ref]: https://example.com/shared
"#;
    let extracted = extract_subtrees_root(source, &Slug::new("book/index")).unwrap();
    let shared = extract_shared_reference_definitions(&extracted.root_source);
    let subtree_source = compose_subtree_source(&extracted.subtrees[0].body, &shared);
    let html = render(&subtree_source);
    assert!(html.contains(r#"href="https://example.com/shared""#));
}

#[test]
fn test_subtree_reference_definition_overrides_shared_root_definition() {
    let source = r#"
<remark slug="child">

[Subtree][same]

[same]: https://example.com/inner

</remark>

[same]: https://example.com/outer
"#;
    let extracted = extract_subtrees_root(source, &Slug::new("book/index")).unwrap();
    let shared = extract_shared_reference_definitions(&extracted.root_source);
    let subtree_source = compose_subtree_source(&extracted.subtrees[0].body, &shared);
    let html = render(&subtree_source);
    assert!(html.contains(r#"href="https://example.com/inner""#));
    assert!(!html.contains(r#"href="https://example.com/outer""#));
}

#[test]
fn subtree_job_carries_shared_definitions() {
    let source = "<remark slug=\"child\">\n\n[Subtree][r]\n\n</remark>\n\n[r]: https://example.com/r\n";
    let mut st = parse_markdown_sections(source, &Slug::new("book/index")).unwrap();
    let root = parse_section(&st.root_source.clone(), "book/index");
    st.accept_root(root).unwrap();
    let job = st.next_subtree().unwrap().expect("one subtree");
    assert_eq!(job.subtree.slug.as_str(), "book/child");
    assert!(render(&job.source).contains(r#"href="https://example.com/r""#));
    assert!(st.next_subtree().unwrap().is_none());
}
