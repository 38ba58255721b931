use kodama::section::{HTMLContent, LazyContent, UnresolvedSection};
use kodama::slug::Slug;
use kodama::typst_html::{
    key_internal_anon_subtree, key_source_slug, parse_typst_sections_from_html,
};

fn find_section<'a>(sections: &'a [(Slug, UnresolvedSection)], slug: &str) -> &'a UnresolvedSection {
    sections
        .iter()
        .find_map(|(s, section)| (s.as_str() == slug).then_some(section))
        .expect("expected section")
}

fn embeds(content: &HTMLContent) -> Vec<(String, Option<String>, bool)> {
    match content {
        HTMLContent::Lazy(contents) => contents
            .iter()
            .filter_map(|c| match c {
                LazyContent::Embed(e) => Some((e.url.clone(), e.title.clone(), e.option.numbering)),
                _ => None,
            })
            .collect(),
        _ => panic!("expected lazy content"),
    }
}

#[test]
fn test_parse_typst_sections_extracts_named_subtree() {
    let html = r#"
<p>root</p>
<kodama-subtree slug="child" title="Child" numbering="true"><p>child</p></kodama-subtree>
"#;
    let sections = parse_typst_sections_from_html(&Slug::new("book/index"), html).unwrap();
    assert_eq!(sections.len(), 2);

    let root = find_section(&sections, "book/index");
    let found = embeds(&root.content);
    assert_eq!(found.len(), 1);
    assert_eq!(found[0].0, "/book/child");
    assert_eq!(found[0].1.as_deref(), Some("Child"));
    assert!(found[0].2);

    let child = find_section(&sections, "book/child");
    assert_eq!(child.metadata.get("title").and_then(HTMLContent::as_str), Some("Child"));
    assert_eq!(child.metadata.get_str("ext"), Some("typst"));
    assert_eq!(child.metadata.get_str(key_source_slug()), Some("book/index"));
}

#[test]
fn test_parse_typst_sections_subtree_body_metadata_overrides_attr_defaults() {
    let html = r#"
<kodama-subtree slug="child" title="Outer">
<kodama-meta key="title" value="Inner"></kodama-meta>
<p>child</p>
</kodama-subtree>
"#;
    let sections = parse_typst_sections_from_html(&Slug::new("book/index"), html).unwrap();
    let root = find_section(&sections, "book/index");
    let found = embeds(&root.content);
    assert_eq!(found[0].1.as_deref(), Some("Outer"));

    let child = find_section(&sections, "book/child");
    assert_eq!(child.metadata.get("title").and_then(HTMLContent::as_str), Some("Inner"));
}

#[test]
fn test_parse_typst_sections_extracts_anonymous_subtree() {
    let html = r#"
<p>root</p>
<kodama-subtree title="Anonymous"><p>child</p></kodama-subtree>
"#;
    let sections = parse_typst_sections_from_html(&Slug::new("book/index"), html).unwrap();
    assert_eq!(sections.len(), 2);

    let root = find_section(&sections, "book/index");
    let found = embeds(&root.content);
    assert_eq!(found[0].0, "/book/index/:0");
    assert_eq!(found[0].1.as_deref(), Some("Anonymous"));

    let anonymous = find_section(&sections, "book/index/:0");
    assert_eq!(anonymous.metadata.get_str(key_internal_anon_subtree()), Some("true"));
}

#[test]
fn test_parse_typst_sections_nested_named_subtree_under_anonymous_wrapper_uses_visible_prefix() {
    let html = r#"
<kodama-subtree>
  <kodama-subtree slug="child"><p>nested</p></kodama-subtree>
</kodama-subtree>
"#;
    let sections = parse_typst_sections_from_html(&Slug::new("book/index"), html).unwrap();
    assert!(sections.iter().any(|(slug, _)| slug.as_str() == "book/child"));

    let anonymous = sections
        .iter()
        .find_map(|(_, section)| {
            (section.metadata.get_str(key_internal_anon_subtree()) == Some("true")).then_some(section)
        })
        .expect("expected anonymous wrapper section");
    let urls: Vec<String> = embeds(&anonymous.content).into_iter().map(|e| e.0).collect();
    assert_eq!(urls, vec!["/book/child".to_string()]);
}

#[test]
fn typst_meta_taxon_local_and_errors() {
    let html = r#"<kodama-meta key="taxon" value="lemma"></kodama-meta>see <kodama-local slug="a">A</kodama-local>"#;
    let sections = parse_typst_sections_from_html(&Slug::new("x"), html).unwrap();
    let root = &sections[0].1;
    assert_eq!(root.metadata.get_str("taxon"), Some("Lemma. "));
    match &root.content {
        HTMLContent::Lazy(v) => {
            assert_eq!(v.len(), 2);
            match (&v[0], &v[1]) {
                (LazyContent::Plain(p), LazyContent::Local(l)) => {
                    assert_eq!(p, "see ");
                    assert_eq!(l.url, "a");
                    assert_eq!(l.text.as_deref(), Some("A"));
                }
                _ => panic!("unexpected pieces"),
            }
        }
        _ => panic!("expected lazy content"),
    }
    let plain = parse_typst_sections_from_html(&Slug::new("x"), "<p>only</p>").unwrap();
    assert!(matches!(&plain[0].1.content, HTMLContent::Plain(p) if p == "<p>only</p>"));

    let dup = parse_typst_sections_from_html(
        &Slug::new("a/x"),
        r#"<kodama-subtree slug="c"></kodama-subtree><kodama-subtree slug="c"></kodama-subtree>"#,
    );
    assert!(dup.unwrap_err().message().contains("duplicate typst subtree slug `a/c`"));
    let missing = parse_typst_sections_from_html(&Slug::new("x"), "<kodama-embed></kodama-embed>");
    assert_eq!(missing.unwrap_err().message(), "missing attribute `url` in kodama tag");
    let unclosed = parse_typst_sections_from_html(&Slug::new("x"), "<kodama-subtree>");
    assert!(unclosed.is_err());
    let in_meta = parse_typst_sections_from_html(
        &Slug::new("x"),
        "<kodama-meta key=\"title\"><kodama-subtree></kodama-subtree></kodama-meta>",
    );
    assert!(in_meta.unwrap_err().message().contains("not allowed in metadata"));
}
