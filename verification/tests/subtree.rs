use kodama::references::extract_shared_reference_definitions;
use kodama::slug::Slug;
use kodama::subtree::{extract_subtrees_nested, extract_subtrees_root};

#[test]
fn test_extract_shared_reference_definitions_skips_fenced_code() {
    let source = r#"
[outside]: https://outside.example
```md
[inside-fence]: https://inside.example
```
[outside]: https://outside-duplicate.example
"#;

    let extracted = extract_subtrees_root(source, &Slug::new("index")).unwrap();
    let shared = extract_shared_reference_definitions(&extracted.root_source);

    assert!(shared.contains("[outside]: https://outside.example"));
    assert!(!shared.contains("inside-fence"));
    assert!(!shared.contains("outside-duplicate"));
}

#[test]
fn test_extract_subtrees_rewrites_root_to_embed_placeholders() {
    let source = "before\n<remark slug=\"child\" title=\"Child\">\nhello\n</remark>\nafter";
    let extracted = extract_subtrees_root(source, &Slug::new("doc/index")).unwrap();

    assert!(extracted
        .root_source
        .contains("[](/__kodama_subtree_internal__/0#:embed)"));
    assert_eq!(extracted.subtrees.len(), 1);
    assert_eq!(extracted.subtrees[0].slug.as_str(), "doc/child");
    assert_eq!(extracted.subtrees[0].title.as_deref(), Some("Child"));
    assert_eq!(extracted.subtrees[0].tag, "remark");
    assert_eq!(extracted.subtrees[0].source_slug.as_str(), "doc/index");
    assert_eq!(extracted.subtrees[0].source_pos, "2:1");
}

#[test]
fn test_extract_subtrees_extracts_anonymous_tags_without_slug_attribute() {
    let source = "<remark>plain</remark>";
    let extracted = extract_subtrees_root(source, &Slug::new("index")).unwrap();
    assert_eq!(extracted.subtrees.len(), 1);
    assert!(extracted
        .root_source
        .contains("[](/__kodama_subtree_internal__/0#:embed)"));
    assert!(extracted.subtrees[0].anonymous);
    assert!(extracted.subtrees[0].slug.as_str().contains("/:"));
}

#[test]
fn test_extract_subtrees_nested_anonymous_slug_uses_source_prefix() {
    let source = "<remark>plain</remark>";
    let extracted = extract_subtrees_nested(
        source,
        &Slug::new("daily/surf"),
        &Slug::new("daily-surf/windows-skill"),
    )
    .unwrap();

    assert_eq!(extracted.subtrees.len(), 1);
    assert_eq!(
        extracted.subtrees[0].slug.as_str(),
        "daily-surf/windows-skill/:0"
    );
}

#[test]
fn test_extract_subtrees_treats_anonymous_wrapper_as_single_extracted_subtree() {
    let source = r#"
<remark>

<proof slug="child">inner</proof>

</remark>"#;
    let extracted = extract_subtrees_root(source, &Slug::new("index")).unwrap();
    assert_eq!(extracted.subtrees.len(), 1);
    assert!(extracted.subtrees[0].anonymous);
    assert!(extracted
        .subtrees
        .first()
        .map(|spec| spec.body.contains("<proof slug=\"child\">inner</proof>"))
        .unwrap_or(false));
}

#[test]
fn test_extract_subtrees_rejects_relative_prefix_slug() {
    let source = r#"<remark slug="./child">x</remark>"#;
    let err = extract_subtrees_root(source, &Slug::new("doc/index")).unwrap_err();
    let msg = err.message();
    assert!(msg.contains("invalid subtree tag"));
    assert!(msg.contains(r#"slug="./child""#));
}

#[test]
fn test_extract_subtrees_rejects_absolute_or_nested_slug() {
    let absolute = r#"<remark slug="/child">x</remark>"#;
    let nested = r#"<remark slug="a/b">x</remark>"#;

    let absolute_err = extract_subtrees_root(absolute, &Slug::new("doc/index")).unwrap_err();
    let nested_err = extract_subtrees_root(nested, &Slug::new("doc/index")).unwrap_err();
    assert!(absolute_err.message().contains(r#"slug="/child""#));
    assert!(nested_err.message().contains(r#"slug="a/b""#));
}

#[test]
fn extract_keeps_text_without_subtrees() {
    let source = "a <b>bold</b> & <x/> text";
    let extracted = extract_subtrees_root(source, &Slug::new("index")).unwrap();
    assert_eq!(extracted.root_source, source);
    assert!(extracted.subtrees.is_empty());
}

#[test]
fn extract_reports_unclosed_tag() {
    let err = extract_subtrees_root("<lemma slug=\"x\">open", &Slug::new("a/index")).unwrap_err();
    assert_eq!(
        err.message(),
        "unclosed subtree tag `<lemma slug=\"...\">` in `a/index`"
    );
}

#[test]
fn extract_reports_empty_slug() {
    let err = extract_subtrees_root("<lemma slug=\" \">x</lemma>", &Slug::new("index")).unwrap_err();
    assert_eq!(
        err.message(),
        "invalid subtree tag `<lemma>` in `index`: `slug` cannot be empty"
    );
}

#[test]
fn extract_keeps_tag_with_unclosed_quote_as_text() {
    let source = "<lemma slug=\"x>y</lemma>";
    let extracted = extract_subtrees_root(source, &Slug::new("index")).unwrap();
    assert!(extracted.subtrees.is_empty());
    assert_eq!(extracted.root_source, source);
}

#[test]
fn extract_nested_same_name_tags_match_outer_close() {
    let source = "<remark>a<remark>b</remark>c</remark>d";
    let extracted = extract_subtrees_root(source, &Slug::new("index")).unwrap();
    assert_eq!(extracted.subtrees.len(), 1);
    assert_eq!(extracted.subtrees[0].body, "a<remark>b</remark>c");
    assert_eq!(
        extracted.root_source,
        "\n[](/__kodama_subtree_internal__/0#:embed)\nd"
    );
    assert_eq!(extracted.subtrees[0].slug.as_str(), "index/:0");
}

#[test]
fn extract_reads_options_and_unescapes_attributes() {
    let source = "<theorem slug=child numbering=\"true\" open=false catalog='none' title=\"A &amp; B\" taxon=\"Thm\">x</theorem>";
    let extracted = extract_subtrees_root(source, &Slug::new("book/index")).unwrap();
    let s = &extracted.subtrees[0];
    assert!(s.option.numbering);
    assert!(!s.option.details_open);
    assert!(!s.option.catalog);
    assert_eq!(s.title.as_deref(), Some("A & B"));
    assert_eq!(s.taxon.as_deref(), Some("Thm"));
    assert_eq!(s.slug.as_str(), "book/child");
    assert!(!s.anonymous);
}
