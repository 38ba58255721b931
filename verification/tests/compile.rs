use kodama::compile::{compile_all, CompileError, SectionContent};
use kodama::entry::HTMLMetaData;
use kodama::environment::mock_environment;
use kodama::section::{EmbedContent, HTMLContent, LazyContent, LocalLink, SectionOption, UnresolvedSection};
use kodama::slug::Slug;

fn shallow_with_content(slug: &str, content: HTMLContent) -> UnresolvedSection {
    let mut metadata = HTMLMetaData::new();
    metadata.insert("slug".to_string(), HTMLContent::Plain(slug.to_string()));
    metadata.insert("ext".to_string(), HTMLContent::Plain("md".to_string()));
    UnresolvedSection { metadata, content }
}

fn embed(url: &str) -> LazyContent {
    LazyContent::Embed(EmbedContent {
        url: url.to_string(),
        title: None,
        option: SectionOption::default(),
    })
}

#[test]
fn test_compile_all_returns_error_for_cyclic_embed() {
    let shallows = vec![
        (Slug::new("a"), shallow_with_content("a", HTMLContent::Lazy(vec![embed("/b.md")]))),
        (Slug::new("b"), shallow_with_content("b", HTMLContent::Lazy(vec![embed("/a.md")]))),
    ];
    let err = compile_all(&shallows, &mock_environment()).unwrap_err();
    assert!(err.message().contains("cyclic embed"));
    match err {
        CompileError::Cycle { chain } => {
            let names: Vec<&str> = chain.iter().map(|s| s.as_str()).collect();
            assert_eq!(names, vec!["a", "b", "a"]);
        }
        other => panic!("unexpected error {:?}", other),
    }
}

#[test]
fn test_compile_all_resolves_embed_and_records_parent() {
    let shallows = vec![
        (
            Slug::new("index"),
            shallow_with_content(
                "index",
                HTMLContent::Lazy(vec![LazyContent::Plain("<p>top</p>".to_string()), embed("./child.md")]),
            ),
        ),
        (Slug::new("child"), shallow_with_content("child", HTMLContent::Plain("<p>child</p>".to_string()))),
    ];
    let state = compile_all(&shallows, &mock_environment()).unwrap();
    assert!(state.residued.is_empty());
    let index = state.compiled.get("index").expect("index compiled");
    assert_eq!(index.children.len(), 2);
    match &index.children[1] {
        SectionContent::Embed { slug, .. } => assert_eq!(slug.as_str(), "child"),
        other => panic!("unexpected piece {:?}", other),
    }
    assert_eq!(index.spanned(), "<p>top</p>");
    let child = state.compiled.get("child").expect("child compiled");
    assert_eq!(child.spanned(), "<p>child</p>");
    let cb = state.callback.get(&Slug::new("child")).expect("parent recorded");
    assert_eq!(cb.parent.as_str(), "index");
}

#[test]
fn test_compile_all_reports_missing_embedded_section() {
    let shallows = vec![(
        Slug::new("index"),
        shallow_with_content("index", HTMLContent::Lazy(vec![embed("/nowhere.md")])),
    )];
    let err = compile_all(&shallows, &mock_environment()).unwrap_err();
    assert_eq!(err.message(), "[index] attempting to fetch a non-existent [nowhere]");
}

#[test]
fn test_compile_all_turns_local_link_into_html_and_backlink() {
    let shallows = vec![
        (
            Slug::new("a"),
            shallow_with_content(
                "a",
                HTMLContent::Lazy(vec![LazyContent::Local(LocalLink {
                    url: "/b.md".to_string(),
                    text: Some("see b".to_string()),
                })]),
            ),
        ),
        (Slug::new("b"), shallow_with_content("b", HTMLContent::Plain("<p>b</p>".to_string()))),
    ];
    let state = compile_all(&shallows, &mock_environment()).unwrap();
    let a = state.compiled.get("a").expect("a compiled");
    let html = a.spanned();
    assert!(html.contains("see b"));
    assert!(html.contains("href=\"/b.html\""));
    let cb = state.callback.get(&Slug::new("b")).expect("backlink recorded");
    let backs: Vec<&str> = cb.backlinks.iter().map(|s| s.as_str()).collect();
    assert_eq!(backs, vec!["a"]);
}

#[test]
fn test_compile_all_requires_ext_metadata() {
    let mut metadata = HTMLMetaData::new();
    metadata.insert("slug".to_string(), HTMLContent::Plain("index".to_string()));
    let shallows = vec![(
        Slug::new("index"),
        UnresolvedSection { metadata, content: HTMLContent::Plain(String::new()) },
    )];
    let err = compile_all(&shallows, &mock_environment()).unwrap_err();
    assert_eq!(err.message(), "missing `ext` in metadata of `index`");
}
