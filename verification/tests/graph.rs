use kodama::compile::compile_all;
use kodama::entry::HTMLMetaData;
use kodama::environment::mock_environment;
use kodama::graph::{graph_snapshot, GraphSection, GraphSnapshot};
use kodama::section::{EmbedContent, HTMLContent, LazyContent, LocalLink, SectionOption, UnresolvedSection};
use kodama::slug::Slug;

fn shallow(slug: &str, content: HTMLContent) -> UnresolvedSection {
    let mut metadata = HTMLMetaData::new();
    metadata.insert("slug".to_string(), HTMLContent::Plain(slug.to_string()));
    metadata.insert("ext".to_string(), HTMLContent::Plain("md".to_string()));
    metadata.insert("title".to_string(), HTMLContent::Plain(slug.to_string()));
    metadata.insert("page-title".to_string(), HTMLContent::Plain(slug.to_string()));
    UnresolvedSection { metadata, content }
}

fn entry<'a>(g: &'a GraphSnapshot, slug: &str) -> &'a GraphSection {
    &g.sections.iter().find(|(s, _)| s.as_str() == slug).expect("section in graph").1
}

fn names(v: &[Slug]) -> Vec<&str> {
    v.iter().map(|s| s.as_str()).collect()
}

#[test]
fn test_graph_snapshot_contains_sorted_full_graph_relationships() {
    let mut ref_section = shallow("ref", HTMLContent::Plain("<p>ref</p>".to_string()));
    ref_section.metadata.insert("asref".to_string(), HTMLContent::Plain("true".to_string()));
    let shallows = vec![
        (
            Slug::new("index"),
            shallow(
                "index",
                HTMLContent::Lazy(vec![
                    LazyContent::Local(LocalLink { url: "/ref.md".to_string(), text: None }),
                    LazyContent::Embed(EmbedContent {
                        url: "/child.md".to_string(),
                        title: None,
                        option: SectionOption::default(),
                    }),
                ]),
            ),
        ),
        (
            Slug::new("a"),
            shallow(
                "a",
                HTMLContent::Lazy(vec![LazyContent::Local(LocalLink { url: "/ref.md".to_string(), text: None })]),
            ),
        ),
        (Slug::new("ref"), ref_section),
        (Slug::new("child"), shallow("child", HTMLContent::Plain("<p>child</p>".to_string()))),
    ];

    let state = compile_all(&shallows, &mock_environment()).unwrap();
    let snapshot = graph_snapshot(&state);

    let keys: Vec<&str> = snapshot.sections.iter().map(|(s, _)| s.as_str()).collect();
    assert_eq!(keys, vec!["a", "child", "index", "ref"]);

    let index = entry(&snapshot, "index");
    assert_eq!(names(&index.references), vec!["ref"]);

    let child = entry(&snapshot, "child");
    assert_eq!(child.parent.as_str(), "index");
    assert!(!child.parent_specified);

    let reference = entry(&snapshot, "ref");
    assert_eq!(names(&reference.backlinks), vec!["a", "index"]);
}

#[test]
fn test_graph_snapshot_skips_anonymous_sections_and_climbs_past_them() {
    let mut anon = shallow(
        "index/:0",
        HTMLContent::Lazy(vec![LazyContent::Embed(EmbedContent {
            url: "/leaf.md".to_string(),
            title: None,
            option: SectionOption::default(),
        })]),
    );
    anon.metadata.insert("internal-anonymous-subtree".to_string(), HTMLContent::Plain("true".to_string()));
    let shallows = vec![
        (
            Slug::new("index"),
            shallow(
                "index",
                HTMLContent::Lazy(vec![LazyContent::Embed(EmbedContent {
                    url: "/index/:0".to_string(),
                    title: None,
                    option: SectionOption::default(),
                })]),
            ),
        ),
        (Slug::new("index/:0"), anon),
        (Slug::new("leaf"), shallow("leaf", HTMLContent::Plain("<p>leaf</p>".to_string()))),
    ];
    let state = compile_all(&shallows, &mock_environment()).unwrap();
    assert!(state.is_internal(&Slug::new("index/:0")));
    let snapshot = graph_snapshot(&state);
    let keys: Vec<&str> = snapshot.sections.iter().map(|(s, _)| s.as_str()).collect();
    assert_eq!(keys, vec!["index", "leaf"]);
    assert_eq!(entry(&snapshot, "leaf").parent.as_str(), "index");
}

#[test]
fn test_page_header_links_to_parent() {
    let shallows = vec![
        (
            Slug::new("index"),
            shallow(
                "index",
                HTMLContent::Lazy(vec![LazyContent::Embed(EmbedContent {
                    url: "/child.md".to_string(),
                    title: None,
                    option: SectionOption::default(),
                })]),
            ),
        ),
        (Slug::new("child"), shallow("child", HTMLContent::Plain("<p>c</p>".to_string()))),
    ];
    let env = mock_environment();
    let state = compile_all(&shallows, &env).unwrap();
    assert_eq!(state.header(&env, &Slug::new("index")), "");
    let header = state.header(&env, &Slug::new("child"));
    assert!(header.contains("window.location.href='/index.html'"));
    assert!(header.contains("« index"));
}
