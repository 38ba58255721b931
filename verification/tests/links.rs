use kodama::links::{
    is_assets_file_with_assets_root, is_local_link_with_assets, is_safe_link_target,
    relocate_trees_path_with_trees_root, resolve_embed_url_with_trees_root,
    resolve_include_url, resolve_local_link_url_with_trees_root, resolve_section_url,
    scheme_name, url_action, parse_embed_text, is_external_link, normalize_path_prefix,
};
use kodama::slug::{subsection_slug, Slug};

const ASSETS_DIR: &str = "assets";
const TREES_DIR: &str = "trees";

#[test]
fn test_is_assets_file() {
    assert!(is_assets_file_with_assets_root("assets/image.png", ASSETS_DIR));
    assert!(is_assets_file_with_assets_root("/assets/image.png", ASSETS_DIR));
    assert!(is_assets_file_with_assets_root("\\assets\\image.png", ASSETS_DIR));

    assert!(!is_assets_file_with_assets_root("image.png", ASSETS_DIR));
    assert!(!is_assets_file_with_assets_root("path/to/assets/image.png", ASSETS_DIR));
    assert!(!is_assets_file_with_assets_root("/path/to/image.png", ASSETS_DIR));
}

#[test]
fn test_is_local_link() {
    assert!(is_local_link_with_assets("./0AB7", ASSETS_DIR));
    assert!(is_local_link_with_assets("./0AB7.md", ASSETS_DIR));
    assert!(is_local_link_with_assets("/path/to/0AB7", ASSETS_DIR));

    assert!(!is_local_link_with_assets("http://example.com", ASSETS_DIR));
    assert!(!is_local_link_with_assets("https://example.com", ASSETS_DIR));
    assert!(!is_local_link_with_assets("www.example.com", ASSETS_DIR));
    assert!(!is_local_link_with_assets("external:page", ASSETS_DIR));
    assert!(!is_local_link_with_assets("inline", ASSETS_DIR));
    assert!(!is_local_link_with_assets("inline-0pt-0pt", ASSETS_DIR));
    assert!(!is_local_link_with_assets("assets/image.png", ASSETS_DIR));
    assert!(!is_local_link_with_assets("/assets/image.png", ASSETS_DIR));
    assert!(!is_local_link_with_assets("local-dir/", ASSETS_DIR));
}

#[test]
fn test_resolve_include_url_supports_root_and_relative_paths() {
    assert_eq!(resolve_include_url("/import-meta.html", &Slug::new("a/b")), "import-meta.html");
    assert_eq!(
        resolve_include_url("./shared/snippet.txt", &Slug::new("docs/chapter")),
        "docs/shared/snippet.txt"
    );
    assert_eq!(resolve_include_url("../snippet.txt", &Slug::new("docs/chapter")), "snippet.txt");
}

#[test]
fn test_resolve_local_and_embed_urls_are_normalized_early() {
    assert_eq!(
        resolve_local_link_url_with_trees_root("./a.b.md", &Slug::new("guide/index"), TREES_DIR),
        "/guide/a.b"
    );
    assert_eq!(
        resolve_embed_url_with_trees_root("../ref.md", &Slug::new("guide/chapter/page"), TREES_DIR),
        "/guide/ref.md"
    );
    assert_eq!(
        resolve_local_link_url_with_trees_root("/trees/root.md", &Slug::new("guide/index"), TREES_DIR),
        "/root"
    );
}

#[test]
fn test_is_safe_link_target_filters_unsafe_schemes() {
    assert!(is_safe_link_target("https://example.com"));
    assert!(is_safe_link_target("./target"));
    assert!(is_safe_link_target("/target"));
    assert!(is_safe_link_target("mailto:dev@example.com"));

    assert!(!is_safe_link_target("javascript:alert(1)"));
    assert!(!is_safe_link_target("vbscript:msgbox(1)"));
    assert!(!is_safe_link_target("data:text/html,<svg/onload=alert(1)>"));
    assert!(!is_safe_link_target("file:///etc/passwd"));
}

#[test]
fn test_relocate_trees_path() {
    assert_eq!(relocate_trees_path_with_trees_root("/path", "trees"), "/path".to_string());
    assert_eq!(relocate_trees_path_with_trees_root("/trees/path", "trees"), "/path".to_string());
    assert_eq!(relocate_trees_path_with_trees_root("/docs/path", "trees"), "/docs/path".to_string());
}

#[test]
fn test_resolve_section_url_supports_root_and_relative_paths() {
    assert_eq!(resolve_section_url("./a.b.md", &Slug::new("guide/index")), "/guide/a.b.md");
    assert_eq!(resolve_section_url("../ref.md", &Slug::new("guide/chapter/page")), "/guide/ref.md");
    assert_eq!(resolve_section_url("/trees/root.md", &Slug::new("guide/index")), "/trees/root.md");
}

#[test]
fn test_subsection_slug() {
    assert_eq!(subsection_slug(&Slug::new("a/b"), "c/d.md").as_str(), "a/c/d");
    assert_eq!(subsection_slug(&Slug::new("a/b"), "./c/d.md").as_str(), "a/c/d");
    assert_eq!(subsection_slug(&Slug::new("index"), "./a.b").as_str(), "a.b");
    assert_eq!(subsection_slug(&Slug::new("a/b"), "/c/d.md").as_str(), "c/d");
}

#[test]
fn scheme_name_cases() {
    assert_eq!(scheme_name("HTTPS://x").as_deref(), Some("https"));
    assert_eq!(scheme_name(":x"), None);
    assert_eq!(scheme_name("a/b:c"), None);
    assert_eq!(scheme_name("a b:c"), None);
    assert_eq!(scheme_name("no-colon"), None);
}

#[test]
fn url_action_splits_action() {
    assert_eq!(url_action("/a.md#:embed"), ("/a.md".to_string(), "embed".to_string()));
    assert_eq!(url_action("/a.md"), ("/a.md".to_string(), String::new()));
}

#[test]
fn parse_embed_text_reads_options() {
    let (opt, rest) = parse_embed_text("+-.Title");
    assert!(opt.numbering);
    assert!(!opt.details_open);
    assert!(!opt.catalog);
    assert_eq!(rest, "Title");
    let (opt, rest) = parse_embed_text("Plain");
    assert!(!opt.numbering && opt.details_open && opt.catalog);
    assert_eq!(rest, "Plain");
}

#[test]
fn external_links() {
    assert!(is_external_link(" www.example.com"));
    assert!(is_external_link("ftp://x"));
    assert!(!is_external_link("javascript:x"));
    assert_eq!(normalize_path_prefix("././/a\\b/"), "a/b");
}
