use kodama::slug::Ext;
use kodama::workspace::{
    collect_sources, is_under_ignored_dir, should_ignore_dir, should_ignore_file, to_slug_ext,
};

#[test]
fn test_should_ignore_helpers_handle_missing_file_name() {
    assert!(!should_ignore_file(""));
    assert!(!should_ignore_dir(""));
}

#[test]
fn test_should_ignore_helpers_match_expected_names() {
    assert!(should_ignore_file("README.md"));
    assert!(!should_ignore_file("docs.md"));

    assert!(should_ignore_dir(".git"));
    assert!(should_ignore_dir("_tmp"));
    assert!(!should_ignore_dir("trees"));
}

#[test]
fn test_is_under_ignored_dir_detects_internal_helper_dirs() {
    assert!(is_under_ignored_dir("_lib/kodama.typ"));
    assert!(is_under_ignored_dir("docs/.cache/a.typ"));
    assert!(!is_under_ignored_dir("docs/math/a.typ"));
    assert!(!is_under_ignored_dir("a.typ"));
}

#[test]
fn slugs_drop_the_tree_directory_and_extension() {
    let (slug, ext) = to_slug_ext("trees", "trees/notes/a.md").unwrap();
    assert_eq!(slug.as_str(), "notes/a");
    assert_eq!(ext, Ext::Markdown);
    let (slug, ext) = to_slug_ext("trees/", "trees/b.typst").unwrap();
    assert_eq!(slug.as_str(), "b");
    assert_eq!(ext, Ext::Typst);
    assert!(to_slug_ext("trees", "trees/c.typ").is_none());
    assert!(to_slug_ext("trees", "trees/.md").is_none());
}

#[test]
fn collecting_sources_reports_collisions() {
    let files = vec![
        ("trees/README.md".to_string(), true),
        ("trees/index.md".to_string(), true),
        ("trees/notes/README.md".to_string(), false),
        ("trees/image.png".to_string(), true),
    ];
    let workspace = collect_sources("trees", &files).unwrap();
    assert_eq!(workspace.slug_exts.keys(), vec!["index", "notes/README"]);

    let clash = vec![("trees/a.md".to_string(), true), ("trees/a.typst".to_string(), true)];
    let err = collect_sources("trees", &clash).unwrap_err();
    assert_eq!(err.message(), "`trees/a.typst` collides with `trees/a.md`");
}
