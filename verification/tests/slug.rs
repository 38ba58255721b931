use kodama::slug::{clean_path, pretty_path, relative_to_current};

#[test]
fn pretty_path_resolves_dot_components() {
    assert_eq!(pretty_path("./a/../b/c"), "b/c");
    assert_eq!(pretty_path("a//b/./c/"), "a/b/c");
    assert_eq!(pretty_path("/x/../y"), "/y");
    assert_eq!(pretty_path("a\\b"), "a/b");
    assert_eq!(clean_path("../a"), "a");
}

#[test]
fn pretty_path_is_idempotent() {
    for p in ["./a/../b/c", "a//b/./c/", "/x/../y", "", ".", "..", "a/.."] {
        let once = pretty_path(p);
        assert_eq!(pretty_path(&once), once);
        assert!(!once.split('/').any(|c| c == "." || c == ".."));
    }
}

#[test]
fn relative_path_ignores_trailing_separators_of_the_current_path() {
    assert_eq!(relative_to_current("a/b/", "x"), "a/x");
    assert_eq!(relative_to_current("a//b", "x"), "a/x");
    assert_eq!(relative_to_current("a/b", "x"), "a/x");
    assert_eq!(relative_to_current("/a", "x"), "/x");
    assert_eq!(relative_to_current("a", "x"), "x");
    assert_eq!(relative_to_current("/", "x"), "x");
    assert_eq!(relative_to_current("a/b", "/x"), "/x");
}
