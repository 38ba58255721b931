use kodama::cli::WatchChangeStats;
use kodama::watch::{
    analyze_watch_changes, classify_changed_path, compose_watched_paths,
    default_missing_path_level, display_watch_path, fold_watch_change_lines,
    is_optional_import_watch_path, is_optional_missing_watch_path, is_source_extension,
    is_temp_like_path, join_path, ChangedPath, MissingPathLevel, PathClass, WatchBatcher,
    WatchChangeFoldState,
};

fn paths(v: &[&str]) -> Vec<String> {
    v.iter().map(|s| s.to_string()).collect()
}

#[test]
fn test_is_optional_import_watch_path() {
    assert!(is_optional_import_watch_path("site/import-meta.html"));
    assert!(is_optional_import_watch_path("site/import-style.html"));
    assert!(!is_optional_import_watch_path("site/themes/theme.html"));
}

#[test]
fn test_is_optional_missing_watch_path_includes_assets() {
    let assets = "site/assets";
    assert!(is_optional_missing_watch_path("site/import-font.html", assets));
    assert!(is_optional_missing_watch_path(assets, assets));
    assert!(!is_optional_missing_watch_path("site/Kodama.toml", assets));
    assert_eq!(default_missing_path_level(assets, assets), MissingPathLevel::Hint);
    assert_eq!(default_missing_path_level("site/Kodama.toml", assets), MissingPathLevel::Warning);
}

#[test]
fn test_display_watch_path_normalizes_separators() {
    assert_eq!(display_watch_path("site/trees/a.md"), "site/trees/a.md");
    assert_eq!(display_watch_path(r".\site\trees\a.md"), "./site/trees/a.md");
}

#[test]
fn test_fold_watch_change_lines_collapses_only_consecutive_duplicates() {
    let changed = paths(&[
        "site/trees/a.md",
        "site/trees/a.md",
        "site/trees/b.md",
        "site/trees/b.md",
        "site/trees/c.md",
        "site/trees/b.md",
    ]);
    let mut state = WatchChangeFoldState::default();
    let lines = fold_watch_change_lines(&mut state, &changed);
    assert_eq!(
        lines,
        vec![
            "[watch] Change: \"site/trees/a.md\" (x2)".to_string(),
            "[watch] Change: \"site/trees/b.md\" (x2)".to_string(),
            "[watch] Change: \"site/trees/c.md\"".to_string(),
            "[watch] Change: \"site/trees/b.md\"".to_string(),
        ]
    );
}

#[test]
fn test_fold_watch_change_lines_normalizes_windows_separators() {
    let changed = paths(&[r".\site\trees\a.md", r".\site\trees\a.md"]);
    let mut state = WatchChangeFoldState::default();
    let lines = fold_watch_change_lines(&mut state, &changed);
    assert_eq!(lines, vec!["[watch] Change: \"./site/trees/a.md\" (x2)"]);
}

#[test]
fn test_fold_watch_change_lines_accumulates_across_batches() {
    let mut state = WatchChangeFoldState::default();

    let first = fold_watch_change_lines(&mut state, &paths(&["site/trees/a.md"]));
    assert_eq!(first, vec!["[watch] Change: \"site/trees/a.md\""]);

    let second =
        fold_watch_change_lines(&mut state, &paths(&["site/trees/a.md", "site/trees/a.md"]));
    assert_eq!(second, vec!["[watch] Change: \"site/trees/a.md\" (x3)"]);

    let third = fold_watch_change_lines(&mut state, &paths(&["site/trees/b.md"]));
    assert_eq!(third, vec!["[watch] Change: \"site/trees/b.md\""]);

    let fourth = fold_watch_change_lines(&mut state, &paths(&["site/trees/a.md"]));
    assert_eq!(fourth, vec!["[watch] Change: \"site/trees/a.md\""]);
}

#[test]
fn test_watch_batcher_respects_debounce_duration() {
    let debounce = 500;
    let anchor = 10_000;
    let mut batcher = WatchBatcher::with_last_run(debounce, anchor);

    batcher.push_paths(paths(&["a.md"]));
    assert!(batcher.take_ready(anchor + 100).is_none());
    assert_eq!(batcher.take_ready(anchor + 500), Some(paths(&["a.md"])));

    batcher.push_paths(paths(&["b.md"]));
    assert!(batcher.take_ready(anchor + 800).is_none());
    assert_eq!(batcher.take_ready(anchor + 1000), Some(paths(&["b.md"])));
}

#[test]
fn new_batcher_is_ready_at_once() {
    let mut batcher = WatchBatcher::new(250, 1_000);
    assert!(batcher.take_ready(1_000).is_none());
    batcher.push_paths(paths(&["x"]));
    assert_eq!(batcher.take_ready(1_000), Some(paths(&["x"])));
}

#[test]
fn temp_files_and_source_extensions() {
    assert!(is_temp_like_path("trees/.index.md.swp"));
    assert!(is_temp_like_path("trees/.DS_Store"));
    assert!(is_temp_like_path("trees/#a.md#"));
    assert!(is_temp_like_path("trees/a.md~"));
    assert!(is_temp_like_path("trees/a.md___jb_tmp___"));
    assert!(!is_temp_like_path("trees/index.md"));
    assert!(!is_temp_like_path("trees/"));
    assert!(is_source_extension(Some("typ")));
    assert!(!is_source_extension(Some("txt")));
    assert!(!is_source_extension(None));
}

fn changed(path: &str, is_dir: bool) -> ChangedPath {
    ChangedPath { path: path.to_string(), canonical: path.to_string(), is_dir }
}

fn has(v: &[String], s: &str) -> bool {
    v.iter().any(|x| x == s)
}

#[test]
fn test_compose_watched_paths_includes_imports_and_themes() {
    let root = "site";
    let trees = join_path(root, "trees");
    let assets = join_path(root, "assets");
    let config = join_path(root, "Kodama.toml");
    let theme = join_path(root, "themes/theme.html");
    let watched = compose_watched_paths(root, trees.clone(), assets.clone(), config.clone(), vec![theme.clone()]);
    assert!(has(&watched, &trees));
    assert!(has(&watched, &assets));
    assert!(has(&watched, &config));
    assert!(has(&watched, &join_path(root, "import-meta.html")));
    assert!(has(&watched, &join_path(root, "import-style.html")));
    assert!(has(&watched, &join_path(root, "import-font.html")));
    assert!(has(&watched, &join_path(root, "import-math.html")));
    assert!(has(&watched, &theme));
    assert_eq!(join_path("site", "a"), "site/a");
    assert_eq!(join_path("site/", "a"), "site/a");
    assert_eq!(join_path("", "a"), "a");
}

#[test]
fn test_analyze_watch_changes_collects_tree_relative_files() {
    let changed_paths = vec![changed("site/trees/a.md", false), changed("site/import-style.html", false)];
    let analysis = analyze_watch_changes(&changed_paths, "site/trees", "site/trees", "site/assets", "site/assets");
    assert!(has(&analysis.dirty_paths, "a.md"));
    assert!(!has(&analysis.dirty_paths, "import-style.html"));
}

#[test]
fn test_analyze_watch_changes_handles_canonicalized_tree_paths() {
    let changed_paths = vec![ChangedPath {
        path: "/tmp/dirty-canonical/trees/sub/../a.typst".to_string(),
        canonical: "/private/tmp/dirty-canonical/trees/a.typst".to_string(),
        is_dir: false,
    }];
    let analysis = analyze_watch_changes(
        &changed_paths,
        "/tmp/dirty-canonical/trees",
        "/private/tmp/dirty-canonical/trees",
        "/tmp/dirty-canonical/assets",
        "/tmp/dirty-canonical/assets",
    );
    assert!(has(&analysis.dirty_paths, "a.typst"));
}

#[test]
fn test_analyze_watch_changes_ignores_temp_and_directory_events() {
    let changed_paths = vec![
        changed("r/trees/index.md", false),
        changed("r/trees/.index.md.swp", false),
        changed("r/trees/sub", true),
    ];
    let analysis = analyze_watch_changes(&changed_paths, "r/trees", "r/trees", "r/assets", "r/assets");
    assert!(has(&analysis.dirty_paths, "index.md"));
    assert!(!has(&analysis.dirty_paths, ".index.md.swp"));
    assert!(!has(&analysis.dirty_paths, "sub"));
}

#[test]
fn test_analyze_watch_changes_classifies_paths_and_filters_noise() {
    let changed_paths = vec![
        changed("r/trees/index.md", false),
        changed("r/trees/includes/snippet.txt", false),
        changed("r/trees/.index.md.swp", false),
        changed("r/trees/sub", true),
        changed("r/assets/logo.svg", false),
        changed("r/themes/theme.html", false),
    ];
    let analysis = analyze_watch_changes(&changed_paths, "r/trees", "r/trees", "r/assets", "r/assets");
    assert!(has(&analysis.dirty_paths, "index.md"));
    assert!(has(&analysis.dirty_paths, "includes/snippet.txt"));
    assert_eq!(
        analysis.stats,
        WatchChangeStats {
            total_paths: 6,
            tree_source_paths: 1,
            tree_dependency_paths: 1,
            asset_paths: 1,
            global_paths: 1,
            ignored_temp_paths: 1,
            ignored_directory_paths: 1,
        }
    );
    assert!(analysis.stats.has_effective_changes());
}

#[test]
fn test_analyze_watch_changes_lists_each_dirty_path_once() {
    let changed_paths = vec![
        changed("t/a.md", false),
        changed("t/./a.md", false),
        changed("t/b.typ", false),
        changed("t", true),
        changed("t", false),
    ];
    let analysis = analyze_watch_changes(&changed_paths, "t", "t", "x", "x");
    assert_eq!(analysis.dirty_paths, vec!["a.md".to_string(), "b.typ".to_string()]);
    assert_eq!(analysis.stats.tree_source_paths, 3);
    assert_eq!(analysis.stats.global_paths, 1);
}

#[test]
fn test_classify_changed_path_prefers_trees_over_assets() {
    let c = changed("site/trees/assets/x.png", false);
    match classify_changed_path(&c, "site/trees", "site/trees", "site/trees/assets", "site/trees/assets") {
        PathClass::TreeDependency(r) => assert_eq!(r, "assets/x.png"),
        other => panic!("unexpected {:?}", other),
    }
    let c = changed("site/treesx/a.md", false);
    assert!(matches!(classify_changed_path(&c, "site/trees", "site/trees", "a", "a"), PathClass::Global));
}

#[test]
fn test_should_restart_for_config_change_exact_path() {
    let config = "site/Kodama.toml";
    assert!(kodama::watch::should_restart_for_config_change(config, config, config, config));
}

#[test]
fn test_should_restart_for_config_change_other_file() {
    let config = "site/Kodama.toml";
    let changed = "site/trees/index.md";
    assert!(!kodama::watch::should_restart_for_config_change(changed, changed, config, config));
}

#[test]
fn config_change_is_found_by_components_or_canonical_form() {
    // `Path` equality compares components.
    assert!(kodama::watch::should_restart_for_config_change(
        "site//Kodama.toml",
        "/x/other",
        "site/Kodama.toml",
        "/x/site/Kodama.toml"
    ));
    assert!(kodama::watch::should_restart_for_config_change(
        "site/sub/../Kodama.toml",
        "/x/site/Kodama.toml",
        "site/Kodama.toml",
        "/x/site/Kodama.toml"
    ));
}
