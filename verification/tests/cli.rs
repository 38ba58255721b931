use kodama::cli::{
    compile_outputs, format_watch_change_stats, live_reload, remove, CompileOutputs,
    OutputControlArgs, RemoveCommand, ServeCommand, WatchChangeStats,
};

fn serve_command(output: OutputControlArgs) -> ServeCommand {
    ServeCommand {
        config: "./Kodama.toml".to_string(),
        verbose: false,
        verbose_skip: false,
        disable_reload: false,
        watch_stats: false,
        output,
    }
}

#[test]
fn test_compile_outputs_default_to_disabled_in_serve() {
    let command = serve_command(OutputControlArgs::default());
    let outputs = compile_outputs(&command);
    assert!(!outputs.indexes);
    assert!(!outputs.graph);
}

#[test]
fn test_compile_outputs_can_be_enabled_in_serve() {
    let command = serve_command(OutputControlArgs {
        indexes: true,
        no_indexes: false,
        graph: true,
        no_graph: false,
    });
    let outputs = compile_outputs(&command);
    assert!(outputs.indexes);
    assert!(outputs.graph);
}

#[test]
fn test_compile_outputs_can_be_disabled_with_compat_flags_in_serve() {
    let command = serve_command(OutputControlArgs {
        indexes: false,
        no_indexes: true,
        graph: false,
        no_graph: true,
    });
    let outputs = compile_outputs(&command);
    assert!(!outputs.indexes);
    assert!(!outputs.graph);
}

#[test]
fn test_format_watch_change_stats_contains_all_counters() {
    let line = format_watch_change_stats(WatchChangeStats {
        total_paths: 7,
        tree_source_paths: 2,
        tree_dependency_paths: 1,
        asset_paths: 1,
        global_paths: 1,
        ignored_temp_paths: 1,
        ignored_directory_paths: 1,
    });
    assert_eq!(
        line,
        "[watch] Stats: total=7, tree_source=2, tree_dependency=1, assets=1, global=1, ignored_temp=1, ignored_dir=1"
    );
}

#[test]
fn resolve_keeps_defaults_without_flags() {
    let on = OutputControlArgs::default().resolve(CompileOutputs::default());
    assert!(on.indexes && on.graph);
    let mixed = OutputControlArgs { indexes: false, no_indexes: true, graph: false, no_graph: false }
        .resolve(CompileOutputs::default());
    assert!(!mixed.indexes);
    assert!(mixed.graph);
}

#[test]
fn effective_changes_ignore_noise() {
    let noise = WatchChangeStats {
        total_paths: 3,
        ignored_temp_paths: 2,
        ignored_directory_paths: 1,
        ..WatchChangeStats::default()
    };
    assert!(!noise.has_effective_changes());
    let global = WatchChangeStats { total_paths: 1, global_paths: 1, ..WatchChangeStats::default() };
    assert!(global.has_effective_changes());
}

#[test]
fn live_reload_defaults_to_on() {
    assert!(live_reload(None));
    assert!(!live_reload(Some(false)));
}

#[test]
fn remove_lists_every_file_of_a_section() {
    let command = RemoveCommand {
        path: vec!["notes/a.md".to_string(), "b".to_string(), "c/.hidden".to_string()],
        output: "./publish".to_string(),
    };
    let files = remove(&command);
    assert_eq!(
        files,
        vec![
            "notes/a.md",
            ".cache/hash/notes/a.md.hash",
            ".cache/entry/notes/a.md.entry",
            "./publish/notes/a.html",
            "b",
            ".cache/hash/b.hash",
            ".cache/entry/b.entry",
            "./publish/b.html",
            "c/.hidden",
            ".cache/hash/c/.hidden.hash",
            ".cache/entry/c/.hidden.entry",
            "./publish/c/.hidden.html",
        ]
    );
}

#[test]
fn test_trees_lib_kodama_typ_path_uses_config_directory_and_trees_setting() {
    assert_eq!(
        kodama::cli::trees_lib_kodama_typ_path("D:/site/Kodama.toml", "notes"),
        "D:/site/notes/_lib/kodama.typ"
    );
    assert_eq!(kodama::cli::trees_lib_kodama_typ_path("Kodama.toml", "trees"), "trees/_lib/kodama.typ");
}

#[test]
fn test_fill_template_replaces_every_file_name_marker() {
    assert_eq!(
        kodama::cli::fill_template("# <FILE_NAME>\n<FILE_NAME><FILE_NAME", "0AB7"),
        "# 0AB7\n0AB7<FILE_NAME"
    );
    assert_eq!(kodama::cli::fill_template("", "x"), "");
}

#[test]
fn test_snippet_labels_title_in_lower_case_with_dashes() {
    let env = kodama::environment::mock_environment();
    let mut m = kodama::entry::HTMLMetaData::new();
    m.insert("title".to_string(), kodama::section::HTMLContent::Plain("My Great Post".to_string()));
    m.insert("ext".to_string(), kodama::section::HTMLContent::Plain("md".to_string()));
    let (prefix, body) = kodama::cli::snippet(&env, &kodama::slug::Slug::new("notes/a"), &m).unwrap();
    assert_eq!(prefix, "My Great Post");
    assert_eq!(body, "[my-great-post]: /trees/notes/a.md");
    let empty = kodama::entry::HTMLMetaData::new();
    assert!(kodama::cli::snippet(&env, &kodama::slug::Slug::new("x"), &empty).is_none());
}
