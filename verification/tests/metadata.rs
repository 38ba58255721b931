use kodama::entry::{is_custom_metadata, is_fancy_metadata, is_plain_metadata, EntryMetaData, HTMLMetaData};
use kodama::section::{EmbedContent, HTMLContent, LazyContent, SectionOption};
use kodama::environment::mock_environment;
use kodama::handler;
use kodama::metadata::display_taxon;

#[test]
fn taxon_display_capitalizes_and_appends_period() {
    assert_eq!(display_taxon("remark"), "Remark. ");
    assert_eq!(display_taxon(""), ". ");
    assert_eq!(display_taxon("中文"), "中文. ");
    assert_eq!(handler::display_taxon("theorem"), "Theorem. ");
    assert_eq!(handler::display_taxon("中文"), "中文");
    assert_eq!(handler::display_option_taxon(None), "");
}

#[test]
fn metadata_key_classes() {
    assert!(is_plain_metadata("page-title"));
    assert!(is_fancy_metadata("title"));
    assert!(!is_custom_metadata("taxon"));
    assert!(is_custom_metadata("author"));
}

#[test]
fn entry_metadata_queries() {
    let mut m = EntryMetaData::new();
    m.update("slug".to_string(), "notes/a".to_string());
    m.update("author".to_string(), "me".to_string());
    m.update("backlinks".to_string(), "false".to_string());
    m.update("collect".to_string(), "maybe".to_string());
    assert_eq!(m.id(), "notes-a");
    assert_eq!(m.etc_keys(), vec!["author".to_string()]);
    assert!(!m.is_enable_backlinks());
    assert!(m.is_enable_references());
    assert_eq!(m.get_bool("collect"), None);
    assert!(!m.is_collect());
    m.update("slug".to_string(), "b".to_string());
    assert_eq!(m.keys(), vec!["slug", "author", "backlinks", "collect"]);
}

#[test]
fn slug_text_hides_index() {
    let mut env = mock_environment();
    assert_eq!(EntryMetaData::to_slug_text(&env, "notes/index"), "notes");
    assert_eq!(EntryMetaData::to_slug_text(&env, "notes/a"), "notes/a");
    env.config.build.short_slug = true;
    assert_eq!(EntryMetaData::to_slug_text(&env, "notes/deep/a"), "a");
}

#[test]
fn page_title_is_the_title_without_markup() {
    let mut m = HTMLMetaData::new();
    m.insert("title".to_string(), HTMLContent::Plain("A <em>b</em> c".to_string()));
    m.compute_textual_attrs();
    assert_eq!(m.page_title(), Some("A b c"));

    // A plain page title is kept.
    let mut kept = HTMLMetaData::new();
    kept.insert("title".to_string(), HTMLContent::Plain("T".to_string()));
    kept.insert("page-title".to_string(), HTMLContent::Plain("P".to_string()));
    kept.compute_textual_attrs();
    assert_eq!(kept.page_title(), Some("P"));

    // Without a title nothing is added.
    let mut none = HTMLMetaData::new();
    none.compute_textual_attrs();
    assert_eq!(none.page_title(), None);
    assert!(none.keys().is_empty());

    // A lazy title contributes its plain pieces' text.
    let mut lazy = HTMLMetaData::new();
    lazy.insert(
        "title".to_string(),
        HTMLContent::Lazy(vec![
            LazyContent::Plain("<b>x</b>".to_string()),
            LazyContent::Embed(EmbedContent { url: "/y".to_string(), title: None, option: SectionOption::default_option() }),
        ]),
    );
    lazy.compute_textual_attrs();
    assert_eq!(lazy.page_title(), Some("x"));
}

#[test]
fn data_taxon_is_the_taxon_text_without_its_display_suffix() {
    let mut m = HTMLMetaData::new();
    m.insert("taxon".to_string(), HTMLContent::Plain("<b>Reference</b>. ".to_string()));
    m.compute_textual_attrs();
    assert_eq!(m.data_taxon(), Some("Reference"));
    assert_eq!(m.page_title(), None);

    // A plain data taxon is kept; a second call changes nothing.
    let mut kept = HTMLMetaData::new();
    kept.insert("taxon".to_string(), HTMLContent::Plain("Theorem. ".to_string()));
    kept.insert("data-taxon".to_string(), HTMLContent::Plain("lemma".to_string()));
    kept.insert("title".to_string(), HTMLContent::Plain("T".to_string()));
    kept.compute_textual_attrs();
    kept.compute_textual_attrs();
    assert_eq!(kept.data_taxon(), Some("lemma"));
    assert_eq!(kept.page_title(), Some("T"));
    assert_eq!(kept.keys(), vec!["taxon", "data-taxon", "title", "page-title"]);

    assert_eq!(kodama::entry::to_data_taxon("Theorem. "), "Theorem");
    assert_eq!(kodama::entry::to_data_taxon("Note"), "Note");
}

#[test]
fn markdown_metadata_starts_with_slug_and_ext() {
    let m = HTMLMetaData::of_markdown(&kodama::slug::Slug::new("a/b"));
    assert_eq!(m.keys(), vec!["slug", "ext"]);
    assert_eq!(m.get_str("slug"), Some("a/b"));
    assert_eq!(m.get_str("ext"), Some("md"));
}
