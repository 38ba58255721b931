use kodama::entry::EntryMetaData;
use kodama::environment::mock_environment;
use kodama::order::{compare_dates, parse_date};
use kodama::rss::{channel_title, feed_xml, sort_feed_items, xml_escape, FeedItem};
use kodama::slug::Slug;

fn item(slug: &str, date: &str) -> FeedItem {
    FeedItem {
        slug: Slug::new(slug),
        title: slug.to_string(),
        link: format!("https://example.com/{slug}"),
        date: date.to_string(),
    }
}

#[test]
fn test_sort_feed_items_uses_parsed_date_desc() {
    let mut items = vec![
        FeedItem {
            slug: Slug::new("old"),
            title: "Old".to_string(),
            link: "https://example.com/old".to_string(),
            date: "January 2, 2020".to_string(),
        },
        FeedItem {
            slug: Slug::new("mid"),
            title: "Mid".to_string(),
            link: "https://example.com/mid".to_string(),
            date: "2021-01-01".to_string(),
        },
        FeedItem {
            slug: Slug::new("new"),
            title: "New".to_string(),
            link: "https://example.com/new".to_string(),
            date: "August 15, 2021".to_string(),
        },
    ];

    sort_feed_items(&mut items);

    assert_eq!(items[0].slug.as_str(), Slug::new("new").as_str());
    assert_eq!(items[1].slug.as_str(), Slug::new("mid").as_str());
    assert_eq!(items[2].slug.as_str(), Slug::new("old").as_str());
}

#[test]
fn test_xml_escape_escapes_special_chars() {
    assert_eq!(
        xml_escape(r#"Tom & Jerry <"quote"> 'single'"#),
        "Tom &amp; Jerry &lt;&quot;quote&quot;&gt; &apos;single&apos;"
    );
}

#[test]
fn sort_breaks_ties_by_slug_and_puts_undated_last() {
    let mut items = vec![
        item("b", "2021-03-04"),
        item("z", ""),
        item("a", "March 4, 2021"),
        item("c", "Mar 5, 2021"),
    ];
    sort_feed_items(&mut items);
    let order: Vec<&str> = items.iter().map(|i| i.slug.as_str()).collect();
    assert_eq!(order, vec!["c", "a", "b", "z"]);
}

#[test]
fn dates_parse_in_both_forms() {
    assert_eq!(parse_date(" 2021-01-02 "), Some((2021, 1, 2)));
    assert_eq!(parse_date("August 15, 2021"), Some((2021, 8, 15)));
    assert_eq!(parse_date("Aug 5, 2021"), Some((2021, 8, 5)));
    assert_eq!(parse_date("someday"), None);
    assert_eq!(compare_dates("2020-12-31", "January 1, 2021"), -1);
    assert_eq!(compare_dates("2021-01-01", "January 1, 2021"), 0);
    assert_eq!(compare_dates("b", "a"), 1);
}

#[test]
fn feed_lists_sections_newest_first() {
    let env = mock_environment();
    let mut index = EntryMetaData::new();
    index.update("title".to_string(), " Notes ".to_string());
    let mut a = EntryMetaData::new();
    a.update("page-title".to_string(), "A & B".to_string());
    a.update("date".to_string(), "2021-01-01".to_string());
    let sections = vec![(Slug::new("index"), index), (Slug::new("a"), a)];
    assert_eq!(channel_title(&sections), "Notes");
    let xml = feed_xml(&env, &sections);
    let expected = "<?xml version=\"1.0\" encoding=\"UTF-8\"?>\n<rss version=\"2.0\">\n  <channel>\n    <title>Notes</title>\n    <link>/</link>\n    <description>RSS feed for Notes</description>\n    <item>\n      <title>A &amp; B</title>\n      <link>/a.html</link>\n      <guid>/a.html</guid>\n      <pubDate>2021-01-01</pubDate>\n    </item>\n    <item>\n      <title>Notes</title>\n      <link>/index.html</link>\n      <guid>/index.html</guid>\n    </item>\n  </channel>\n</rss>\n";
    assert_eq!(xml, expected);
}
