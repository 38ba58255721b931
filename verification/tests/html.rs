use kodama::environment::mock_environment;
use kodama::html::{
    catalog_item, footnote_reference, html_catalog_block, html_code_block, html_figure,
    html_figure_code, html_footer, html_footer_section, html_header_nav, html_image,
    html_inline_typst_span, html_link, html_section,
};
use kodama::slug::Slug;

#[test]
fn code_block_matches_markdown_output() {
    assert_eq!(
        html_code_block("let x = 1;\n", "rs"),
        "<pre><code class=\"language-rs\">let x = 1;\n</code></pre>"
    );
}

#[test]
fn test_html_link_escapes_title_attribute() {
    let html = html_link(
        "/AC2C",
        r#"<span lang="zh">abc</span> [AC2C]""#,
        r#"<span lang="zh">abc</span>"#,
        "local",
    );
    assert!(html.contains(r#"href="/AC2C""#));
    assert!(html.contains(r#"title="abc [AC2C]&quot;""#));
    assert!(!html.contains("&lt;span"));
    assert!(!html.contains("&lt;/span&gt;"));
    assert!(!html.contains(r#"title="<span lang="zh">"#));
    assert!(html.contains(r#"><span lang="zh">abc</span></a>"#));
}

#[test]
fn section_block_layout() {
    let html = html_section("S", "C", true, false, "a-b", Some("def"));
    assert_eq!(
        html,
        "<section class=\"block hide-metadata\" data-taxon=\"def\"><details ><summary id=\"a-b\">S</summary>C</details></section>"
    );
    let open = html_section("S", "", false, true, "x", None);
    assert_eq!(
        open,
        "<section class=\"block\" data-taxon=\"\"><details open><summary id=\"x\">S</summary></details></section>"
    );
}

#[test]
fn footer_blocks() {
    assert_eq!(
        html_footer_section("references", "References", "<ul></ul>"),
        "<section class=\"block link-list\" id=\"references\"><details open><summary><header><h1>References</h1></header></summary><ul></ul></details></section>"
    );
    assert_eq!(html_footer("a", "b"), "<footer>ab</footer>");
}

#[test]
fn small_elements() {
    assert_eq!(
        html_inline_typst_span("<svg/>"),
        "<span class=\"inline-typst\"><svg/></span>"
    );
    assert_eq!(
        footnote_reference("fn-1", "back-1", 12),
        "<sup class=\"footnote-reference\" id=\"back-1\"><a href=\"#fn-1\">12</a></sup>"
    );
    assert_eq!(html_image("a.svg", "c"), "<img src=\"a.svg\" class=\"c\"/>");
    assert_eq!(
        html_figure("a.svg", false, String::new()),
        "<span class=\"inline-typst\"><img src=\"a.svg\" class=\"color-invert\"/></span>"
    );
    assert_eq!(
        html_figure("a.svg", true, "cap".to_string()),
        "<figure><img src=\"a.svg\" class=\"color-invert\"/><figcaption>cap</figcaption></figure>"
    );
    assert_eq!(
        html_figure("a.svg", true, String::new()),
        "<figure><img src=\"a.svg\" class=\"color-invert\"/></figure>"
    );
    assert_eq!(
        html_figure_code("a.svg", String::new(), "x".to_string()),
        "<details><summary><figure><img src=\"a.svg\" class=\"color-invert\"/></figure></summary><pre>x</pre></details>"
    );
    assert_eq!(
        html_header_nav("Home", "Home page", "/index"),
        "<header class=\"header\"><nav class=\"nav\"><div class=\"logo\"><span class=\"cursor-pointer\" onclick=\"window.location.href='/index'\" title=\"Home page\">« Home</span></div></nav></header>"
    );
}

#[test]
fn catalog_uses_environment() {
    let env = mock_environment();
    let block = html_catalog_block(&env, "<li></li>");
    assert_eq!(
        block,
        "<div class=\"block\"><details open=\"\"><summary><h1>Table of Contents</h1></summary><li></li></details></div>"
    );
    let item = catalog_item(&env, &Slug::new("a/b"), "T", "P", false, "Def. ", "");
    assert!(item.starts_with("<li class=\"item-summary\"><a class=\"bullet\" href=\"/a/b.html\" title=\"P [a/b]\">■</a>"));
    assert!(item.contains("onclick=\"window.location.href='#a-b'\""));
    assert!(item.ends_with("<span class=\"taxon\">Def. </span>T</span></li>"));
}
