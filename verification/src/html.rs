//! Building blocks of the generated pages: every element is written as
//! `<tag attr="value" ...>children</tag>`, children concatenated in order.
use vstd::prelude::*;

use crate::environment::{full_html_url, full_html_url_spec, get_toc_text, Environment};
use crate::section::{remove_tags, remove_tags_spec};
use crate::slug::{replace_char, to_hash_id, Slug};
use crate::text::{chars_of, decimal, push_all, push_decimal, push_str, string_of};

verus! {

/// `<tag attrs>body</tag>`.
pub open spec fn elem(tag: Seq<char>, attrs: Seq<char>, body: Seq<char>) -> Seq<char> {
    "<"@ + tag + attrs + ">"@ + body + "</"@ + tag + ">"@
}

/// ` name="value"`.
pub open spec fn attr(name: Seq<char>, value: Seq<char>) -> Seq<char> {
    " "@ + name + "=\""@ + value + "\""@
}

/// Appends ` name="value"`.
pub fn push_attr(r: &mut Vec<char>, name: &str, value: &[char])
    ensures
        final(r)@ == old(r)@ + attr(name@, value@),
{
    let ghost r0 = r@;
    push_str(r, " ");
    push_str(r, name);
    push_str(r, "=\"");
    push_all(r, value);
    push_str(r, "\"");
    assert(r@ =~= r0 + attr(name@, value@));
}

/// `<tag attrs>body</tag>` as characters.
pub fn element(tag: &str, attrs: &[char], body: &[char]) -> (r: Vec<char>)
    ensures
        r@ == elem(tag@, attrs@, body@),
{
    let mut r: Vec<char> = Vec::new();
    push_str(&mut r, "<");
    push_str(&mut r, tag);
    push_all(&mut r, attrs);
    push_str(&mut r, ">");
    push_all(&mut r, body);
    push_str(&mut r, "</");
    push_str(&mut r, tag);
    push_str(&mut r, ">");
    assert(r@ =~= elem(tag@, attrs@, body@));
    r
}

/// A single attribute as characters.
fn one_attr(name: &str, value: &str) -> (r: Vec<char>)
    ensures
        r@ == attr(name@, value@),
{
    let mut r: Vec<char> = Vec::new();
    let v = chars_of(value);
    push_attr(&mut r, name, v.as_slice());
    assert(r@ =~= attr(name@, value@));
    r
}

/// The concatenation of two strings.
fn concat(a: &[char], b: &[char]) -> (r: Vec<char>)
    ensures
        r@ == a@ + b@,
{
    let mut r: Vec<char> = Vec::new();
    push_all(&mut r, a);
    push_all(&mut r, b);
    assert(r@ =~= a@ + b@);
    r
}

// ---------------------------------------------------------------------------
// Sections
// ---------------------------------------------------------------------------
pub open spec fn footer_section_spec(id: Seq<char>, summary: Seq<char>, content: Seq<char>) -> Seq<
    char,
> {
    let header = "<header><h1>"@ + summary + "</h1></header>"@;
    let inner = elem("summary"@, Seq::empty(), header) + content;
    let details = "<details open>"@ + inner + "</details>"@;
    elem("section"@, attr("class"@, "block link-list"@) + attr("id"@, id), details)
}

/// A footer block (references, backlinks) with an open `<details>`.
pub fn html_footer_section(id: &str, summary: &str, content: &str) -> (r: String)
    ensures
        r@ == footer_section_spec(id@, summary@, content@),
{
    let mut header: Vec<char> = Vec::new();
    push_str(&mut header, "<header><h1>");
    push_str(&mut header, summary);
    push_str(&mut header, "</h1></header>");
    let empty: Vec<char> = Vec::new();
    let mut inner = element("summary", empty.as_slice(), header.as_slice());
    push_str(&mut inner, content);
    let mut details: Vec<char> = Vec::new();
    push_str(&mut details, "<details open>");
    push_all(&mut details, inner.as_slice());
    push_str(&mut details, "</details>");
    let mut attrs = one_attr("class", "block link-list");
    let idv = chars_of(id);
    push_attr(&mut attrs, "id", idv.as_slice());
    let r = element("section", attrs.as_slice(), details.as_slice());
    assert(header@ =~= "<header><h1>"@ + summary@ + "</h1></header>"@);
    assert(empty@ =~= Seq::<char>::empty());
    assert(details@ =~= "<details open>"@ + inner@ + "</details>"@);
    string_of(r.as_slice())
}

pub open spec fn section_spec(
    summary: Seq<char>,
    content: Seq<char>,
    hide_metadata: bool,
    open: bool,
    id: Seq<char>,
    data_taxon: Option<Seq<char>>,
) -> Seq<char> {
    let class = if hide_metadata {
        "block hide-metadata"@
    } else {
        "block"@
    };
    let taxon = match data_taxon {
        Some(t) => t,
        None => Seq::empty(),
    };
    let open_text = if open {
        "open"@
    } else {
        Seq::empty()
    };
    let inner = elem("summary"@, attr("id"@, id), summary) + content;
    let details = "<details "@ + open_text + ">"@ + inner + "</details>"@;
    elem("section"@, attr("class"@, class) + attr("data-taxon"@, taxon), details)
}

/// A section block: its header in `<summary>`, its content after it.
pub fn html_section(
    summary: &str,
    content: &str,
    hide_metadata: bool,
    open: bool,
    id: &str,
    data_taxon: Option<&str>,
) -> (r: String)
    ensures
        r@ == section_spec(
            summary@,
            content@,
            hide_metadata,
            open,
            id@,
            match data_taxon {
                Some(t) => Some(t@),
                None => None,
            },
        ),
{
    let summary_attrs = one_attr("id", id);
    let sv = chars_of(summary);
    let mut inner = element("summary", summary_attrs.as_slice(), sv.as_slice());
    push_str(&mut inner, content);
    let mut details: Vec<char> = Vec::new();
    push_str(&mut details, "<details ");
    if open {
        push_str(&mut details, "open");
    }
    push_str(&mut details, ">");
    push_all(&mut details, inner.as_slice());
    push_str(&mut details, "</details>");
    let mut attrs = if hide_metadata {
        one_attr("class", "block hide-metadata")
    } else {
        one_attr("class", "block")
    };
    let taxon: Vec<char> = match data_taxon {
        Some(t) => chars_of(t),
        None => Vec::new(),
    };
    push_attr(&mut attrs, "data-taxon", taxon.as_slice());
    let r = element("section", attrs.as_slice(), details.as_slice());
    proof {
        let open_text = if open {
            "open"@
        } else {
            Seq::empty()
        };
        assert(details@ =~= "<details "@ + open_text + ">"@ + inner@ + "</details>"@);
    }
    string_of(r.as_slice())
}

// ---------------------------------------------------------------------------
// Catalog
// ---------------------------------------------------------------------------
pub open spec fn catalog_item_spec(
    env: Environment,
    slug: Seq<char>,
    title: Seq<char>,
    page_title: Seq<char>,
    details_open: bool,
    taxon: Seq<char>,
    child_html: Seq<char>,
) -> Seq<char> {
    let title_text = page_title + " ["@ + slug + "]"@;
    let onclick = "window.location.href='#"@ + replace_char(slug, '/', '-') + "'"@;
    let class = if details_open {
        Seq::empty()
    } else {
        "item-summary"@
    };
    let bullet = elem(
        "a"@,
        attr("class"@, "bullet"@) + attr("href"@, full_html_url_spec(env, slug)) + attr(
            "title"@,
            title_text,
        ),
        "■"@,
    );
    let link = elem(
        "span"@,
        attr("class"@, "link local"@) + attr("onclick"@, onclick),
        elem("span"@, attr("class"@, "taxon"@), taxon) + title,
    );
    elem("li"@, attr("class"@, class), bullet + link + child_html)
}

/// One entry of the table of contents.
pub fn catalog_item(
    env: &Environment,
    slug: &Slug,
    title: &str,
    page_title: &str,
    details_open: bool,
    taxon: &str,
    child_html: &str,
) -> (r: String)
    ensures
        r@ == catalog_item_spec(
            *env,
            slug@,
            title@,
            page_title@,
            details_open,
            taxon@,
            child_html@,
        ),
{
    let slug_url = full_html_url(env, slug);
    let mut title_text = chars_of(page_title);
    push_str(&mut title_text, " [");
    push_str(&mut title_text, slug.as_str());
    push_str(&mut title_text, "]");
    let hash_id = to_hash_id(slug.as_str());
    let mut onclick: Vec<char> = Vec::new();
    push_str(&mut onclick, "window.location.href='#");
    push_str(&mut onclick, hash_id.as_str());
    push_str(&mut onclick, "'");
    let mut bullet_attrs = one_attr("class", "bullet");
    let url = chars_of(slug_url.as_str());
    push_attr(&mut bullet_attrs, "href", url.as_slice());
    push_attr(&mut bullet_attrs, "title", title_text.as_slice());
    let square = chars_of("■");
    let bullet = element("a", bullet_attrs.as_slice(), square.as_slice());
    let mut link_attrs = one_attr("class", "link local");
    push_attr(&mut link_attrs, "onclick", onclick.as_slice());
    let taxon_v = chars_of(taxon);
    let taxon_attrs = one_attr("class", "taxon");
    let mut link_body = element("span", taxon_attrs.as_slice(), taxon_v.as_slice());
    push_str(&mut link_body, title);
    let link = element("span", link_attrs.as_slice(), link_body.as_slice());
    let mut body = concat(bullet.as_slice(), link.as_slice());
    push_str(&mut body, child_html);
    let class_attrs = if details_open {
        one_attr("class", "")
    } else {
        one_attr("class", "item-summary")
    };
    let r = element("li", class_attrs.as_slice(), body.as_slice());
    proof {
        reveal_strlit("");
        assert(title_text@ =~= page_title@ + " ["@ + slug@ + "]"@);
        assert(onclick@ =~= "window.location.href='#"@ + replace_char(slug@, '/', '-') + "'"@);
        assert(""@ =~= Seq::<char>::empty());
    }
    string_of(r.as_slice())
}

pub open spec fn catalog_block_spec(toc_text: Seq<char>, items: Seq<char>) -> Seq<char> {
    let summary = elem("summary"@, Seq::empty(), elem("h1"@, Seq::empty(), toc_text));
    elem(
        "div"@,
        attr("class"@, "block"@),
        elem("details"@, attr("open"@, Seq::empty()), summary + items),
    )
}

/// The table of contents block around its items.
pub fn html_catalog_block(env: &Environment, items: &str) -> (r: String)
    ensures
        r@ == catalog_block_spec(env.config.text.toc@, items@),
{
    let toc_text = get_toc_text(env);
    let toc = chars_of(toc_text.as_str());
    let empty: Vec<char> = Vec::new();
    let h1 = element("h1", empty.as_slice(), toc.as_slice());
    let mut inner = element("summary", empty.as_slice(), h1.as_slice());
    push_str(&mut inner, items);
    let open_attr = one_attr("open", "");
    let details = element("details", open_attr.as_slice(), inner.as_slice());
    let block_attr = one_attr("class", "block");
    let r = element("div", block_attr.as_slice(), details.as_slice());
    proof {
        reveal_strlit("");
        assert(empty@ =~= Seq::<char>::empty());
        assert(""@ =~= Seq::<char>::empty());
    }
    string_of(r.as_slice())
}

// ---------------------------------------------------------------------------
// Small elements
// ---------------------------------------------------------------------------
pub open spec fn inline_typst_span_spec(svg: Seq<char>) -> Seq<char> {
    elem("span"@, attr("class"@, "inline-typst"@), svg)
}

/// Inline Typst output wrapped in its span.
pub fn html_inline_typst_span(svg: &str) -> (r: String)
    ensures
        r@ == inline_typst_span_spec(svg@),
{
    let a = one_attr("class", "inline-typst");
    let s = chars_of(svg);
    let r = element("span", a.as_slice(), s.as_slice());
    string_of(r.as_slice())
}

/// The page footer: references, then backlinks.
pub fn html_footer(references_html: &str, backlinks_html: &str) -> (r: String)
    ensures
        r@ == elem("footer"@, Seq::empty(), references_html@ + backlinks_html@),
{
    let a = chars_of(references_html);
    let b = chars_of(backlinks_html);
    let body = concat(a.as_slice(), b.as_slice());
    let empty: Vec<char> = Vec::new();
    let r = element("footer", empty.as_slice(), body.as_slice());
    assert(empty@ =~= Seq::<char>::empty());
    string_of(r.as_slice())
}

pub open spec fn footnote_reference_spec(s: Seq<char>, back_id: Seq<char>, number: nat) -> Seq<
    char,
> {
    elem(
        "sup"@,
        attr("class"@, "footnote-reference"@) + attr("id"@, back_id),
        elem("a"@, attr("href"@, "#"@ + s), decimal(number)),
    )
}

/// The superscript that links to footnote `s`.
pub fn footnote_reference(s: &str, back_id: &str, number: usize) -> (r: String)
    ensures
        r@ == footnote_reference_spec(s@, back_id@, number as nat),
{
    let mut href: Vec<char> = Vec::new();
    push_str(&mut href, "#");
    push_str(&mut href, s);
    let mut a_attrs: Vec<char> = Vec::new();
    push_attr(&mut a_attrs, "href", href.as_slice());
    let mut num: Vec<char> = Vec::new();
    push_decimal(&mut num, number);
    let a = element("a", a_attrs.as_slice(), num.as_slice());
    let mut attrs = one_attr("class", "footnote-reference");
    let back = chars_of(back_id);
    push_attr(&mut attrs, "id", back.as_slice());
    let r = element("sup", attrs.as_slice(), a.as_slice());
    assert(href@ =~= "#"@ + s@);
    assert(a_attrs@ =~= attr("href"@, href@));
    assert(num@ =~= decimal(number as nat));
    string_of(r.as_slice())
}

pub open spec fn image_spec(src: Seq<char>, class: Seq<char>) -> Seq<char> {
    "<img src=\""@ + src + "\" class=\""@ + class + "\"/>"@
}

/// An `<img>` with a class.
pub fn html_image(image_src: &str, class_name: &str) -> (r: String)
    ensures
        r@ == image_spec(image_src@, class_name@),
{
    let mut r: Vec<char> = Vec::new();
    push_str(&mut r, "<img src=\"");
    push_str(&mut r, image_src);
    push_str(&mut r, "\" class=\"");
    push_str(&mut r, class_name);
    push_str(&mut r, "\"/>");
    assert(r@ =~= image_spec(image_src@, class_name@));
    string_of(r.as_slice())
}

/// An image whose colours are inverted in dark mode.
pub fn html_image_color_invert(image_src: &str) -> (r: String)
    ensures
        r@ == image_spec(image_src@, "color-invert"@),
{
    html_image(image_src, "color-invert")
}

/// A caption, wrapped in `<figcaption>` unless it is empty.
pub open spec fn caption_spec(caption: Seq<char>) -> Seq<char> {
    if caption.len() == 0 {
        caption
    } else {
        elem("figcaption"@, Seq::empty(), caption)
    }
}

fn caption_html(caption: &str) -> (r: Vec<char>)
    ensures
        r@ == caption_spec(caption@),
{
    let c = chars_of(caption);
    if c.len() == 0 {
        c
    } else {
        let empty: Vec<char> = Vec::new();
        let r = element("figcaption", empty.as_slice(), c.as_slice());
        assert(empty@ =~= Seq::<char>::empty());
        r
    }
}

pub open spec fn figure_spec(src: Seq<char>, is_block: bool, caption: Seq<char>) -> Seq<char> {
    let img = image_spec(src, "color-invert"@);
    if !is_block {
        inline_typst_span_spec(img)
    } else {
        elem("figure"@, Seq::empty(), img + caption_spec(caption))
    }
}

/// A rendered figure: inline as a span, or as a block with its caption.
pub fn html_figure(image_src: &str, is_block: bool, caption: String) -> (r: String)
    ensures
        r@ == figure_spec(image_src@, is_block, caption@),
{
    let img = html_image_color_invert(image_src);
    if !is_block {
        return html_inline_typst_span(img.as_str());
    }
    let cap = caption_html(caption.as_str());
    let iv = chars_of(img.as_str());
    let body = concat(iv.as_slice(), cap.as_slice());
    let empty: Vec<char> = Vec::new();
    let r = element("figure", empty.as_slice(), body.as_slice());
    assert(empty@ =~= Seq::<char>::empty());
    string_of(r.as_slice())
}

pub open spec fn figure_code_spec(src: Seq<char>, caption: Seq<char>, code: Seq<char>) -> Seq<
    char,
> {
    let figure = elem(
        "figure"@,
        Seq::empty(),
        image_spec(src, "color-invert"@) + caption_spec(caption),
    );
    let pre = elem("pre"@, Seq::empty(), code);
    elem("details"@, Seq::empty(), elem("summary"@, Seq::empty(), figure) + pre)
}

/// A figure that unfolds to show the code it was rendered from.
pub fn html_figure_code(image_src: &str, caption: String, code: String) -> (r: String)
    ensures
        r@ == figure_code_spec(image_src@, caption@, code@),
{
    let img = html_image_color_invert(image_src);
    let cap = caption_html(caption.as_str());
    let iv = chars_of(img.as_str());
    let fig_body = concat(iv.as_slice(), cap.as_slice());
    let empty: Vec<char> = Vec::new();
    let figure = element("figure", empty.as_slice(), fig_body.as_slice());
    let cv = chars_of(code.as_str());
    let pre = element("pre", empty.as_slice(), cv.as_slice());
    let summary = element("summary", empty.as_slice(), figure.as_slice());
    let body = concat(summary.as_slice(), pre.as_slice());
    let r = element("details", empty.as_slice(), body.as_slice());
    assert(empty@ =~= Seq::<char>::empty());
    string_of(r.as_slice())
}

pub open spec fn code_block_spec(code: Seq<char>, language: Seq<char>) -> Seq<char> {
    elem(
        "pre"@,
        Seq::empty(),
        elem("code"@, attr("class"@, "language-"@ + language), code),
    )
}

/// A code block tagged with its language.
pub fn html_code_block(code: &str, language: &str) -> (r: String)
    ensures
        r@ == code_block_spec(code@, language@),
{
    let mut class: Vec<char> = Vec::new();
    push_str(&mut class, "language-");
    push_str(&mut class, language);
    let mut attrs: Vec<char> = Vec::new();
    push_attr(&mut attrs, "class", class.as_slice());
    let cv = chars_of(code);
    let inner = element("code", attrs.as_slice(), cv.as_slice());
    let empty: Vec<char> = Vec::new();
    let r = element("pre", empty.as_slice(), inner.as_slice());
    assert(empty@ =~= Seq::<char>::empty());
    assert(class@ =~= "language-"@ + language@);
    assert(attrs@ =~= attr("class"@, class@));
    string_of(r.as_slice())
}

/// What text becomes inside an element: `&`, `<` and `>` are written as
/// entities, every other character as it is.
pub open spec fn escape_text_spec(s: Seq<char>) -> Seq<char>
    decreases s.len(),
{
    if s.len() == 0 {
        Seq::empty()
    } else {
        escape_text_spec(s.drop_last()) + if s.last() == '&' {
            "&amp;"@
        } else if s.last() == '<' {
            "&lt;"@
        } else if s.last() == '>' {
            "&gt;"@
        } else {
            seq![s.last()]
        }
    }
}

/// `htmlize::escape_text`. Its contract states the crate's documented and
/// implemented mapping: the three characters `&`, `<`, `>` become `&amp;`,
/// `&lt;`, `&gt;`; all others are copied.
#[verifier::external_body]
fn escape_text(s: &str) -> (r: String)
    ensures
        r@ == escape_text_spec(s@),
{
    htmlize::escape_text(s).into_owned()
}

/// The code block that shows an included file: its text escaped, the block
/// marked with `language`.
pub fn html_include_block(content: &str, language: &str) -> (r: String)
    ensures
        r@ == code_block_spec(escape_text_spec(content@), language@),
{
    let escaped = escape_text(content);
    html_code_block(escaped.as_str(), language)
}

pub open spec fn header_nav_spec(title: Seq<char>, page_title: Seq<char>, href: Seq<char>) -> Seq<
    char,
> {
    let onclick = "window.location.href='"@ + href + "'"@;
    let span = elem(
        "span"@,
        attr("class"@, "cursor-pointer"@) + attr("onclick"@, onclick) + attr("title"@, page_title),
        "« "@ + title,
    );
    elem(
        "header"@,
        attr("class"@, "header"@),
        elem("nav"@, attr("class"@, "nav"@), elem("div"@, attr("class"@, "logo"@), span)),
    )
}

/// The navigation header that leads back to the parent page.
pub fn html_header_nav(title: &str, page_title: &str, href: &str) -> (r: String)
    ensures
        r@ == header_nav_spec(title@, page_title@, href@),
{
    let mut onclick: Vec<char> = Vec::new();
    push_str(&mut onclick, "window.location.href='");
    push_str(&mut onclick, href);
    push_str(&mut onclick, "'");
    let mut attrs = one_attr("class", "cursor-pointer");
    push_attr(&mut attrs, "onclick", onclick.as_slice());
    let pt = chars_of(page_title);
    push_attr(&mut attrs, "title", pt.as_slice());
    let mut text: Vec<char> = Vec::new();
    push_str(&mut text, "« ");
    push_str(&mut text, title);
    let span = element("span", attrs.as_slice(), text.as_slice());
    let logo_attrs = one_attr("class", "logo");
    let div = element("div", logo_attrs.as_slice(), span.as_slice());
    let nav_attrs = one_attr("class", "nav");
    let nav = element("nav", nav_attrs.as_slice(), div.as_slice());
    let header_attrs = one_attr("class", "header");
    let r = element("header", header_attrs.as_slice(), nav.as_slice());
    assert(onclick@ =~= "window.location.href='"@ + href@ + "'"@);
    assert(text@ =~= "« "@ + title@);
    string_of(r.as_slice())
}

// ---------------------------------------------------------------------------
// Links
// ---------------------------------------------------------------------------
/// What an attribute value becomes inside double quotes: `&`, `<`, `>` and
/// `"` are written as entities, every other character as it is.
pub open spec fn escape_attr_spec(s: Seq<char>) -> Seq<char>
    decreases s.len(),
{
    if s.len() == 0 {
        Seq::empty()
    } else {
        escape_attr_spec(s.drop_last()) + if s.last() == '&' {
            "&amp;"@
        } else if s.last() == '<' {
            "&lt;"@
        } else if s.last() == '>' {
            "&gt;"@
        } else if s.last() == '"' {
            "&quot;"@
        } else {
            seq![s.last()]
        }
    }
}

/// `htmlize::escape_attribute`. Its contract states the crate's documented
/// and implemented mapping: the four characters `&`, `<`, `>`, `"` become
/// `&amp;`, `&lt;`, `&gt;`, `&quot;`; all others are copied.
#[verifier::external_body]
pub(crate) fn escape_attribute(s: &str) -> (r: String)
    ensures
        r@ == escape_attr_spec(s@),
{
    htmlize::escape_attribute(s).into_owned()
}

pub open spec fn link_spec(href: Seq<char>, title: Seq<char>, text: Seq<char>, class: Seq<char>) -> Seq<
    char,
> {
    "<span class=\"link "@ + escape_attr_spec(class) + "\"><a href=\""@ + escape_attr_spec(href)
        + "\" title=\""@ + escape_attr_spec(remove_tags_spec(title)) + "\">"@ + text
        + "</a></span>"@
}

/// A link whose tooltip is the title without its markup.
pub fn html_link(href: &str, title: &str, text: &str, class_name: &str) -> (r: String)
    ensures
        r@ == link_spec(href@, title@, text@, class_name@),
{
    let plain_title = remove_tags(title);
    let escaped_href = escape_attribute(href);
    let escaped_title = escape_attribute(plain_title.as_str());
    let escaped_class = escape_attribute(class_name);
    let mut r: Vec<char> = Vec::new();
    push_str(&mut r, "<span class=\"link ");
    push_str(&mut r, escaped_class.as_str());
    push_str(&mut r, "\"><a href=\"");
    push_str(&mut r, escaped_href.as_str());
    push_str(&mut r, "\" title=\"");
    push_str(&mut r, escaped_title.as_str());
    push_str(&mut r, "\">");
    push_str(&mut r, text);
    push_str(&mut r, "</a></span>");
    assert(r@ =~= link_spec(href@, title@, text@, class_name@));
    string_of(r.as_slice())
}

} // verus!
