//! The RSS feed of a site: one item per section, newest first.
use vstd::prelude::*;

use crate::entry::EntryMetaData;
use crate::environment::{full_html_url, full_html_url_spec, full_url, full_url_spec, Environment};
use crate::order::{chars_lt, compare_dates, date_lt, date_same, seq_lt};
use crate::slug::Slug;
use crate::text::{chars_of, owned, push_all, push_str, string_of, trim, trimmed};

verus! {

broadcast use vstd::seq_lib::group_to_multiset_ensures;

/// One entry of the feed.
#[derive(Debug)]
pub struct FeedItem {
    pub slug: Slug,
    pub title: String,
    pub link: String,
    pub date: String,
}

/// `x` is listed before `y`: it is newer, or as new and its slug comes first.
pub open spec fn feed_before(x: FeedItem, y: FeedItem) -> bool {
    date_lt(y.date@, x.date@) || (date_same(x.date@, y.date@) && seq_lt(x.slug@, y.slug@))
}

pub proof fn lemma_feed_before_irreflexive(x: FeedItem)
    ensures
        !feed_before(x, x),
{
    crate::order::lemma_date_lt_irreflexive(x.date@);
    crate::order::lemma_seq_lt_irreflexive(x.slug@);
}

pub proof fn lemma_feed_before_transitive(a: FeedItem, b: FeedItem, c: FeedItem)
    requires
        feed_before(a, b),
        feed_before(b, c),
    ensures
        feed_before(a, c),
{
    if date_lt(b.date@, a.date@) && date_lt(c.date@, b.date@) {
        crate::order::lemma_date_lt_transitive(c.date@, b.date@, a.date@);
    } else if date_same(a.date@, b.date@) && date_same(b.date@, c.date@) {
        crate::order::lemma_seq_lt_transitive(a.slug@, b.slug@, c.slug@);
    }
}

/// Where `x` goes among `s`: before the first item it is listed before.
pub open spec fn insert_position(s: Seq<FeedItem>, x: FeedItem, k: int) -> int
    decreases s.len() - k,
{
    if k >= s.len() {
        s.len() as int
    } else if feed_before(x, s[k]) {
        k
    } else {
        insert_position(s, x, k + 1)
    }
}

/// The items in feed order; items the order does not separate keep their
/// relative order.
pub open spec fn feed_sorted(s: Seq<FeedItem>) -> Seq<FeedItem>
    decreases s.len(),
{
    if s.len() == 0 {
        s
    } else {
        let t = feed_sorted(s.drop_last());
        t.insert(insert_position(t, s.last(), 0), s.last())
    }
}

/// No item is listed before one that precedes it.
pub open spec fn is_feed_ordered(s: Seq<FeedItem>) -> bool {
    forall|i: int, j: int| 0 <= i < j < s.len() ==> !feed_before(#[trigger] s[j], #[trigger] s[i])
}

proof fn lemma_insert_position(s: Seq<FeedItem>, x: FeedItem, k: int)
    requires
        0 <= k <= s.len(),
    ensures
        k <= insert_position(s, x, k) <= s.len(),
        forall|i: int| k <= i < insert_position(s, x, k) ==> !feed_before(x, #[trigger] s[i]),
        insert_position(s, x, k) < s.len() ==> feed_before(x, s[insert_position(s, x, k)]),
    decreases s.len() - k,
{
    if k < s.len() && !feed_before(x, s[k]) {
        lemma_insert_position(s, x, k + 1);
    }
}

proof fn lemma_insert_keeps_order(s: Seq<FeedItem>, x: FeedItem)
    requires
        is_feed_ordered(s),
    ensures
        is_feed_ordered(s.insert(insert_position(s, x, 0), x)),
{
    let p = insert_position(s, x, 0);
    lemma_insert_position(s, x, 0);
    let t = s.insert(p, x);
    assert forall|i: int, j: int| 0 <= i < j < t.len() implies !feed_before(
        #[trigger] t[j],
        #[trigger] t[i],
    ) by {
        if j == p {
            assert(t[i] == s[i]);
        } else if i == p {
            assert(t[j] == s[j - 1]);
            if feed_before(s[j - 1], x) {
                if j - 1 == p {
                    lemma_feed_before_transitive(x, s[p], x);
                    lemma_feed_before_irreflexive(x);
                } else {
                    lemma_feed_before_transitive(s[j - 1], x, s[p]);
                }
            }
        } else {
            let si = if i < p {
                i
            } else {
                i - 1
            };
            let sj = if j < p {
                j
            } else {
                j - 1
            };
            assert(t[i] == s[si]);
            assert(t[j] == s[sj]);
        }
    }
}

/// The sorted items are in feed order.
pub proof fn lemma_feed_sorted_ordered(s: Seq<FeedItem>)
    ensures
        is_feed_ordered(feed_sorted(s)),
    decreases s.len(),
{
    if s.len() > 0 {
        lemma_feed_sorted_ordered(s.drop_last());
        lemma_insert_keeps_order(feed_sorted(s.drop_last()), s.last());
    }
}

/// Sorting keeps every item, each as often as it was there.
pub proof fn lemma_feed_sorted_permutes(s: Seq<FeedItem>)
    ensures
        feed_sorted(s).to_multiset() == s.to_multiset(),
    decreases s.len(),
{
    if s.len() > 0 {
        lemma_feed_sorted_permutes(s.drop_last());
        let t = feed_sorted(s.drop_last());
        lemma_insert_position(t, s.last(), 0);
        assert(s =~= s.drop_last().push(s.last()));
    }
}

/// Whether `x` is listed before `y`.
pub fn feed_before_exec(x: &FeedItem, y: &FeedItem) -> (r: bool)
    ensures
        r == feed_before(*x, *y),
{
    let c = compare_dates(x.date.as_str(), y.date.as_str());
    if c == 1 {
        true
    } else if c == 0 {
        let a = x.slug.chars();
        let b = y.slug.chars();
        chars_lt(a.as_slice(), b.as_slice())
    } else {
        false
    }
}

/// Sorts the items newest first; items of the same date by slug.
pub fn sort_feed_items(items: &mut Vec<FeedItem>)
    ensures
        final(items)@ == feed_sorted(old(items)@),
{
    let mut src: Vec<FeedItem> = Vec::new();
    std::mem::swap(&mut src, items);
    let ghost orig = src@;
    let ghost mut k: int = 0;
    let mut out: Vec<FeedItem> = Vec::new();
    assert(orig.take(0) =~= Seq::<FeedItem>::empty());
    assert(orig.skip(0) =~= orig);
    while src.len() > 0
        invariant
            0 <= k <= orig.len(),
            src@ == orig.skip(k),
            out@ == feed_sorted(orig.take(k)),
        decreases src.len(),
    {
        let x = src.remove(0);
        assert(x == orig[k]);
        let mut j: usize = 0;
        while j < out.len() && !feed_before_exec(&x, &out[j])
            invariant
                j <= out@.len(),
                insert_position(out@, x, 0) == insert_position(out@, x, j as int),
            decreases out.len() - j,
        {
            j = j + 1;
        }
        out.insert(j, x);
        proof {
            assert(orig.take(k + 1).drop_last() =~= orig.take(k));
            assert(orig.take(k + 1).last() == x);
            assert(src@ =~= orig.skip(k + 1));
            k = k + 1;
        }
    }
    assert(orig.take(k) =~= orig);
    *items = out;
}

// ---------------------------------------------------------------------------
// Text of the feed
// ---------------------------------------------------------------------------
/// A character as XML text: `&`, `<`, `>`, `"` and `'` as entities.
pub open spec fn xml_char(c: char) -> Seq<char> {
    if c == '&' {
        "&amp;"@
    } else if c == '<' {
        "&lt;"@
    } else if c == '>' {
        "&gt;"@
    } else if c == '"' {
        "&quot;"@
    } else if c == '\'' {
        "&apos;"@
    } else {
        seq![c]
    }
}

pub open spec fn xml_escape_spec(s: Seq<char>) -> Seq<char>
    decreases s.len(),
{
    if s.len() == 0 {
        Seq::empty()
    } else {
        xml_escape_spec(s.drop_last()) + xml_char(s.last())
    }
}

/// Escapes text for XML.
pub fn xml_escape(value: &str) -> (r: String)
    ensures
        r@ == xml_escape_spec(value@),
{
    let v = chars_of(value);
    let mut r: Vec<char> = Vec::new();
    let mut i: usize = 0;
    while i < v.len()
        invariant
            i <= v@.len(),
            v@ == value@,
            r@ == xml_escape_spec(v@.take(i as int)),
        decreases v.len() - i,
    {
        let c = v[i];
        assert(v@.take(i + 1).drop_last() =~= v@.take(i as int));
        if c == '&' {
            push_str(&mut r, "&amp;");
        } else if c == '<' {
            push_str(&mut r, "&lt;");
        } else if c == '>' {
            push_str(&mut r, "&gt;");
        } else if c == '"' {
            push_str(&mut r, "&quot;");
        } else if c == '\'' {
            push_str(&mut r, "&apos;");
        } else {
            r.push(c);
        }
        i = i + 1;
    }
    assert(v@.take(i as int) =~= v@);
    string_of(r.as_slice())
}

/// `n` spaces.
pub open spec fn spaces(n: nat) -> Seq<char> {
    Seq::new(n, |i: int| ' ')
}

/// `<tag>value</tag>` on a line of its own, indented, with `value` escaped.
pub open spec fn tag_line(indent: nat, tag: Seq<char>, value: Seq<char>) -> Seq<char> {
    spaces(indent) + "<"@ + tag + ">"@ + xml_escape_spec(value) + "</"@ + tag + ">\n"@
}

fn push_spaces(r: &mut Vec<char>, n: usize)
    ensures
        final(r)@ == old(r)@ + spaces(n as nat),
{
    let ghost r0 = r@;
    let mut i: usize = 0;
    while i < n
        invariant
            i <= n,
            r@ == r0 + spaces(i as nat),
        decreases n - i,
    {
        r.push(' ');
        i = i + 1;
        assert(r@ =~= r0 + spaces(i as nat));
    }
}

/// Appends one tag line.
pub fn push_tag(output: &mut Vec<char>, indent: usize, tag: &str, value: &str)
    ensures
        final(output)@ == old(output)@ + tag_line(indent as nat, tag@, value@),
{
    let ghost o0 = output@;
    push_spaces(output, indent);
    push_str(output, "<");
    push_str(output, tag);
    push_str(output, ">");
    let escaped = xml_escape(value);
    push_str(output, escaped.as_str());
    push_str(output, "</");
    push_str(output, tag);
    push_str(output, ">\n");
    assert(output@ =~= o0 + tag_line(indent as nat, tag@, value@));
}

/// The title shown for a section: its page title, else its title, trimmed;
/// its slug where the chosen text is blank or missing.
pub open spec fn shown_title(
    slug: Seq<char>,
    page_title: Option<Seq<char>>,
    title: Option<Seq<char>>,
) -> Seq<char> {
    let chosen = if page_title is Some {
        page_title
    } else {
        title
    };
    match chosen {
        Some(t) => if trim(t).len() > 0 {
            trim(t)
        } else {
            slug
        },
        None => slug,
    }
}

fn shown_title_exec(slug: &str, page_title: Option<&String>, title: Option<&String>) -> (r: String)
    ensures
        r@ == shown_title(
            slug@,
            match page_title {
                Some(p) => Some(p@),
                None => None,
            },
            match title {
                Some(t) => Some(t@),
                None => None,
            },
        ),
{
    let chosen = match page_title {
        Some(p) => Some(p),
        None => title,
    };
    match chosen {
        Some(t) => {
            let v = chars_of(t.as_str());
            let tv = trimmed(v.as_slice());
            if tv.len() > 0 {
                string_of(tv.as_slice())
            } else {
                owned(slug)
            }
        },
        None => owned(slug),
    }
}

/// The feed entry of a section.
pub open spec fn item_spec(env: Environment, slug: Seq<char>, m: EntryMetaData) -> (
    Seq<char>,
    Seq<char>,
    Seq<char>,
    Seq<char>,
) {
    (
        slug,
        shown_title(slug, m.value("page-title"@), m.value("title"@)),
        full_html_url_spec(env, slug),
        match m.value("date"@) {
            Some(d) => d,
            None => Seq::empty(),
        },
    )
}

pub open spec fn item_view(x: FeedItem) -> (Seq<char>, Seq<char>, Seq<char>, Seq<char>) {
    (x.slug@, x.title@, x.link@, x.date@)
}

/// The entry of one section.
pub fn feed_item(env: &Environment, slug: &Slug, metadata: &EntryMetaData) -> (r: FeedItem)
    ensures
        item_view(r) == item_spec(*env, slug@, *metadata),
{
    let title = shown_title_exec(slug.as_str(), metadata.page_title(), metadata.title());
    let date = match metadata.get("date") {
        Some(d) => d.clone(),
        None => {
            proof {
                reveal_strlit("");
            }
            owned("")
        },
    };
    let link = full_html_url(env, slug);
    FeedItem { slug: slug.duplicate(), title, link, date }
}

/// The entries of all sections, in the order given.
pub fn collect_items(env: &Environment, sections: &Vec<(Slug, EntryMetaData)>) -> (r: Vec<FeedItem>)
    ensures
        r@.len() == sections@.len(),
        forall|i: int|
            0 <= i < r@.len() ==> item_view(#[trigger] r@[i]) == item_spec(
                *env,
                sections@[i].0@,
                sections@[i].1,
            ),
{
    let mut r: Vec<FeedItem> = Vec::new();
    let mut i: usize = 0;
    while i < sections.len()
        invariant
            i <= sections@.len(),
            r@.len() == i,
            forall|k: int|
                0 <= k < i ==> item_view(#[trigger] r@[k]) == item_spec(
                    *env,
                    sections@[k].0@,
                    sections@[k].1,
                ),
        decreases sections.len() - i,
    {
        let item = feed_item(env, &sections[i].0, &sections[i].1);
        r.push(item);
        i = i + 1;
    }
    r
}

/// Index of the first section with slug `index`, if any.
pub open spec fn index_position(s: Seq<(Slug, EntryMetaData)>, k: int) -> Option<int>
    decreases s.len() - k,
{
    if k < 0 || k >= s.len() {
        None
    } else if s[k].0@ == "index"@ {
        Some(k)
    } else {
        index_position(s, k + 1)
    }
}

/// The feed's title: that of the `index` section, else `Kodama Feed`.
pub open spec fn channel_title_spec(s: Seq<(Slug, EntryMetaData)>) -> Seq<char> {
    match index_position(s, 0) {
        Some(k) => shown_title(
            "Kodama Feed"@,
            s[k].1.value("page-title"@),
            s[k].1.value("title"@),
        ),
        None => "Kodama Feed"@,
    }
}

pub fn channel_title(sections: &Vec<(Slug, EntryMetaData)>) -> (r: String)
    ensures
        r@ == channel_title_spec(sections@),
{
    let mut i: usize = 0;
    while i < sections.len()
        invariant
            i <= sections@.len(),
            index_position(sections@, 0) == index_position(sections@, i as int),
        decreases sections.len() - i,
    {
        if crate::text::str_eq(sections[i].0.as_str(), "index") {
            let m = &sections[i].1;
            return shown_title_exec("Kodama Feed", m.page_title(), m.title());
        }
        i = i + 1;
    }
    owned("Kodama Feed")
}

/// The lines of one item.
pub open spec fn item_lines(x: FeedItem) -> Seq<char> {
    "    <item>\n"@ + tag_line(6, "title"@, x.title@) + tag_line(6, "link"@, x.link@) + tag_line(
        6,
        "guid"@,
        x.link@,
    ) + if trim(x.date@).len() > 0 {
        tag_line(6, "pubDate"@, x.date@)
    } else {
        Seq::empty()
    } + "    </item>\n"@
}

pub open spec fn items_text(s: Seq<FeedItem>) -> Seq<char>
    decreases s.len(),
{
    if s.len() == 0 {
        Seq::empty()
    } else {
        items_text(s.drop_last()) + item_lines(s.last())
    }
}

/// The whole feed document.
pub open spec fn feed_spec(title: Seq<char>, link: Seq<char>, items: Seq<FeedItem>) -> Seq<char> {
    "<?xml version=\"1.0\" encoding=\"UTF-8\"?>"@ + "\n"@ + "<rss version=\"2.0\">"@ + "\n"@
        + "  <channel>\n"@ + tag_line(4, "title"@, title) + tag_line(4, "link"@, link) + tag_line(
        4,
        "description"@,
        "RSS feed for "@ + title,
    ) + items_text(items) + "  </channel>\n"@ + "</rss>\n"@
}

/// Appends the lines of one item.
fn push_item(out: &mut Vec<char>, item: &FeedItem)
    ensures
        final(out)@ == old(out)@ + item_lines(*item),
{
    let ghost o0 = out@;
    push_str(out, "    <item>\n");
    push_tag(out, 6, "title", item.title.as_str());
    push_tag(out, 6, "link", item.link.as_str());
    push_tag(out, 6, "guid", item.link.as_str());
    let dv = chars_of(item.date.as_str());
    let dt = trimmed(dv.as_slice());
    if dt.len() > 0 {
        push_tag(out, 6, "pubDate", item.date.as_str());
    }
    push_str(out, "    </item>\n");
    assert(out@ =~= o0 + item_lines(*item));
}

/// The RSS document for the given sections: channel data, then every
/// section's entry in feed order.
pub fn feed_xml(env: &Environment, sections: &Vec<(Slug, EntryMetaData)>) -> (r: String)
    ensures
        exists|items: Seq<FeedItem>|
            {
                &&& items.len() == sections@.len()
                &&& forall|i: int|
                    0 <= i < items.len() ==> item_view(#[trigger] items[i]) == item_spec(
                        *env,
                        sections@[i].0@,
                        sections@[i].1,
                    )
                &&& r@ == feed_spec(
                    channel_title_spec(sections@),
                    full_url_spec(*env, "/"@),
                    feed_sorted(items),
                )
            },
{
    let title = channel_title(sections);
    let link = full_url(env, "/");
    let mut items = collect_items(env, sections);
    let ghost collected = items@;
    sort_feed_items(&mut items);
    let mut out: Vec<char> = Vec::new();
    push_str(&mut out, "<?xml version=\"1.0\" encoding=\"UTF-8\"?>");
    push_str(&mut out, "\n");
    push_str(&mut out, "<rss version=\"2.0\">");
    push_str(&mut out, "\n");
    push_str(&mut out, "  <channel>\n");
    push_tag(&mut out, 4, "title", title.as_str());
    push_tag(&mut out, 4, "link", link.as_str());
    let mut description = chars_of("RSS feed for ");
    push_str(&mut description, title.as_str());
    let description = string_of(description.as_slice());
    push_tag(&mut out, 4, "description", description.as_str());
    let ghost head = out@;
    let mut i: usize = 0;
    while i < items.len()
        invariant
            i <= items@.len(),
            out@ == head + items_text(items@.take(i as int)),
        decreases items.len() - i,
    {
        push_item(&mut out, &items[i]);
        assert(items@.take(i + 1).drop_last() =~= items@.take(i as int));
        i = i + 1;
    }
    assert(items@.take(i as int) =~= items@);
    push_str(&mut out, "  </channel>\n");
    push_str(&mut out, "</rss>\n");
    assert(out@ =~= feed_spec(title@, link@, items@));
    string_of(out.as_slice())
}

} // verus!

verus! {

/// A section's feed title is its page title, trimmed, whenever that is not
/// blank, whatever its title is.
pub proof fn law_feed_title_prefers_page_title(
    env: Environment,
    slug: Seq<char>,
    m: EntryMetaData,
    p: Seq<char>,
)
    requires
        m.value("page-title"@) == Some(p),
        trim(p).len() > 0,
    ensures
        item_spec(env, slug, m).1 == trim(p),
{
}

/// Without a page title, a section's feed title is its title, trimmed,
/// when that is not blank.
pub proof fn law_feed_title_falls_back_to_title(
    env: Environment,
    slug: Seq<char>,
    m: EntryMetaData,
    t: Seq<char>,
)
    requires
        m.value("page-title"@) is None,
        m.value("title"@) == Some(t),
        trim(t).len() > 0,
    ensures
        item_spec(env, slug, m).1 == trim(t),
{
}

/// The feed's own title is the page title of its `index` section, trimmed,
/// whenever that is not blank.
pub proof fn law_channel_title_prefers_page_title(
    s: Seq<(Slug, EntryMetaData)>,
    k: int,
    p: Seq<char>,
)
    requires
        index_position(s, 0) == Some(k),
        s[k].1.value("page-title"@) == Some(p),
        trim(p).len() > 0,
    ensures
        channel_title_spec(s) == trim(p),
{
}

} // verus!
