//! The metadata of a section: an ordered map from keys to values, with the
//! keys the compiler reads itself and the custom keys shown to readers.
use vstd::prelude::*;

use crate::environment::{is_short_slug, Environment};
use crate::ordered_map::{index_of_key, keys_of, lookup, OrderedMap};
use crate::section::{plain_of, HTMLContent};
use crate::slug::{last_index_of, replace_char, rfind_char, to_hash_id, Slug};
use crate::text::{chars_of, ends_with, has_suffix_str, owned, slice_to_vec, str_eq, string_of};

verus! {

/// Keys whose values are plain text.
pub open spec fn is_plain_key(k: Seq<char>) -> bool {
    ||| k == "slug"@
    ||| k == "ext"@
    ||| k == "data-taxon"@
    ||| k == "parent"@
    ||| k == "page-title"@
    ||| k == "backlinks"@
    ||| k == "transparent-backlinks"@
    ||| k == "references"@
    ||| k == "collect"@
    ||| k == "asref"@
    ||| k == "asback"@
    ||| k == "footer-mode"@
}

/// Keys whose values are rendered as markdown.
pub open spec fn is_fancy_key(k: Seq<char>) -> bool {
    k == "title"@ || k == "taxon"@
}

/// Keys that the compiler does not read: shown with the section.
pub open spec fn is_custom_key(k: Seq<char>) -> bool {
    !is_plain_key(k) && !is_fancy_key(k)
}

pub fn is_plain_metadata(s: &str) -> (r: bool)
    ensures
        r == is_plain_key(s@),
{
    str_eq(s, "slug") || str_eq(s, "ext") || str_eq(s, "data-taxon") || str_eq(s, "parent")
        || str_eq(s, "page-title") || str_eq(s, "backlinks") || str_eq(s, "transparent-backlinks")
        || str_eq(s, "references") || str_eq(s, "collect") || str_eq(s, "asref") || str_eq(
        s,
        "asback",
    ) || str_eq(s, "footer-mode")
}

pub fn is_fancy_metadata(s: &str) -> (r: bool)
    ensures
        r == is_fancy_key(s@),
{
    str_eq(s, "title") || str_eq(s, "taxon")
}

pub fn is_custom_metadata(s: &str) -> (r: bool)
    ensures
        r == is_custom_key(s@),
{
    !is_plain_metadata(s) && !is_fancy_metadata(s)
}

/// The custom keys among `ks`, in order.
pub open spec fn custom_keys(ks: Seq<Seq<char>>) -> Seq<Seq<char>>
    decreases ks.len(),
{
    if ks.len() == 0 {
        Seq::empty()
    } else {
        custom_keys(ks.drop_last()) + if is_custom_key(ks.last()) {
            seq![ks.last()]
        } else {
            Seq::empty()
        }
    }
}

fn custom_keys_of(ks: &Vec<String>) -> (r: Vec<String>)
    ensures
        crate::ordered_map::string_views(r@) == custom_keys(crate::ordered_map::string_views(ks@)),
{
    let ghost all = crate::ordered_map::string_views(ks@);
    let mut r: Vec<String> = Vec::new();
    let mut i: usize = 0;
    while i < ks.len()
        invariant
            i <= ks@.len(),
            all == crate::ordered_map::string_views(ks@),
            crate::ordered_map::string_views(r@) == custom_keys(all.take(i as int)),
        decreases ks.len() - i,
    {
        assert(all.take(i + 1).drop_last() =~= all.take(i as int));
        assert(all.take(i + 1).last() == ks@[i as int]@);
        let ghost r0 = crate::ordered_map::string_views(r@);
        if is_custom_metadata(ks[i].as_str()) {
            let k = ks[i].clone();
            assert(k@ == ks@[i as int]@);
            r.push(k);
            assert(crate::ordered_map::string_views(r@) =~= r0 + seq![ks@[i as int]@]);
        } else {
            assert(r0 + Seq::<Seq<char>>::empty() =~= r0);
        }
        i = i + 1;
    }
    assert(all.take(i as int) =~= all);
    r
}

/// `"true"` and `"false"` read as booleans; anything else is not one.
pub open spec fn bool_value(s: Seq<char>) -> Option<bool> {
    if s == "true"@ {
        Some(true)
    } else if s == "false"@ {
        Some(false)
    } else {
        None
    }
}

fn parse_bool(s: &str) -> (r: Option<bool>)
    ensures
        r == bool_value(s@),
{
    if str_eq(s, "true") {
        Some(true)
    } else if str_eq(s, "false") {
        Some(false)
    } else {
        None
    }
}

/// A slug as it is shown: without a trailing `/index`, and with short slugs
/// only its last segment.
pub open spec fn slug_text_spec(short: bool, slug: Seq<char>) -> Seq<char> {
    let t = if ends_with(slug, "/index"@) {
        slug.subrange(0, slug.len() - 6)
    } else {
        slug
    };
    if short {
        match last_index_of(t, '/') {
            Some(p) => t.skip(p + 1),
            None => t,
        }
    } else {
        t
    }
}

/// Metadata with plain string values, as written into pages.
#[derive(Debug)]
pub struct EntryMetaData(pub OrderedMap<String>);

/// The string views of an optional string value.
pub open spec fn opt_view(o: Option<String>) -> Option<Seq<char>> {
    match o {
        Some(s) => Some(s@),
        None => None,
    }
}

impl EntryMetaData {
    pub open spec fn value(&self, k: Seq<char>) -> Option<Seq<char>> {
        opt_view(lookup(self.0@, k))
    }

    pub fn new() -> (r: EntryMetaData)
        ensures
            r.0@ == Seq::<(Seq<char>, String)>::empty(),
    {
        EntryMetaData(OrderedMap::new())
    }

    pub fn get(&self, key: &str) -> (r: Option<&String>)
        ensures
            opt_view(
                match r {
                    Some(s) => Some(*s),
                    None => None,
                },
            ) == self.value(key@),
    {
        self.0.get(key)
    }

    /// The keys, in insertion order.
    pub fn keys(&self) -> (r: Vec<String>)
        ensures
            crate::ordered_map::string_views(r@) == keys_of(self.0@),
    {
        self.0.keys()
    }

    /// The custom keys, in insertion order.
    pub fn etc_keys(&self) -> (r: Vec<String>)
        ensures
            crate::ordered_map::string_views(r@) == custom_keys(keys_of(self.0@)),
    {
        let ks = self.0.keys();
        custom_keys_of(&ks)
    }

    /// A boolean flag: `Some` only for the values `true` and `false`.
    pub fn get_bool(&self, key: &str) -> (r: Option<bool>)
        ensures
            r == match self.value(key@) {
                Some(v) => bool_value(v),
                None => None,
            },
    {
        match self.0.get(key) {
            Some(s) => parse_bool(s.as_str()),
            None => None,
        }
    }

    /// The HTML id of the section.
    pub fn id(&self) -> (r: String)
        requires
            self.value("slug"@) is Some,
        ensures
            r@ == replace_char(self.value("slug"@)->0, '/', '-'),
    {
        match self.0.get("slug") {
            Some(s) => to_hash_id(s.as_str()),
            None => owned(""),
        }
    }

    pub fn taxon(&self) -> (r: Option<&String>)
        ensures
            opt_view(
                match r {
                    Some(s) => Some(*s),
                    None => None,
                },
            ) == self.value("taxon"@),
    {
        self.0.get("taxon")
    }

    pub fn data_taxon(&self) -> (r: Option<&String>)
        ensures
            opt_view(
                match r {
                    Some(s) => Some(*s),
                    None => None,
                },
            ) == self.value("data-taxon"@),
    {
        self.0.get("data-taxon")
    }

    pub fn title(&self) -> (r: Option<&String>)
        ensures
            opt_view(
                match r {
                    Some(s) => Some(*s),
                    None => None,
                },
            ) == self.value("title"@),
    {
        self.0.get("title")
    }

    pub fn page_title(&self) -> (r: Option<&String>)
        ensures
            opt_view(
                match r {
                    Some(s) => Some(*s),
                    None => None,
                },
            ) == self.value("page-title"@),
    {
        self.0.get("page-title")
    }

    /// Whether the page shows backlinks (by default it does).
    pub fn is_enable_backlinks(&self) -> (r: bool)
        ensures
            r == match self.get_bool_spec("backlinks"@) {
                Some(b) => b,
                None => true,
            },
    {
        match self.get_bool("backlinks") {
            Some(b) => b,
            None => true,
        }
    }

    /// Whether the page shows references (by default it does).
    pub fn is_enable_references(&self) -> (r: bool)
        ensures
            r == match self.get_bool_spec("references"@) {
                Some(b) => b,
                None => true,
            },
    {
        match self.get_bool("references") {
            Some(b) => b,
            None => true,
        }
    }

    /// Whether the page collects its children (by default it does not).
    pub fn is_collect(&self) -> (r: bool)
        ensures
            r == match self.get_bool_spec("collect"@) {
                Some(b) => b,
                None => false,
            },
    {
        match self.get_bool("collect") {
            Some(b) => b,
            None => false,
        }
    }

    pub open spec fn get_bool_spec(&self, k: Seq<char>) -> Option<bool> {
        match self.value(k) {
            Some(v) => bool_value(v),
            None => None,
        }
    }

    /// The slug as shown in a header.
    pub fn to_slug_text(env: &Environment, slug: &str) -> (r: String)
        ensures
            r@ == slug_text_spec(env.config.build.short_slug, slug@),
    {
        let v = chars_of(slug);
        proof {
            reveal_strlit("/index");
        }
        let t = if has_suffix_str(v.as_slice(), "/index") {
            slice_to_vec(v.as_slice(), 0, v.len() - 6)
        } else {
            slice_to_vec(v.as_slice(), 0, v.len())
        };
        assert(v@.subrange(0, v@.len() as int) =~= v@);
        if is_short_slug(env) {
            match rfind_char(t.as_slice(), '/') {
                Some(p) => {
                    proof {
                        crate::slug::lemma_last_index_of(t@, '/');
                    }
                    let s = slice_to_vec(t.as_slice(), p + 1, t.len());
                    assert(t@.subrange(p + 1, t@.len() as int) =~= t@.skip(p + 1));
                    string_of(s.as_slice())
                },
                None => string_of(t.as_slice()),
            }
        } else {
            string_of(t.as_slice())
        }
    }

    /// Sets `key` to `value`.
    pub fn update(&mut self, key: String, value: String)
        ensures
            final(self).0@ == crate::ordered_map::insert_spec(old(self).0@, key@, value),
    {
        let _ = self.0.insert(key, value);
    }
}

/// The data taxon of a taxon as shown: the `". "` that ends a displayed
/// taxon (`"Theorem. "`) is dropped.
pub open spec fn data_taxon_spec(s: Seq<char>) -> Seq<char> {
    if ends_with(s, ". "@) {
        s.take(s.len() - 2)
    } else {
        s
    }
}

/// The data taxon of the taxon text `s`.
pub fn to_data_taxon(s: &str) -> (r: String)
    ensures
        r@ == data_taxon_spec(s@),
{
    let v = chars_of(s);
    proof {
        reveal_strlit(". ");
    }
    if has_suffix_str(v.as_slice(), ". ") {
        let t = slice_to_vec(v.as_slice(), 0, v.len() - 2);
        assert(t@ =~= s@.take(s@.len() - 2));
        string_of(t.as_slice())
    } else {
        string_of(v.as_slice())
    }
}

/// The metadata after `compute_textual_attrs`: `page-title` is added (or
/// replaces a value that is not plain text) from the text of `title` without
/// markup, then `data-taxon` likewise from the text of `taxon`, each only
/// when the source key is present and the target has no plain value.
pub open spec fn textual_attrs_spec(m: Seq<(Seq<char>, HTMLContent)>) -> crate::typst_html::MetaModel {
    let m0 = crate::typst_html::meta_model(m);
    let m1 = match (plain_text(m, "page-title"@), lookup(m, "title"@)) {
        (None, Some(t)) => crate::ordered_map::insert_spec(
            m0,
            "page-title"@,
            crate::section::ContentModel::Plain(
                crate::section::remove_tags_spec(crate::section::content_text(t)),
            ),
        ),
        _ => m0,
    };
    match (plain_text(m, "data-taxon"@), lookup(m, "taxon"@)) {
        (None, Some(t)) => crate::ordered_map::insert_spec(
            m1,
            "data-taxon"@,
            crate::section::ContentModel::Plain(
                data_taxon_spec(crate::section::remove_tags_spec(crate::section::content_text(t))),
            ),
        ),
        _ => m1,
    }
}

proof fn lemma_meta_keys_unique(m: Seq<(Seq<char>, HTMLContent)>)
    requires
        crate::ordered_map::unique_keys(m),
    ensures
        crate::ordered_map::unique_keys(crate::typst_html::meta_model(m)),
{
    let mm = crate::typst_html::meta_model(m);
    assert forall|i: int, j: int|
        0 <= i < mm.len() && 0 <= j < mm.len() && mm[i].0 == mm[j].0 implies i == j by {
        assert(m[i].0 == mm[i].0 && m[j].0 == mm[j].0);
    }
}

/// What `textual_attrs_spec` keeps of a key other than the two it derives.
proof fn lemma_textual_keeps(m: Seq<(Seq<char>, HTMLContent)>, k: Seq<char>)
    requires
        crate::ordered_map::unique_keys(m),
        k != "page-title"@,
        k != "data-taxon"@,
    ensures
        lookup(textual_attrs_spec(m), k) == lookup(crate::typst_html::meta_model(m), k),
        crate::ordered_map::unique_keys(textual_attrs_spec(m)),
{
    let mm = crate::typst_html::meta_model(m);
    lemma_meta_keys_unique(m);
    let t = crate::section::ContentModel::Plain(Seq::empty());
    let m1 = match (plain_text(m, "page-title"@), lookup(m, "title"@)) {
        (None, Some(x)) => crate::ordered_map::insert_spec(
            mm,
            "page-title"@,
            crate::section::ContentModel::Plain(
                crate::section::remove_tags_spec(crate::section::content_text(x)),
            ),
        ),
        _ => mm,
    };
    if let (None, Some(x)) = (plain_text(m, "page-title"@), lookup(m, "title"@)) {
        let v = crate::section::ContentModel::Plain(
            crate::section::remove_tags_spec(crate::section::content_text(x)),
        );
        crate::ordered_map::law_insert_keeps_others(mm, "page-title"@, v, k);
        crate::ordered_map::law_insert_unique(mm, "page-title"@, v);
    }
    if let (None, Some(x)) = (plain_text(m, "data-taxon"@), lookup(m, "taxon"@)) {
        let v = crate::section::ContentModel::Plain(
            data_taxon_spec(crate::section::remove_tags_spec(crate::section::content_text(x))),
        );
        crate::ordered_map::law_insert_keeps_others(m1, "data-taxon"@, v, k);
        crate::ordered_map::law_insert_unique(m1, "data-taxon"@, v);
    }
}

/// Deriving the textual attributes a second time changes nothing: after
/// the first time `page-title` is plain text whenever there is a title,
/// and `data-taxon` whenever there is a taxon.
pub proof fn law_textual_attrs_idempotent(
    m: Seq<(Seq<char>, HTMLContent)>,
    m2: Seq<(Seq<char>, HTMLContent)>,
)
    requires
        crate::ordered_map::unique_keys(m),
        crate::ordered_map::unique_keys(m2),
        crate::typst_html::meta_model(m2) == textual_attrs_spec(m),
    ensures
        textual_attrs_spec(m2) == crate::typst_html::meta_model(m2),
{
    reveal_strlit("page-title");
    reveal_strlit("data-taxon");
    reveal_strlit("title");
    reveal_strlit("taxon");
    let mm = crate::typst_html::meta_model(m);
    let mm2 = crate::typst_html::meta_model(m2);
    lemma_meta_keys_unique(m);
    crate::compile::lemma_meta_lookup_value(m, "page-title"@);
    crate::compile::lemma_meta_lookup_value(m, "data-taxon"@);
    crate::compile::lemma_meta_lookup_value(m, "title"@);
    crate::compile::lemma_meta_lookup_value(m, "taxon"@);
    crate::compile::lemma_meta_lookup_value(m2, "page-title"@);
    crate::compile::lemma_meta_lookup_value(m2, "data-taxon"@);
    crate::compile::lemma_meta_lookup_value(m2, "title"@);
    crate::compile::lemma_meta_lookup_value(m2, "taxon"@);
    assert("title"@.len() == 5 && "taxon"@.len() == 5);
    assert("page-title"@.len() == 10 && "data-taxon"@.len() == 10);
    assert("page-title"@ != "data-taxon"@) by {
        assert("page-title"@[0] != "data-taxon"@[0]);
    }
    lemma_textual_keeps(m, "title"@);
    lemma_textual_keeps(m, "taxon"@);
    // page-title after the first pass
    let m1 = match (plain_text(m, "page-title"@), lookup(m, "title"@)) {
        (None, Some(x)) => crate::ordered_map::insert_spec(
            mm,
            "page-title"@,
            crate::section::ContentModel::Plain(
                crate::section::remove_tags_spec(crate::section::content_text(x)),
            ),
        ),
        _ => mm,
    };
    if let (None, Some(x)) = (plain_text(m, "page-title"@), lookup(m, "title"@)) {
        let v = crate::section::ContentModel::Plain(
            crate::section::remove_tags_spec(crate::section::content_text(x)),
        );
        crate::ordered_map::law_get_after_insert(mm, "page-title"@, v);
        crate::ordered_map::law_insert_unique(mm, "page-title"@, v);
        crate::ordered_map::law_insert_keeps_others(mm, "page-title"@, v, "data-taxon"@);
    }
    if let (None, Some(x)) = (plain_text(m, "data-taxon"@), lookup(m, "taxon"@)) {
        let v = crate::section::ContentModel::Plain(
            data_taxon_spec(crate::section::remove_tags_spec(crate::section::content_text(x))),
        );
        crate::ordered_map::law_get_after_insert(m1, "data-taxon"@, v);
        crate::ordered_map::law_insert_keeps_others(m1, "data-taxon"@, v, "page-title"@);
    }
    assert(plain_text(m2, "page-title"@) is Some || lookup(m2, "title"@) is None);
    assert(plain_text(m2, "data-taxon"@) is Some || lookup(m2, "taxon"@) is None);
}

/// The plain text stored under `k`, if it is plain.
pub open spec fn plain_text(m: Seq<(Seq<char>, HTMLContent)>, k: Seq<char>) -> Option<Seq<char>> {
    match lookup(m, k) {
        Some(c) => plain_of(c),
        None => None,
    }
}

/// Metadata whose values may hold rendered markup.
#[derive(Debug)]
pub struct HTMLMetaData(pub OrderedMap<HTMLContent>);

impl HTMLMetaData {
    /// The plain text stored under `k`, if it is plain.
    pub open spec fn text(&self, k: Seq<char>) -> Option<Seq<char>> {
        match lookup(self.0@, k) {
            Some(c) => plain_of(c),
            None => None,
        }
    }

    pub fn new() -> (r: HTMLMetaData)
        ensures
            r.0@ == Seq::<(Seq<char>, HTMLContent)>::empty(),
    {
        HTMLMetaData(OrderedMap::new())
    }

    pub fn get(&self, key: &str) -> (r: Option<&HTMLContent>)
        ensures
            match lookup(self.0@, key@) {
                Some(v) => r == Some(&v),
                None => r is None,
            },
    {
        self.0.get(key)
    }

    /// The value under `key` when it is plain text.
    pub fn get_str(&self, key: &str) -> (r: Option<&str>)
        ensures
            match self.text(key@) {
                Some(t) => r matches Some(x) && x@ == t,
                None => r is None,
            },
    {
        match self.0.get(key) {
            Some(c) => c.as_str(),
            None => None,
        }
    }

    /// The keys, in insertion order.
    pub fn keys(&self) -> (r: Vec<String>)
        ensures
            crate::ordered_map::string_views(r@) == keys_of(self.0@),
    {
        self.0.keys()
    }

    /// The custom keys, in insertion order.
    pub fn etc_keys(&self) -> (r: Vec<String>)
        ensures
            crate::ordered_map::string_views(r@) == custom_keys(keys_of(self.0@)),
    {
        let ks = self.0.keys();
        custom_keys_of(&ks)
    }

    /// A boolean flag: `Some` only for the plain values `true` and `false`.
    pub fn get_bool(&self, key: &str) -> (r: Option<bool>)
        ensures
            r == match self.text(key@) {
                Some(v) => bool_value(v),
                None => None,
            },
    {
        match self.get_str(key) {
            Some(s) => parse_bool(s),
            None => None,
        }
    }

    pub fn data_taxon(&self) -> (r: Option<&str>)
        ensures
            match self.text("data-taxon"@) {
                Some(t) => r matches Some(x) && x@ == t,
                None => r is None,
            },
    {
        self.get_str("data-taxon")
    }

    pub fn page_title(&self) -> (r: Option<&str>)
        ensures
            match self.text("page-title"@) {
                Some(t) => r matches Some(x) && x@ == t,
                None => r is None,
            },
    {
        self.get_str("page-title")
    }

    /// The metadata a Markdown section starts with: its slug, then its
    /// extension `md`.
    pub fn of_markdown(slug: &Slug) -> (r: HTMLMetaData)
        ensures
            crate::typst_html::meta_model(r.0@) == seq![
                ("slug"@, crate::section::ContentModel::Plain(slug@)),
                ("ext"@, crate::section::ContentModel::Plain("md"@)),
            ],
    {
        let mut m = HTMLMetaData::new();
        m.insert(owned("slug"), HTMLContent::Plain(owned(slug.as_str())));
        proof {
            reveal_strlit("slug");
            reveal_strlit("ext");
            assert(index_of_key(Seq::<(Seq<char>, HTMLContent)>::empty(), "slug"@) is None);
        }
        let ghost m1 = m.0@;
        assert(m1.len() == 1 && m1[0].0 == "slug"@);
        m.insert(owned("ext"), HTMLContent::Plain(owned("md")));
        proof {
            assert("slug"@ != "ext"@) by {
                assert("slug"@.len() != "ext"@.len());
            }
            assert(index_of_key(m1, "ext"@) is None);
            assert(crate::typst_html::meta_model(m.0@) =~= seq![
                ("slug"@, crate::section::ContentModel::Plain(slug@)),
                ("ext"@, crate::section::ContentModel::Plain("md"@)),
            ]);
        }
        m
    }

    /// Stores `value` under `key`.
    pub fn insert(&mut self, key: String, value: HTMLContent)
        ensures
            final(self).0@ == crate::ordered_map::insert_spec(old(self).0@, key@, value),
    {
        let _ = self.0.insert(key, value);
    }

    /// Derives the textual attributes that are not plain text yet:
    /// `page-title` from the text of `title`, and `data-taxon` from the text
    /// of `taxon` (see `data_taxon_spec`), both without their markup.
    pub fn compute_textual_attrs(&mut self)
        ensures
            crate::typst_html::meta_model(final(self).0@) == textual_attrs_spec(
                old(self).0@,
            ),
            textual_attrs_spec(final(self).0@) == crate::typst_html::meta_model(final(self).0@),
    {
        let _ = self.0.len();
        let ghost m0 = self.0@;
        let page_title = if self.page_title().is_some() {
            None
        } else {
            match self.get("title") {
                Some(title) => Some(title.remove_all_tags()),
                None => None,
            }
        };
        let data_taxon = if self.data_taxon().is_some() {
            None
        } else {
            match self.get("taxon") {
                Some(taxon) => {
                    let text = taxon.remove_all_tags();
                    Some(to_data_taxon(text.as_str()))
                },
                None => None,
            }
        };
        match page_title {
            Some(t) => crate::typst_html::meta_insert(
                &mut self.0,
                owned("page-title"),
                HTMLContent::Plain(t),
            ),
            None => {},
        }
        match data_taxon {
            Some(t) => crate::typst_html::meta_insert(
                &mut self.0,
                owned("data-taxon"),
                HTMLContent::Plain(t),
            ),
            None => {},
        }
        let _ = self.0.len();
        proof {
            law_textual_attrs_idempotent(m0, self.0@);
        }
    }
}

} // verus!
