//! Sections out of the HTML that `typst` writes for a `.typst` source. The
//! source marks its structure with `kodama-*` elements: `kodama-meta` sets a
//! metadata value, `kodama-embed` embeds a section, `kodama-local` links one,
//! and `kodama-subtree` holds a section of its own. Everything else is kept
//! as it is.
use vstd::prelude::*;

use crate::anonymous::{first_free, slug_views, AnonymousSlugState};
use crate::attrs::{attr_lookup, attrs_from, parse_attrs, parse_subtree_option, subtree_option_spec, AttrError, AttrErrorModel, Attrs};
use crate::entry::HTMLMetaData;
use crate::metadata::{display_taxon, display_taxon_spec};
use crate::ordered_map::{index_of_key, insert_spec, lookup, OrderedMap};
use crate::section::{
    build_content, piece_models, push_text, ContentBuilder, ContentModel, EmbedContent,
    HTMLContent, LazyContent, LocalLink, PieceModel, SectionOption, UnresolvedSection,
};
use crate::slug::Slug;
use crate::subtree::{anonymous_slug_spec, resolve_subtree_slug, subtree_slug_spec};
use crate::tags::{
    find_matching_close_tag, match_close, open_tag_spec, parse_open_tag, OpenTagModel,
};
use crate::text::{chars_of, find_char, find_from, owned, push_all, push_str, slice_to_vec, str_eq, string_of};

verus! {

// ---------------------------------------------------------------------------
// Metadata keys written by the parser
// ---------------------------------------------------------------------------
/// The key that records which source file a section comes from.
pub open spec fn source_slug_key() -> Seq<char> {
    "source-slug"@
}

/// The key that marks a section as an anonymous subtree.
pub open spec fn anon_key() -> Seq<char> {
    "internal-anonymous-subtree"@
}

pub fn key_source_slug() -> (r: &'static str)
    ensures
        r@ == source_slug_key(),
{
    "source-slug"
}

pub fn key_internal_anon_subtree() -> (r: &'static str)
    ensures
        r@ == anon_key(),
{
    "internal-anonymous-subtree"
}

// ---------------------------------------------------------------------------
// Finding kodama elements
// ---------------------------------------------------------------------------
#[derive(Debug, Clone, Copy, PartialEq, Eq, Structural)]
pub enum KodamaKind {
    Meta,
    Embed,
    Local,
    Subtree,
}

pub open spec fn kodama_kind(name: Seq<char>) -> Option<KodamaKind> {
    if name == "kodama-meta"@ {
        Some(KodamaKind::Meta)
    } else if name == "kodama-embed"@ {
        Some(KodamaKind::Embed)
    } else if name == "kodama-local"@ {
        Some(KodamaKind::Local)
    } else if name == "kodama-subtree"@ {
        Some(KodamaKind::Subtree)
    } else {
        None
    }
}

fn kodama_kind_exec(name: &[char]) -> (r: Option<KodamaKind>)
    ensures
        r == kodama_kind(name@),
{
    if crate::text::eq_str(name, "kodama-meta") {
        Some(KodamaKind::Meta)
    } else if crate::text::eq_str(name, "kodama-embed") {
        Some(KodamaKind::Embed)
    } else if crate::text::eq_str(name, "kodama-local") {
        Some(KodamaKind::Local)
    } else if crate::text::eq_str(name, "kodama-subtree") {
        Some(KodamaKind::Subtree)
    } else {
        None
    }
}

/// The first kodama element opened at or after `i`: the position of its
/// `<` and its open tag.
pub open spec fn next_element(s: Seq<char>, i: int) -> Option<(int, OpenTagModel)>
    decreases s.len() + 1 - i,
{
    if i < 0 || i > s.len() {
        None
    } else {
        match find_from(s, seq!['<'], i) {
            None => None,
            Some(lt) => if lt < i || lt >= s.len() {
                None
            } else {
                match open_tag_spec(s, lt) {
                    Some(o) => if kodama_kind(o.name) is Some {
                        Some((lt, o))
                    } else {
                        next_element(s, lt + 1)
                    },
                    None => next_element(s, lt + 1),
                }
            },
        }
    }
}

/// Where the element opened by `o` has its body and where it ends: a
/// self-closing tag has an empty body; otherwise the body runs to the
/// matching close tag.
pub open spec fn element_bounds(s: Seq<char>, o: OpenTagModel) -> Option<(int, int, int)> {
    if o.self_closing {
        Some((o.end + 1, o.end + 1, o.end + 1))
    } else {
        match match_close(s, o.end + 1, o.name, 1) {
            Some((cs, ce)) => Some((o.end + 1, cs, ce + 1)),
            None => None,
        }
    }
}

// ---------------------------------------------------------------------------
// Errors
// ---------------------------------------------------------------------------
pub enum TypstErrorModel {
    Attribute(AttrErrorModel),
    /// A kodama element without its close tag (tag name).
    Unclosed(Seq<char>),
    /// A required attribute is missing (attribute name).
    MissingAttribute(Seq<char>),
    /// A subtree inside a metadata value (source slug).
    SubtreeInMetadata(Seq<char>),
    /// A subtree slug that is not one plain segment (raw slug, source slug).
    InvalidSlug(Seq<char>, Seq<char>),
    /// A subtree slug already in use (slug, source slug).
    DuplicateSlug(Seq<char>, Seq<char>),
    /// More sections than the counters can number.
    TooManySections,
}

#[derive(Debug)]
pub enum TypstError {
    Attribute(AttrError),
    Unclosed { tag: String },
    MissingAttribute { name: String },
    SubtreeInMetadata { source: String },
    InvalidSlug { raw: String, source: String },
    DuplicateSlug { slug: String, source: String },
    TooManySections,
}

impl TypstError {
    pub open spec fn model(&self) -> TypstErrorModel {
        match self {
            TypstError::Attribute(e) => TypstErrorModel::Attribute(e.model()),
            TypstError::Unclosed { tag } => TypstErrorModel::Unclosed(tag@),
            TypstError::MissingAttribute { name } => TypstErrorModel::MissingAttribute(name@),
            TypstError::SubtreeInMetadata { source } => TypstErrorModel::SubtreeInMetadata(
                source@,
            ),
            TypstError::InvalidSlug { raw, source } => TypstErrorModel::InvalidSlug(
                raw@,
                source@,
            ),
            TypstError::DuplicateSlug { slug, source } => TypstErrorModel::DuplicateSlug(
                slug@,
                source@,
            ),
            TypstError::TooManySections => TypstErrorModel::TooManySections,
        }
    }

    /// A sentence that says what went wrong.
    pub fn message(&self) -> (r: String)
        ensures
            r@ == typst_message_spec(self.model()),
    {
        let mut v: Vec<char> = Vec::new();
        match self {
            TypstError::Attribute(e) => {
                let m = e.message();
                push_str(&mut v, m.as_str());
            },
            TypstError::Unclosed { tag } => {
                push_str(&mut v, "unclosed kodama tag `<");
                push_str(&mut v, tag.as_str());
                push_str(&mut v, ">` in typst html");
            },
            TypstError::MissingAttribute { name } => {
                push_str(&mut v, "missing attribute `");
                push_str(&mut v, name.as_str());
                push_str(&mut v, "` in kodama tag");
            },
            TypstError::SubtreeInMetadata { source } => {
                push_str(
                    &mut v,
                    "typst subtree tag is not allowed in metadata value while parsing `",
                );
                push_str(&mut v, source.as_str());
                push_str(&mut v, "`");
            },
            TypstError::InvalidSlug { raw, source } => {
                push_str(&mut v, "invalid typst subtree slug `");
                push_str(&mut v, raw.as_str());
                push_str(&mut v, "` in `");
                push_str(&mut v, source.as_str());
                push_str(&mut v, "`");
            },
            TypstError::DuplicateSlug { slug, source } => {
                push_str(&mut v, "duplicate typst subtree slug `");
                push_str(&mut v, slug.as_str());
                push_str(&mut v, "` generated from `");
                push_str(&mut v, source.as_str());
                push_str(&mut v, "`");
            },
            TypstError::TooManySections => {
                push_str(&mut v, "too many typst subtree sections");
            },
        }
        assert(v@ =~= typst_message_spec(self.model()));
        string_of(v.as_slice())
    }
}

/// The sentence that says what went wrong.
pub open spec fn typst_message_spec(e: TypstErrorModel) -> Seq<char> {
    match e {
        TypstErrorModel::Attribute(a) => crate::attrs::attr_message_spec(a),
        TypstErrorModel::Unclosed(tag) => "unclosed kodama tag `<"@ + tag + ">` in typst html"@,
        TypstErrorModel::MissingAttribute(name) => "missing attribute `"@ + name
            + "` in kodama tag"@,
        TypstErrorModel::SubtreeInMetadata(source) => "typst subtree tag is not allowed in metadata value while parsing `"@
            + source + "`"@,
        TypstErrorModel::InvalidSlug(raw, source) => "invalid typst subtree slug `"@ + raw
            + "` in `"@ + source + "`"@,
        TypstErrorModel::DuplicateSlug(slug, source) => "duplicate typst subtree slug `"@ + slug
            + "` generated from `"@ + source + "`"@,
        TypstErrorModel::TooManySections => "too many typst subtree sections"@,
    }
}

// ---------------------------------------------------------------------------
// The parse, as values
// ---------------------------------------------------------------------------
/// Metadata as values.
pub type MetaModel = Seq<(Seq<char>, ContentModel)>;

/// A parsed section as values: slug, metadata, content.
pub type SectionModel = (Seq<char>, MetaModel, ContentModel);

/// What the parse carries along: the sections found so far, the slugs in
/// use, and the anonymous counter.
pub struct ParseState {
    pub sections: Seq<SectionModel>,
    pub used: Seq<Seq<char>>,
    pub next: nat,
}

pub open spec fn meta_model(m: Seq<(Seq<char>, HTMLContent)>) -> MetaModel {
    m.map_values(|e: (Seq<char>, HTMLContent)| (e.0, e.1.model()))
}

pub open spec fn plain_meta(k: Seq<char>, v: Seq<char>, m: MetaModel) -> MetaModel {
    insert_spec(m, k, ContentModel::Plain(v))
}

/// The value an element gives: its `value` attribute, else its body; none
/// when that is empty.
pub open spec fn element_value(attrs: Seq<(Seq<char>, Seq<char>)>, body: Seq<char>) -> Option<
    Seq<char>,
> {
    let v = match attr_lookup(attrs, "value"@) {
        Some(x) => x,
        None => body,
    };
    if v.len() == 0 {
        None
    } else {
        Some(v)
    }
}

/// A non-empty attribute.
pub open spec fn nonempty_attr(attrs: Seq<(Seq<char>, Seq<char>)>, k: Seq<char>) -> Option<
    Seq<char>,
> {
    match attr_lookup(attrs, k) {
        Some(v) => if v.len() > 0 {
            Some(v)
        } else {
            None
        },
        None => None,
    }
}

/// A subtree's metadata before its body is read.
pub open spec fn subtree_meta(slug: Seq<char>, source: Seq<char>, anonymous: bool) -> MetaModel {
    let m = seq![
        (crate::typst_html::slug_key(), ContentModel::Plain(slug)),
        ("ext"@, ContentModel::Plain("typst"@)),
        (source_slug_key(), ContentModel::Plain(source)),
    ];
    if anonymous {
        m.push((anon_key(), ContentModel::Plain("true"@)))
    } else {
        m
    }
}

pub open spec fn slug_key() -> Seq<char> {
    "slug"@
}

/// Title and taxon from the subtree tag, where its body set none.
pub open spec fn subtree_defaults(m: MetaModel, title: Option<Seq<char>>, taxon: Option<
    Seq<char>,
>) -> MetaModel {
    let m1 = match title {
        Some(t) => if lookup(m, "title"@) is None {
            insert_spec(m, "title"@, ContentModel::Plain(t))
        } else {
            m
        },
        None => m,
    };
    match taxon {
        Some(t) => if lookup(m1, "taxon"@) is None {
            insert_spec(m1, "taxon"@, ContentModel::Plain(display_taxon_spec(t)))
        } else {
            m1
        },
        None => m1,
    }
}

/// A taxon value is shown formatted; other values as they are.
pub open spec fn meta_value(key: Seq<char>, v: ContentModel) -> ContentModel {
    if key == "taxon"@ && v is Plain {
        ContentModel::Plain(display_taxon_spec(v->Plain_0))
    } else {
        v
    }
}

/// Parsing the whole of `s`: the content, the metadata, and the state after.
pub open spec fn parse_all(
    s: Seq<char>,
    source: Seq<char>,
    current: Seq<char>,
    allow_subtree: bool,
    meta: MetaModel,
    st: ParseState,
) -> Result<(ContentModel, MetaModel, ParseState), TypstErrorModel>
    decreases s.len(), s.len() + 2,
{
    match parse_from(s, 0, source, current, allow_subtree, Seq::empty(), meta, st) {
        Ok((ps, m, st2)) => Ok((build_content(ps), m, st2)),
        Err(e) => Err(e),
    }
}

/// Parsing `s` from `cursor` on, with the pieces, metadata and state so far.
pub open spec fn parse_from(
    s: Seq<char>,
    cursor: int,
    source: Seq<char>,
    current: Seq<char>,
    allow_subtree: bool,
    pieces: Seq<PieceModel>,
    meta: MetaModel,
    st: ParseState,
) -> Result<(Seq<PieceModel>, MetaModel, ParseState), TypstErrorModel>
    decreases s.len(), s.len() + 1 - cursor,
{
    if cursor < 0 || cursor > s.len() {
        Ok((pieces, meta, st))
    } else {
        match next_element(s, cursor) {
            None => Ok((push_text(pieces, s.skip(cursor)), meta, st)),
            Some((lt, o)) => if lt < cursor || o.end < lt || o.end >= s.len() {
                Ok((pieces, meta, st))
            } else {
                let ps = push_text(pieces, s.subrange(cursor, lt));
                match attrs_from(o.attrs, 0) {
                    Err(e) => Err(TypstErrorModel::Attribute(e)),
                    Ok(attrs) => match element_bounds(s, o) {
                        None => Err(TypstErrorModel::Unclosed(o.name)),
                        Some((bs, be, end)) => if !(lt < bs <= be <= end <= s.len()) || end
                            <= cursor {
                            Ok((pieces, meta, st))
                        } else {
                            let body = s.subrange(bs, be);
                            match element_step(
                                kodama_kind(o.name)->0,
                                attrs,
                                body,
                                source,
                                current,
                                allow_subtree,
                                ps,
                                meta,
                                st,
                            ) {
                                Err(e) => Err(e),
                                Ok((ps2, m2, st2)) => parse_from(
                                    s,
                                    end,
                                    source,
                                    current,
                                    allow_subtree,
                                    ps2,
                                    m2,
                                    st2,
                                ),
                            }
                        },
                    },
                }
            },
        }
    }
}

/// What one element does to the pieces, the metadata and the state.
pub open spec fn element_step(
    kind: KodamaKind,
    attrs: Seq<(Seq<char>, Seq<char>)>,
    body: Seq<char>,
    source: Seq<char>,
    current: Seq<char>,
    allow_subtree: bool,
    ps: Seq<PieceModel>,
    meta: MetaModel,
    st: ParseState,
) -> Result<(Seq<PieceModel>, MetaModel, ParseState), TypstErrorModel>
    decreases body.len(), body.len() + 3,
{
    match kind {
        KodamaKind::Meta => match attr_lookup(attrs, "key"@) {
            None => Err(TypstErrorModel::MissingAttribute("key"@)),
            Some(key) => match attr_lookup(attrs, "value"@) {
                Some(v) => Ok(
                    (ps, insert_spec(meta, key, meta_value(key, ContentModel::Plain(v))), st),
                ),
                None => match parse_all(body, source, current, false, Seq::empty(), st) {
                    Err(e) => Err(e),
                    Ok((c, _m, st2)) => Ok((ps, insert_spec(meta, key, meta_value(key, c)), st2)),
                },
            },
        },
        KodamaKind::Embed => match attr_lookup(attrs, "url"@) {
            None => Err(TypstErrorModel::MissingAttribute("url"@)),
            Some(url) => Ok(
                (
                    ps.push(
                        PieceModel::Embed(
                            url,
                            element_value(attrs, body),
                            subtree_option_spec(attrs),
                        ),
                    ),
                    meta,
                    st,
                ),
            ),
        },
        KodamaKind::Local => match attr_lookup(attrs, "slug"@) {
            None => Err(TypstErrorModel::MissingAttribute("slug"@)),
            Some(url) => Ok(
                (ps.push(PieceModel::Local(url, element_value(attrs, body))), meta, st),
            ),
        },
        KodamaKind::Subtree => if !allow_subtree {
            Err(TypstErrorModel::SubtreeInMetadata(source))
        } else {
            let named: Result<(Seq<char>, bool, ParseState), TypstErrorModel> = match attr_lookup(
                attrs,
                "slug"@,
            ) {
                Some(raw) => match subtree_slug_spec(current, raw) {
                    None => Err(TypstErrorModel::InvalidSlug(raw, source)),
                    Some(sl) => if st.used.contains(sl) {
                        Err(TypstErrorModel::DuplicateSlug(sl, source))
                    } else {
                        Ok((sl, false, ParseState { used: st.used.push(sl), ..st }))
                    },
                },
                None => if st.next + st.used.len() + 1 > usize::MAX {
                    Err(TypstErrorModel::TooManySections)
                } else {
                    let k = first_free(source, st.next, st.used.to_set());
                    let sl = anonymous_slug_spec(source, k);
                    Ok((sl, true, ParseState { used: st.used.push(sl), next: k + 1, ..st }))
                },
            };
            match named {
                Err(e) => Err(e),
                Ok((sl, anonymous, st1)) => {
                    let title = nonempty_attr(attrs, "title"@);
                    let taxon = nonempty_attr(attrs, "taxon"@);
                    let ps2 = ps.push(
                        PieceModel::Embed(seq!['/'] + sl, title, subtree_option_spec(attrs)),
                    );
                    let nested_current = if anonymous {
                        current
                    } else {
                        sl
                    };
                    match parse_all(
                        body,
                        source,
                        nested_current,
                        true,
                        subtree_meta(sl, source, anonymous),
                        st1,
                    ) {
                        Err(e) => Err(e),
                        Ok((c, m, st2)) => Ok(
                            (
                                ps2,
                                meta,
                                ParseState {
                                    sections: st2.sections.push(
                                        (sl, subtree_defaults(m, title, taxon), c),
                                    ),
                                    ..st2
                                },
                            ),
                        ),
                    }
                },
            }
        },
    }
}


// ---------------------------------------------------------------------------
// The parse
// ---------------------------------------------------------------------------
pub open spec fn section_views(v: Seq<(Slug, UnresolvedSection)>) -> Seq<SectionModel> {
    v.map_values(
        |e: (Slug, UnresolvedSection)| (e.0@, meta_model(e.1.metadata.0@), e.1.content.model()),
    )
}

pub open spec fn state_of(sections: Seq<(Slug, UnresolvedSection)>, used: Seq<Slug>, next: usize) -> ParseState {
    ParseState { sections: section_views(sections), used: slug_views(used), next: next as nat }
}

/// With unique keys, storing a value and then taking values commutes with
/// taking values and then storing.
pub proof fn lemma_meta_insert(m: Seq<(Seq<char>, HTMLContent)>, k: Seq<char>, v: HTMLContent)
    requires
        crate::ordered_map::unique_keys(m),
    ensures
        meta_model(insert_spec(m, k, v)) == insert_spec(meta_model(m), k, v.model()),
{
    let mm = meta_model(m);
    match index_of_key(m, k) {
        Some(i) => {
            assert(m[i].0 == k);
            assert(mm[i].0 == k);
            let j = choose|j: int| 0 <= j < mm.len() && mm[j].0 == k;
            assert(mm[j].0 == m[j].0);
            assert(index_of_key(mm, k) == Some(i));
            assert(meta_model(m.update(i, (k, v))) =~= mm.update(i, (k, v.model())));
        },
        None => {
            assert(forall|j: int| 0 <= j < mm.len() ==> mm[j].0 == m[j].0);
            assert(index_of_key(mm, k) is None);
            assert(meta_model(m.push((k, v))) =~= mm.push((k, v.model())));
        },
    }
}

pub proof fn lemma_meta_lookup(m: Seq<(Seq<char>, HTMLContent)>, k: Seq<char>)
    ensures
        (lookup(meta_model(m), k) is None) == (lookup(m, k) is None),
{
    let mm = meta_model(m);
    if lookup(m, k) is Some {
        let i = choose|i: int| 0 <= i < m.len() && m[i].0 == k;
        assert(mm[i].0 == k);
    }
    if lookup(mm, k) is Some {
        let i = choose|i: int| 0 <= i < mm.len() && mm[i].0 == k;
        assert(m[i].0 == k);
    }
}

/// Stores `v` under `k` in parsed metadata.
pub(crate) fn meta_insert(meta: &mut OrderedMap<HTMLContent>, k: String, v: HTMLContent)
    ensures
        meta_model(final(meta)@) == insert_spec(meta_model(old(meta)@), k@, v.model()),
        crate::ordered_map::unique_keys(final(meta)@),
{
    let ghost m0 = meta@;
    let ghost kv = k@;
    let ghost vm = v.model();
    let _ = meta.len();
    proof {
        lemma_meta_insert(m0, kv, v);
    }
    let _ = meta.insert(k, v);
    let _ = meta.len();
}

fn find_element(s: &[char], i: usize) -> (r: Option<(usize, crate::tags::OpenTag)>)
    requires
        i <= s@.len(),
    ensures
        match next_element(s@, i as int) {
            Some((lt, o)) => r matches Some((l, t)) && l == lt && t.model() == o,
            None => r is None,
        },
{
    let mut cur = i;
    loop
        invariant
            cur <= s@.len(),
            next_element(s@, i as int) == next_element(s@, cur as int),
        decreases s.len() - cur,
    {
        let lt = match find_char(s, '<', cur) {
            Some(x) => x,
            None => {
                return None;
            },
        };
        proof {
            crate::tags::lemma_open_tag_end(s@, lt as int);
        }
        match parse_open_tag(s, lt) {
            Some(o) => {
                if kodama_kind_exec(o.name.as_slice()).is_some() {
                    return Some((lt, o));
                }
            },
            None => {},
        }
        cur = lt + 1;
    }
}

fn dup(s: &String) -> (r: String)
    ensures
        r@ == s@,
{
    owned(s.as_str())
}

fn dup_opt(o: &Option<String>) -> (r: Option<String>)
    ensures
        crate::section::opt_str(r) == crate::section::opt_str(*o),
{
    match o {
        Some(s) => Some(dup(s)),
        None => None,
    }
}

fn nonempty_attr_exec(attrs: &Attrs, k: &str) -> (r: Option<String>)
    ensures
        crate::section::opt_str(r) == nonempty_attr(attrs@, k@),
{
    match attrs.get(k) {
        Some(v) => {
            let c = chars_of(v.as_str());
            if c.len() > 0 {
                Some(v)
            } else {
                None
            }
        },
        None => None,
    }
}

fn element_value_exec(attrs: &Attrs, body: &[char]) -> (r: Option<String>)
    ensures
        crate::section::opt_str(r) == element_value(attrs@, body@),
{
    let v = match attrs.get("value") {
        Some(x) => x,
        None => string_of(body),
    };
    let c = chars_of(v.as_str());
    if c.len() == 0 {
        None
    } else {
        Some(v)
    }
}

fn apply_taxon_display(key: &String, v: HTMLContent) -> (r: HTMLContent)
    ensures
        r.model() == meta_value(key@, v.model()),
{
    if str_eq(key.as_str(), "taxon") {
        match v {
            HTMLContent::Plain(t) => HTMLContent::Plain(display_taxon(t.as_str())),
            other => other,
        }
    } else {
        v
    }
}

/// Parses `s` as the content of the section `current`, adding the
/// metadata it sets to `meta` and the subtrees it holds to `sections`.
pub fn parse_typst_html(
    s: &[char],
    source: &Slug,
    current: &Slug,
    allow_subtree: bool,
    meta: &mut OrderedMap<HTMLContent>,
    sections: &mut Vec<(Slug, UnresolvedSection)>,
    used: &mut Vec<Slug>,
    anon: &mut AnonymousSlugState,
) -> (r: Result<HTMLContent, TypstError>)
    ensures
        match parse_all(
            s@,
            source@,
            current@,
            allow_subtree,
            meta_model(old(meta)@),
            state_of(old(sections)@, old(used)@, old(anon).next),
        ) {
            Ok((c, m, st)) => r matches Ok(x) && x.model() == c && meta_model(final(meta)@) == m
                && state_of(final(sections)@, final(used)@, final(anon).next) == st,
            Err(e) => r matches Err(x) && x.model() == e,
        },
    decreases s@.len(), 1nat,
{
    let mut builder = ContentBuilder::new();
    let mut cursor: usize = 0;
    let ghost goal = parse_from(
        s@,
        0,
        source@,
        current@,
        allow_subtree,
        Seq::empty(),
        meta_model(meta@),
        state_of(sections@, used@, anon.next),
    );
    loop
        invariant
            cursor <= s@.len(),
            goal == parse_from(
                s@,
                cursor as int,
                source@,
                current@,
                allow_subtree,
                piece_models(builder.pieces@),
                meta_model(meta@),
                state_of(sections@, used@, anon.next),
            ),
            goal == parse_from(
                s@,
                0,
                source@,
                current@,
                allow_subtree,
                Seq::empty(),
                meta_model(old(meta)@),
                state_of(old(sections)@, old(used)@, old(anon).next),
            ),
        decreases s.len() - cursor,
    {
        let (lt, o) = match find_element(s, cursor) {
            Some(x) => x,
            None => {
                let rest = slice_to_vec(s, cursor, s.len());
                assert(rest@ =~= s@.skip(cursor as int));
                builder.push_str(rest.as_slice());
                return Ok(builder.build());
            },
        };
        proof {
            crate::text::lemma_find_from_props(s@, seq!['<'], cursor as int);
            crate::tags::lemma_open_tag_end(s@, lt as int);
            lemma_next_element_range(s@, cursor as int);
        }
        let before = slice_to_vec(s, cursor, lt);
        builder.push_str(before.as_slice());
        let attrs = match parse_attrs(o.attrs.as_slice()) {
            Ok(a) => a,
            Err(e) => {
                return Err(TypstError::Attribute(e));
            },
        };
        let (bs, be, end) = if o.self_closing {
            (o.end + 1, o.end + 1, o.end + 1)
        } else {
            proof {
                crate::subtree::lemma_match_close_range(s@, o.end + 1, o.name@, 1);
            }
            match find_matching_close_tag(s, o.end + 1, o.name.as_slice()) {
                Some(c) => (o.end + 1, c.start, c.end + 1),
                None => {
                    return Err(TypstError::Unclosed { tag: string_of(o.name.as_slice()) });
                },
            }
        };
        let body = slice_to_vec(s, bs, be);
        let kind = match kodama_kind_exec(o.name.as_slice()) {
            Some(k) => k,
            None => {
                return Err(TypstError::Unclosed { tag: string_of(o.name.as_slice()) });
            },
        };
        match element_exec(
            kind,
            &attrs,
            body.as_slice(),
            source,
            current,
            allow_subtree,
            &mut builder,
            meta,
            sections,
            used,
            anon,
        ) {
            Ok(()) => {},
            Err(e) => {
                return Err(e);
            },
        }
        cursor = end;
    }
}

proof fn lemma_next_element_range(s: Seq<char>, i: int)
    requires
        0 <= i <= s.len(),
    ensures
        next_element(s, i) matches Some((lt, o)) ==> i <= lt < s.len() && open_tag_spec(s, lt)
            == Some(o) && kodama_kind(o.name) is Some,
    decreases s.len() + 1 - i,
{
    crate::text::lemma_find_from_props(s, seq!['<'], i);
    match find_from(s, seq!['<'], i) {
        None => {},
        Some(lt) => if lt < i || lt >= s.len() {
        } else {
            match open_tag_spec(s, lt) {
                Some(o) => if kodama_kind(o.name) is Some {
                } else {
                    lemma_next_element_range(s, lt + 1);
                },
                None => {
                    lemma_next_element_range(s, lt + 1);
                },
            }
        },
    }
}

/// One element: what it adds to the content, the metadata and the state.
fn element_exec(
    kind: KodamaKind,
    attrs: &Attrs,
    body: &[char],
    source: &Slug,
    current: &Slug,
    allow_subtree: bool,
    builder: &mut ContentBuilder,
    meta: &mut OrderedMap<HTMLContent>,
    sections: &mut Vec<(Slug, UnresolvedSection)>,
    used: &mut Vec<Slug>,
    anon: &mut AnonymousSlugState,
) -> (r: Result<(), TypstError>)
    ensures
        match element_step(
            kind,
            attrs@,
            body@,
            source@,
            current@,
            allow_subtree,
            piece_models(old(builder).pieces@),
            meta_model(old(meta)@),
            state_of(old(sections)@, old(used)@, old(anon).next),
        ) {
            Ok((ps, m, st)) => r is Ok && piece_models(final(builder).pieces@) == ps && meta_model(
                final(meta)@,
            ) == m && state_of(final(sections)@, final(used)@, final(anon).next) == st,
            Err(e) => r matches Err(x) && x.model() == e,
        },
    decreases body@.len(), 2nat,
{
    match kind {
        KodamaKind::Meta => {
            let key = match attrs.get("key") {
                Some(k) => k,
                None => {
                    return Err(TypstError::MissingAttribute { name: owned("key") });
                },
            };
            let val = match attrs.get("value") {
                Some(v) => HTMLContent::Plain(v),
                None => {
                    let mut inner: OrderedMap<HTMLContent> = OrderedMap::new();
                    assert(meta_model(inner@) =~= Seq::<(Seq<char>, ContentModel)>::empty());
                    match parse_typst_html(
                        body,
                        source,
                        current,
                        false,
                        &mut inner,
                        sections,
                        used,
                        anon,
                    ) {
                        Ok(c) => c,
                        Err(e) => {
                            return Err(e);
                        },
                    }
                },
            };
            let val = apply_taxon_display(&key, val);
            meta_insert(meta, key, val);
            Ok(())
        },
        KodamaKind::Embed => {
            let url = match attrs.get("url") {
                Some(u) => u,
                None => {
                    return Err(TypstError::MissingAttribute { name: owned("url") });
                },
            };
            let title = element_value_exec(attrs, body);
            let option = parse_subtree_option(attrs);
            builder.push(LazyContent::Embed(EmbedContent { url, title, option }));
            Ok(())
        },
        KodamaKind::Local => {
            let url = match attrs.get("slug") {
                Some(u) => u,
                None => {
                    return Err(TypstError::MissingAttribute { name: owned("slug") });
                },
            };
            let text = element_value_exec(attrs, body);
            builder.push(LazyContent::Local(LocalLink { url, text }));
            Ok(())
        },
        KodamaKind::Subtree => {
            if !allow_subtree {
                return Err(TypstError::SubtreeInMetadata { source: owned(source.as_str()) });
            }
            let ghost used0 = slug_views(used@);
            let (sl, anonymous) = match attrs.get("slug") {
                Some(raw) => match resolve_subtree_slug(current, raw.as_str()) {
                    None => {
                        return Err(
                            TypstError::InvalidSlug { raw, source: owned(source.as_str()) },
                        );
                    },
                    Some(sl) => {
                        if contains_slug_exec(used, &sl) {
                            return Err(
                                TypstError::DuplicateSlug {
                                    slug: owned(sl.as_str()),
                                    source: owned(source.as_str()),
                                },
                            );
                        }
                        let ghost u0 = used@;
                        used.push(sl.duplicate());
                        assert(slug_views(used@) =~= slug_views(u0).push(sl@));
                        (sl, false)
                    },
                },
                None => {
                    if anon.next > usize::MAX - 1 || used.len() > usize::MAX - 1 - anon.next {
                        return Err(TypstError::TooManySections);
                    }
                    let sl = anon.allocate_with_used(source, used);
                    (sl, true)
                },
            };
            let title = nonempty_attr_exec(attrs, "title");
            let taxon = nonempty_attr_exec(attrs, "taxon");
            let option = parse_subtree_option(attrs);
            let mut url = vec!['/'];
            let slv = sl.chars();
            push_all(&mut url, slv.as_slice());
            assert(url@ =~= seq!['/'] + sl@);
            builder.push(
                LazyContent::Embed(EmbedContent { url: string_of(url.as_slice()), title: dup_opt(&title), option }),
            );
            let mut sub = subtree_meta_exec(&sl, source, anonymous);
            let nested = if anonymous {
                current.duplicate()
            } else {
                sl.duplicate()
            };
            let content = match parse_typst_html(
                body,
                source,
                &nested,
                true,
                &mut sub,
                sections,
                used,
                anon,
            ) {
                Ok(c) => c,
                Err(e) => {
                    return Err(e);
                },
            };
            apply_typst_defaults(&mut sub, title, taxon);
            let ghost s0 = sections@;
            sections.push((sl, UnresolvedSection { metadata: HTMLMetaData(sub), content }));
            assert(section_views(sections@) =~= section_views(s0).push(section_views(sections@).last()));
            Ok(())
        },
    }
}

fn contains_slug_exec(used: &Vec<Slug>, s: &Slug) -> (r: bool)
    ensures
        r == slug_views(used@).contains(s@),
{
    let mut i: usize = 0;
    while i < used.len()
        invariant
            i <= used@.len(),
            forall|j: int| 0 <= j < i ==> used@[j]@ != s@,
        decreases used.len() - i,
    {
        if used[i].same(s) {
            assert(slug_views(used@)[i as int] == s@);
            return true;
        }
        i = i + 1;
    }
    proof {
        if slug_views(used@).contains(s@) {
            let j = choose|j: int| 0 <= j < slug_views(used@).len() && slug_views(used@)[j] == s@;
            assert(used@[j]@ == s@);
        }
    }
    false
}

fn subtree_meta_exec(slug: &Slug, source: &Slug, anonymous: bool) -> (r: OrderedMap<HTMLContent>)
    ensures
        meta_model(r@) == subtree_meta(slug@, source@, anonymous),
        crate::ordered_map::unique_keys(r@),
{
    let mut m: OrderedMap<HTMLContent> = OrderedMap::new();
    assert(meta_model(m@) =~= Seq::<(Seq<char>, ContentModel)>::empty());
    proof {
        reveal_strlit("slug");
        reveal_strlit("ext");
        reveal_strlit("source-slug");
        reveal_strlit("internal-anonymous-subtree");
        assert("slug"@.len() == 4);
        assert("ext"@.len() == 3);
        assert("source-slug"@.len() == 11);
        assert("internal-anonymous-subtree"@.len() == 26);
    }
    let ghost e: MetaModel = Seq::empty();
    meta_insert(&mut m, owned("slug"), HTMLContent::Plain(owned(slug.as_str())));
    let ghost m1 = e.push(("slug"@, ContentModel::Plain(slug@)));
    assert(meta_model(m@) =~= m1);
    meta_insert(&mut m, owned("ext"), HTMLContent::Plain(owned("typst")));
    proof {
        assert(m1[0].0 != "ext"@);
        assert(index_of_key(m1, "ext"@) is None);
    }
    let ghost m2 = m1.push(("ext"@, ContentModel::Plain("typst"@)));
    assert(meta_model(m@) =~= m2);
    meta_insert(&mut m, owned("source-slug"), HTMLContent::Plain(owned(source.as_str())));
    proof {
        assert(m2[0].0 != source_slug_key());
        assert(m2[1].0 != source_slug_key());
        assert(index_of_key(m2, source_slug_key()) is None);
    }
    let ghost m3 = m2.push((source_slug_key(), ContentModel::Plain(source@)));
    assert(meta_model(m@) =~= m3);
    if anonymous {
        meta_insert(&mut m, owned("internal-anonymous-subtree"), HTMLContent::Plain(owned("true")));
        proof {
            assert(m3[0].0 != anon_key());
            assert(m3[1].0 != anon_key());
            assert(m3[2].0 != anon_key());
            assert(index_of_key(m3, anon_key()) is None);
        }
        assert(meta_model(m@) =~= m3.push((anon_key(), ContentModel::Plain("true"@))));
    }
    let _ = m.len();
    assert(meta_model(m@) =~= subtree_meta(slug@, source@, anonymous));
    m
}

pub(crate) fn apply_typst_defaults(meta: &mut OrderedMap<HTMLContent>, title: Option<String>, taxon: Option<String>)
    ensures
        meta_model(final(meta)@) == subtree_defaults(
            meta_model(old(meta)@),
            crate::section::opt_str(title),
            crate::section::opt_str(taxon),
        ),
{
    proof {
        lemma_meta_lookup(meta@, "title"@);
    }
    match title {
        Some(t) => {
            if !meta.contains_key("title") {
                meta_insert(meta, owned("title"), HTMLContent::Plain(t));
            }
        },
        None => {},
    }
    proof {
        lemma_meta_lookup(meta@, "taxon"@);
    }
    match taxon {
        Some(t) => {
            if !meta.contains_key("taxon") {
                let shown = display_taxon(t.as_str());
                meta_insert(meta, owned("taxon"), HTMLContent::Plain(shown));
            }
        },
        None => {},
    }
}

/// The sections a source compiled by `typst` holds, the source first.
pub open spec fn typst_sections_spec(source: Seq<char>, html: Seq<char>) -> Result<
    Seq<SectionModel>,
    TypstErrorModel,
> {
    match parse_all(
        html,
        source,
        source,
        true,
        subtree_meta(source, source, false),
        ParseState { sections: Seq::empty(), used: seq![source], next: 0 },
    ) {
        Ok((c, m, st)) => Ok(seq![(source, m, c)] + st.sections),
        Err(e) => Err(e),
    }
}

/// Reads the sections of the `typst` source `source_slug` from its HTML.
pub fn parse_typst_sections_from_html(source_slug: &Slug, html: &str) -> (r: Result<
    Vec<(Slug, UnresolvedSection)>,
    TypstError,
>)
    ensures
        match typst_sections_spec(source_slug@, html@) {
            Ok(secs) => r matches Ok(v) && section_views(v@) == secs,
            Err(e) => r matches Err(x) && x.model() == e,
        },
{
    let s = chars_of(html);
    let mut meta = subtree_meta_exec(source_slug, source_slug, false);
    let mut used: Vec<Slug> = Vec::new();
    used.push(source_slug.duplicate());
    assert(slug_views(used@) =~= seq![source_slug@]);
    let mut anon = AnonymousSlugState { next: 0 };
    let mut sections: Vec<(Slug, UnresolvedSection)> = Vec::new();
    assert(section_views(sections@) =~= Seq::<SectionModel>::empty());
    let content = match parse_typst_html(
        s.as_slice(),
        source_slug,
        source_slug,
        true,
        &mut meta,
        &mut sections,
        &mut used,
        &mut anon,
    ) {
        Ok(c) => c,
        Err(e) => {
            return Err(e);
        },
    };
    let mut out: Vec<(Slug, UnresolvedSection)> = Vec::new();
    out.push((source_slug.duplicate(), UnresolvedSection { metadata: HTMLMetaData(meta), content }));
    out.append(&mut sections);
    Ok(out)
}

} // verus!
