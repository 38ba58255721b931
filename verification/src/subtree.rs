//! Subtrees: sections written inline inside another section's markdown as
//! `<remark slug="child" title="...">...</remark>` and the like. They are
//! cut out of the host text, which keeps an embed placeholder in their
//! place.
use vstd::prelude::*;

use crate::attrs::{
    attr_lookup, attrs_from, parse_attrs, parse_subtree_option, subtree_option_spec, AttrError,
    AttrErrorModel, Attrs,
};
use crate::section::SectionOption;
use crate::slug::{parent_text, Slug};
use crate::tags::{
    byte_index_to_line_col, find_matching_close_tag, line_col, match_close, open_tag_spec,
    parse_open_tag, lemma_open_tag_end,
};
use crate::text::{
    chars_of, decimal, eq_str, find_char, find_from, push_all, push_decimal, push_str,
    slice_to_vec, string_of, trim, trimmed,
};

verus! {

// ---------------------------------------------------------------------------
// Tag names and slugs
// ---------------------------------------------------------------------------
/// The tag names that open a subtree.
pub open spec fn subtree_tag_spec(t: Seq<char>) -> bool {
    ||| t == "block"@
    ||| t == "exegesis"@
    ||| t == "definition"@
    ||| t == "proposition"@
    ||| t == "remark"@
    ||| t == "conjecture"@
    ||| t == "postulate"@
    ||| t == "claim"@
    ||| t == "observation"@
    ||| t == "fact"@
    ||| t == "hypothesis"@
    ||| t == "axiom"@
    ||| t == "lemma"@
    ||| t == "theorem"@
    ||| t == "corollary"@
    ||| t == "example"@
    ||| t == "proof"@
}

fn is_subtree_tag_chars(t: &[char]) -> (r: bool)
    ensures
        r == subtree_tag_spec(t@),
{
    eq_str(t, "block") || eq_str(t, "exegesis") || eq_str(t, "definition") || eq_str(
        t,
        "proposition",
    ) || eq_str(t, "remark") || eq_str(t, "conjecture") || eq_str(t, "postulate") || eq_str(
        t,
        "claim",
    ) || eq_str(t, "observation") || eq_str(t, "fact") || eq_str(t, "hypothesis") || eq_str(
        t,
        "axiom",
    ) || eq_str(t, "lemma") || eq_str(t, "theorem") || eq_str(t, "corollary") || eq_str(
        t,
        "example",
    ) || eq_str(t, "proof")
}

/// Whether a (lower-case) tag name opens a subtree.
pub fn is_subtree_tag(tag: &str) -> (r: bool)
    ensures
        r == subtree_tag_spec(tag@),
{
    let t = chars_of(tag);
    is_subtree_tag_chars(t.as_slice())
}

/// The slug a `slug` attribute names, next to `current`: the attribute must
/// be one plain path segment (no `/` or `\`, not `.` or `..`, not empty).
pub open spec fn subtree_slug_spec(current: Seq<char>, raw: Seq<char>) -> Option<Seq<char>> {
    if raw.len() == 0 || raw.contains('/') || raw.contains('\\') || raw == seq!['.'] || raw
        == seq!['.', '.'] {
        None
    } else {
        let p = parent_text(current);
        if p.len() == 0 {
            Some(raw)
        } else if p.last() == '/' {
            Some(p + raw)
        } else {
            Some(p + seq!['/'] + raw)
        }
    }
}

fn contains_char(s: &[char], c: char) -> (r: bool)
    ensures
        r == s@.contains(c),
{
    match find_char(s, c, 0) {
        Some(k) => {
            assert(s@[k as int] == c);
            true
        },
        None => false,
    }
}

/// Resolves a subtree's `slug` attribute against the slug it is written in.
pub fn resolve_subtree_slug(current: &Slug, raw: &str) -> (r: Option<Slug>)
    ensures
        match subtree_slug_spec(current@, raw@) {
            Some(s) => r matches Some(x) && x@ == s,
            None => r is None,
        },
{
    let rv = chars_of(raw);
    proof {
        reveal_strlit(".");
        reveal_strlit("..");
    }
    let bad = rv.len() == 0 || contains_char(rv.as_slice(), '/') || contains_char(
        rv.as_slice(),
        '\\',
    ) || eq_str(rv.as_slice(), ".") || eq_str(rv.as_slice(), "..");
    assert("."@ =~= seq!['.']);
    assert(".."@ =~= seq!['.', '.']);
    assert(bad == (raw@.len() == 0 || raw@.contains('/') || raw@.contains('\\') || raw@
        == seq!['.'] || raw@ == seq!['.', '.']));
    if bad {
        return None;
    }
    let cur = current.chars();
    let mut p = crate::slug::parent_chars(cur.as_slice());
    if p.len() > 0 && p[p.len() - 1] != '/' {
        p.push('/');
    }
    push_all(&mut p, rv.as_slice());
    let r = Slug::from_chars(p.as_slice());
    assert(subtree_slug_spec(current@, raw@) == Some(r@));
    Some(r)
}

/// The slug given to the `n`-th anonymous subtree of `source`.
pub open spec fn anonymous_slug_spec(source: Seq<char>, n: nat) -> Seq<char> {
    source + seq!['/', ':'] + decimal(n)
}

pub fn anonymous_slug_for(source: &Slug, n: usize) -> (r: Slug)
    ensures
        r@ == anonymous_slug_spec(source@, n as nat),
{
    let mut v = source.chars();
    v.push('/');
    v.push(':');
    push_decimal(&mut v, n);
    Slug::from_chars(v.as_slice())
}

// ---------------------------------------------------------------------------
// Extraction
// ---------------------------------------------------------------------------
/// The url an embed placeholder for the `n`-th subtree points at.
pub open spec fn placeholder_spec(n: nat) -> Seq<char> {
    "/__kodama_subtree_internal__/"@ + decimal(n)
}

/// The text left in place of the `n`-th subtree.
pub open spec fn placeholder_line_spec(n: nat) -> Seq<char> {
    seq!['\n', '[', ']', '('] + placeholder_spec(n) + "#:embed)\n"@
}

/// A subtree cut out of its host.
pub struct SubtreeModel {
    pub tag: Seq<char>,
    pub slug: Seq<char>,
    pub body: Seq<char>,
    pub placeholder_url: Seq<char>,
    pub option: SectionOption,
    pub title: Option<Seq<char>>,
    pub taxon: Option<Seq<char>>,
    pub anonymous: bool,
    pub source_slug: Seq<char>,
    pub source_pos: Seq<char>,
}

/// Why subtrees could not be cut out.
pub enum SubtreeErrorModel {
    Attribute(AttrErrorModel),
    /// No matching close tag (tag name, host slug).
    Unclosed(Seq<char>, Seq<char>),
    /// A blank `slug` attribute (tag name, host slug).
    EmptySlug(Seq<char>, Seq<char>),
    /// A `slug` attribute that is not one plain segment (tag name, attribute
    /// value, host slug).
    InvalidSlug(Seq<char>, Seq<char>, Seq<char>),
}

pub open spec fn pos_text(lc: (int, int)) -> Seq<char> {
    decimal(lc.0 as nat) + seq![':'] + decimal(lc.1 as nat)
}

/// The subtree for the open tag `o` at `lt` whose close tag spans
/// `(cstart, cend)`.
pub open spec fn subtree_at(
    s: Seq<char>,
    lt: int,
    tag: Seq<char>,
    body_start: int,
    cstart: int,
    attrs: Seq<(Seq<char>, Seq<char>)>,
    current: Seq<char>,
    source: Seq<char>,
    n: nat,
) -> Result<SubtreeModel, SubtreeErrorModel> {
    let slug_anon: Result<(Seq<char>, bool), SubtreeErrorModel> = match attr_lookup(
        attrs,
        "slug"@,
    ) {
        Some(raw) => if trim(raw).len() == 0 {
            Err(SubtreeErrorModel::EmptySlug(tag, current))
        } else {
            match subtree_slug_spec(current, raw) {
                Some(sl) => Ok((sl, false)),
                None => Err(SubtreeErrorModel::InvalidSlug(tag, raw, current)),
            }
        },
        None => Ok((anonymous_slug_spec(source, n), true)),
    };
    match slug_anon {
        Err(e) => Err(e),
        Ok((slug, anonymous)) => Ok(
            SubtreeModel {
                tag,
                slug,
                body: s.subrange(body_start, cstart),
                placeholder_url: placeholder_spec(n),
                option: subtree_option_spec(attrs),
                title: attr_lookup(attrs, "title"@),
                taxon: attr_lookup(attrs, "taxon"@),
                anonymous,
                source_slug: source,
                source_pos: pos_text(line_col(s, lt)),
            },
        ),
    }
}

/// Cutting subtrees out of `s` from `cursor` on, given the host text kept so
/// far and the subtrees found so far. Every `<` that opens a subtree tag
/// (one that is not self-closing) up to its matching close tag becomes a
/// placeholder line; every other character is kept.
pub open spec fn extract_from(
    s: Seq<char>,
    cursor: int,
    current: Seq<char>,
    source: Seq<char>,
    root: Seq<char>,
    subs: Seq<SubtreeModel>,
) -> Result<(Seq<char>, Seq<SubtreeModel>), SubtreeErrorModel>
    decreases s.len() - cursor,
{
    if cursor < 0 || cursor > s.len() {
        Ok((root, subs))
    } else {
        match find_from(s, seq!['<'], cursor) {
            None => Ok((root + s.skip(cursor), subs)),
            Some(lt) => if lt < cursor || lt >= s.len() {
                Ok((root, subs))
            } else {
                let kept = root + s.subrange(cursor, lt);
                match open_tag_spec(s, lt) {
                    None => extract_from(s, lt + 1, current, source, kept.push('<'), subs),
                    Some(o) => if !subtree_tag_spec(o.name) || o.self_closing {
                        extract_from(s, lt + 1, current, source, kept.push('<'), subs)
                    } else {
                        match attrs_from(o.attrs, 0) {
                            Err(e) => Err(SubtreeErrorModel::Attribute(e)),
                            Ok(attrs) => if o.end < lt || o.end >= s.len() {
                                Ok((root, subs))
                            } else {
                                match match_close(s, o.end + 1, o.name, 1) {
                                    None => Err(SubtreeErrorModel::Unclosed(o.name, current)),
                                    Some((cs, ce)) => if cs < o.end + 1 || ce < cs || ce
                                        >= s.len() {
                                        Ok((root, subs))
                                    } else {
                                        match subtree_at(
                                            s,
                                            lt,
                                            o.name,
                                            o.end + 1,
                                            cs,
                                            attrs,
                                            current,
                                            source,
                                            subs.len(),
                                        ) {
                                            Err(e) => Err(e),
                                            Ok(m) => extract_from(
                                                s,
                                                ce + 1,
                                                current,
                                                source,
                                                kept + placeholder_line_spec(subs.len()),
                                                subs.push(m),
                                            ),
                                        }
                                    },
                                }
                            },
                        }
                    },
                }
            },
        }
    }
}

/// Subtrees cut out of `source_text`, which is the section `current`; the
/// anonymous ones are named after `source`.
pub open spec fn extract_spec(text: Seq<char>, current: Seq<char>, source: Seq<char>) -> Result<
    (Seq<char>, Seq<SubtreeModel>),
    SubtreeErrorModel,
> {
    extract_from(text, 0, current, source, seq![], seq![])
}

pub proof fn lemma_match_close_range(s: Seq<char>, cursor: int, tag: Seq<char>, depth: nat)
    ensures
        match_close(s, cursor, tag, depth) matches Some((a, b)) ==> cursor <= a < b < s.len(),
    decreases s.len() - cursor,
{
    if 0 <= cursor <= s.len() {
        crate::text::lemma_find_from_props(s, seq!['<'], cursor);
        match find_from(s, seq!['<'], cursor) {
            None => {},
            Some(start) => if start < cursor || start >= s.len() {
            } else {
                crate::tags::lemma_open_tag_end(s, start);
                crate::tags::lemma_close_tag_end(s, start);
                match open_tag_spec(s, start) {
                    Some(o) => {
                        if o.end >= start && o.end < s.len() {
                            lemma_match_close_range(s, o.end + 1, tag, depth + 1);
                            lemma_match_close_range(s, o.end + 1, tag, depth);
                        }
                    },
                    None => match crate::tags::close_tag_spec(s, start) {
                        Some(c) => {
                            if c.end >= start && c.end < s.len() {
                                if depth > 1 {
                                    lemma_match_close_range(s, c.end + 1, tag, (depth - 1) as nat);
                                }
                                lemma_match_close_range(s, c.end + 1, tag, depth);
                            }
                        },
                        None => {
                            lemma_match_close_range(s, start + 1, tag, depth);
                        },
                    },
                }
            },
        }
    }
}

/// A subtree as cut out.
#[derive(Debug)]
pub struct SubtreeSpec {
    pub tag: String,
    pub slug: Slug,
    pub body: String,
    pub placeholder_url: String,
    pub option: SectionOption,
    pub title: Option<String>,
    pub taxon: Option<String>,
    pub anonymous: bool,
    pub source_slug: Slug,
    pub source_pos: String,
}

pub open spec fn opt_view(o: Option<String>) -> Option<Seq<char>> {
    match o {
        Some(s) => Some(s@),
        None => None,
    }
}

impl SubtreeSpec {
    pub open spec fn model(&self) -> SubtreeModel {
        SubtreeModel {
            tag: self.tag@,
            slug: self.slug@,
            body: self.body@,
            placeholder_url: self.placeholder_url@,
            option: self.option,
            title: opt_view(self.title),
            taxon: opt_view(self.taxon),
            anonymous: self.anonymous,
            source_slug: self.source_slug@,
            source_pos: self.source_pos@,
        }
    }
}

pub open spec fn models(v: Seq<SubtreeSpec>) -> Seq<SubtreeModel> {
    v.map_values(|x: SubtreeSpec| x.model())
}

/// The host text with placeholders, and the subtrees cut out of it.
#[derive(Debug)]
pub struct ExtractedSubtrees {
    pub root_source: String,
    pub subtrees: Vec<SubtreeSpec>,
}

/// Why subtrees could not be cut out.
#[derive(Debug)]
pub enum SubtreeError {
    Attribute(AttrError),
    Unclosed { tag: String, slug: String },
    EmptySlug { tag: String, slug: String },
    InvalidSlug { tag: String, raw_slug: String, slug: String },
}

impl SubtreeError {
    pub open spec fn model(&self) -> SubtreeErrorModel {
        match self {
            SubtreeError::Attribute(e) => SubtreeErrorModel::Attribute(e.model()),
            SubtreeError::Unclosed { tag, slug } => SubtreeErrorModel::Unclosed(tag@, slug@),
            SubtreeError::EmptySlug { tag, slug } => SubtreeErrorModel::EmptySlug(tag@, slug@),
            SubtreeError::InvalidSlug { tag, raw_slug, slug } => SubtreeErrorModel::InvalidSlug(
                tag@,
                raw_slug@,
                slug@,
            ),
        }
    }
}

/// The message of a subtree error.
pub open spec fn subtree_message_spec(e: SubtreeErrorModel) -> Seq<char> {
    match e {
        SubtreeErrorModel::Attribute(a) => crate::attrs::attr_message_spec(a),
        SubtreeErrorModel::Unclosed(t, sl) => "unclosed subtree tag `<"@ + t
            + " slug=\"...\">` in `"@ + sl + "`"@,
        SubtreeErrorModel::EmptySlug(t, sl) => "invalid subtree tag `<"@ + t + ">` in `"@ + sl
            + "`: `slug` cannot be empty"@,
        SubtreeErrorModel::InvalidSlug(t, raw, sl) => "invalid subtree tag `<"@ + t
            + " slug=\""@ + raw + "\">` in `"@ + sl + "`"@,
    }
}

impl SubtreeError {
    /// The error's message.
    pub fn message(&self) -> (r: String)
        ensures
            r@ == subtree_message_spec(self.model()),
    {
        match self {
            SubtreeError::Attribute(a) => a.message(),
            SubtreeError::Unclosed { tag, slug } => {
                let mut v: Vec<char> = Vec::new();
                push_str(&mut v, "unclosed subtree tag `<");
                push_str(&mut v, tag.as_str());
                push_str(&mut v, " slug=\"...\">` in `");
                push_str(&mut v, slug.as_str());
                push_str(&mut v, "`");
                assert(v@ =~= subtree_message_spec(self.model()));
                string_of(v.as_slice())
            },
            SubtreeError::EmptySlug { tag, slug } => {
                let mut v: Vec<char> = Vec::new();
                push_str(&mut v, "invalid subtree tag `<");
                push_str(&mut v, tag.as_str());
                push_str(&mut v, ">` in `");
                push_str(&mut v, slug.as_str());
                push_str(&mut v, "`: `slug` cannot be empty");
                assert(v@ =~= subtree_message_spec(self.model()));
                string_of(v.as_slice())
            },
            SubtreeError::InvalidSlug { tag, raw_slug, slug } => {
                let mut v: Vec<char> = Vec::new();
                push_str(&mut v, "invalid subtree tag `<");
                push_str(&mut v, tag.as_str());
                push_str(&mut v, " slug=\"");
                push_str(&mut v, raw_slug.as_str());
                push_str(&mut v, "\">` in `");
                push_str(&mut v, slug.as_str());
                push_str(&mut v, "`");
                assert(v@ =~= subtree_message_spec(self.model()));
                string_of(v.as_slice())
            },
        }
    }
}

fn opt_string(o: Option<String>) -> (r: Option<String>)
    ensures
        opt_view(r) == opt_view(o),
{
    o
}

fn make_subtree(
    s: &[char],
    lt: usize,
    tag: &Vec<char>,
    body_start: usize,
    cstart: usize,
    attrs: &Attrs,
    current: &Slug,
    source: &Slug,
    n: usize,
) -> (r: Result<SubtreeSpec, SubtreeError>)
    requires
        lt < s@.len(),
        body_start <= cstart <= s@.len(),
        s@.len() < usize::MAX,
    ensures
        match subtree_at(s@, lt as int, tag@, body_start as int, cstart as int, attrs@, current@, source@, n as nat) {
            Ok(m) => r matches Ok(x) && x.model() == m,
            Err(e) => r matches Err(x) && x.model() == e,
        },
{
    let tag_s = string_of(tag.as_slice());
    let (slug, anonymous) = match attrs.get("slug") {
        Some(raw) => {
            let rv = chars_of(raw.as_str());
            let t = trimmed(rv.as_slice());
            if t.len() == 0 {
                return Err(
                    SubtreeError::EmptySlug { tag: tag_s, slug: string_of(current.chars().as_slice()) },
                );
            }
            match resolve_subtree_slug(current, raw.as_str()) {
                Some(sl) => (sl, false),
                None => {
                    return Err(
                        SubtreeError::InvalidSlug {
                            tag: tag_s,
                            raw_slug: raw,
                            slug: string_of(current.chars().as_slice()),
                        },
                    );
                },
            }
        },
        None => (anonymous_slug_for(source, n), true),
    };
    let (line, col) = byte_index_to_line_col(s, lt);
    let mut pos: Vec<char> = Vec::new();
    push_decimal(&mut pos, line);
    pos.push(':');
    push_decimal(&mut pos, col);
    let mut url: Vec<char> = Vec::new();
    push_str(&mut url, "/__kodama_subtree_internal__/");
    push_decimal(&mut url, n);
    let body = slice_to_vec(s, body_start, cstart);
    let r = SubtreeSpec {
        tag: tag_s,
        slug,
        body: string_of(body.as_slice()),
        placeholder_url: string_of(url.as_slice()),
        option: parse_subtree_option(attrs),
        title: opt_string(attrs.get("title")),
        taxon: opt_string(attrs.get("taxon")),
        anonymous,
        source_slug: source.duplicate(),
        source_pos: string_of(pos.as_slice()),
    };
    assert(pos@ =~= pos_text(line_col(s@, lt as int)));
    Ok(r)
}

/// Cuts the subtrees out of the text of `current_slug`; anonymous subtrees
/// are named after `source_slug`.
pub fn extract_subtrees_nested(source: &str, current_slug: &Slug, source_slug: &Slug) -> (r:
    Result<ExtractedSubtrees, SubtreeError>)
    requires
        source@.len() < usize::MAX,
    ensures
        match extract_spec(source@, current_slug@, source_slug@) {
            Ok((root, subs)) => r matches Ok(x) && x.root_source@ == root && models(x.subtrees@)
                == subs,
            Err(e) => r matches Err(x) && x.model() == e,
        },
{
    let s = chars_of(source);
    let mut root: Vec<char> = Vec::new();
    let mut subtrees: Vec<SubtreeSpec> = Vec::new();
    let mut cursor: usize = 0;
    assert(models(subtrees@) =~= Seq::<SubtreeModel>::empty());
    assert(root@ =~= Seq::<char>::empty());
    loop
        invariant
            s@ == source@,
            s@.len() < usize::MAX,
            cursor <= s@.len(),
            extract_spec(s@, current_slug@, source_slug@) == extract_from(
                s@,
                cursor as int,
                current_slug@,
                source_slug@,
                root@,
                models(subtrees@),
            ),
        decreases s.len() - cursor,
    {
        let lt = match find_char(s.as_slice(), '<', cursor) {
            Some(x) => x,
            None => {
                let rest = slice_to_vec(s.as_slice(), cursor, s.len());
                push_all(&mut root, rest.as_slice());
                assert(rest@ =~= s@.skip(cursor as int));
                return Ok(ExtractedSubtrees { root_source: string_of(root.as_slice()), subtrees });
            },
        };
        let between = slice_to_vec(s.as_slice(), cursor, lt);
        push_all(&mut root, between.as_slice());
        proof {
            lemma_open_tag_end(s@, lt as int);
        }
        let open = parse_open_tag(s.as_slice(), lt);
        let o = match open {
            Some(o) => o,
            None => {
                root.push('<');
                cursor = lt + 1;
                continue ;
            },
        };
        if !is_subtree_tag_chars(o.name.as_slice()) || o.self_closing {
            root.push('<');
            cursor = lt + 1;
            continue ;
        }
        let attrs = match parse_attrs(o.attrs.as_slice()) {
            Ok(a) => a,
            Err(e) => return Err(SubtreeError::Attribute(e)),
        };
        proof {
            lemma_match_close_range(s@, o.end + 1, o.name@, 1);
        }
        let close = match find_matching_close_tag(s.as_slice(), o.end + 1, o.name.as_slice()) {
            Some(c) => c,
            None => {
                return Err(
                    SubtreeError::Unclosed {
                        tag: string_of(o.name.as_slice()),
                        slug: string_of(current_slug.chars().as_slice()),
                    },
                );
            },
        };
        let n = subtrees.len();
        let m = match make_subtree(
            s.as_slice(),
            lt,
            &o.name,
            o.end + 1,
            close.start,
            &attrs,
            current_slug,
            source_slug,
            n,
        ) {
            Ok(m) => m,
            Err(e) => return Err(e),
        };
        let ghost root_before = root@;
        root.push('\n');
        root.push('[');
        root.push(']');
        root.push('(');
        push_str(&mut root, "/__kodama_subtree_internal__/");
        push_decimal(&mut root, n);
        push_str(&mut root, "#:embed)\n");
        proof {
            assert(root@ =~= root_before + placeholder_line_spec(n as nat));
        }
        let ghost subs_before = models(subtrees@);
        subtrees.push(m);
        assert(models(subtrees@) =~= subs_before.push(m.model()));
        cursor = close.end + 1;
    }
}

/// Subtrees cut out of a section's own text.
pub fn extract_subtrees_root(source: &str, source_slug: &Slug) -> (r: Result<
    ExtractedSubtrees,
    SubtreeError,
>)
    requires
        source@.len() < usize::MAX,
    ensures
        match extract_spec(source@, source_slug@, source_slug@) {
            Ok((root, subs)) => r matches Ok(x) && x.root_source@ == root && models(x.subtrees@)
                == subs,
            Err(e) => r matches Err(x) && x.model() == e,
        },
{
    extract_subtrees_nested(source, source_slug, source_slug)
}

} // verus!

verus! {

/// The subtree tags are exactly the seventeen block names: `block`,
/// `exegesis`, `definition`, `proposition`, `remark`, `conjecture`,
/// `postulate`, `claim`, `observation`, `fact`, `hypothesis`, `axiom`,
/// `lemma`, `theorem`, `corollary`, `example` and `proof`.
pub proof fn law_subtree_tags(t: Seq<char>)
    ensures
        subtree_tag_spec(t) <==> set![
            "block"@,
            "exegesis"@,
            "definition"@,
            "proposition"@,
            "remark"@,
            "conjecture"@,
            "postulate"@,
            "claim"@,
            "observation"@,
            "fact"@,
            "hypothesis"@,
            "axiom"@,
            "lemma"@,
            "theorem"@,
            "corollary"@,
            "example"@,
            "proof"@,
        ].contains(t),
{
}

} // verus!
