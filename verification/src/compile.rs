//! Compiling parsed sections: embeds are resolved to the sections they
//! name (each compiled once, cycles refused), links become HTML links, and
//! what a section tells about others (parents, backlinks, references) is
//! collected.
use vstd::prelude::*;

use crate::callback::{insert_model, merge_maps, slug_set, Callback, CallbackValue, ValueModel};
use crate::entry::{bool_value, is_plain_key, EntryMetaData};
use crate::environment::{full_html_url, full_html_url_spec, Environment};
use crate::html::{html_link, link_spec};
use crate::order::{chars_lt, seq_lt};
use crate::ordered_map::{insert_spec, lookup, OrderedMap};
use crate::section::{ContentModel, HTMLContent, LazyContent, PieceModel, SectionOption, UnresolvedSection};
use crate::slug::{subsection_slug, subsection_slug_spec, Slug};
use crate::text::{chars_of, lowercase, owned, push_all, push_str, str_eq, string_of};
use crate::typst_html::{section_views, MetaModel, SectionModel};

verus! {

// ---------------------------------------------------------------------------
// Compiled sections
// ---------------------------------------------------------------------------
/// A piece of a compiled section: finished HTML, or an embedded section
/// (its slug, how it is shown, and the title it is shown with).
pub enum ChildModel {
    Plain(Seq<char>),
    Embed(Seq<char>, SectionOption, Option<Seq<char>>),
}

/// A compiled section: plain metadata, its pieces, and the sections it
/// references.
pub struct CompiledModel {
    pub meta: Seq<(Seq<char>, Seq<char>)>,
    pub children: Seq<ChildModel>,
    pub refs: Set<Seq<char>>,
}

/// Everything compiled so far, what is known of each section's parent and
/// backlinks, and the sections still to compile.
pub struct StateModel {
    pub compiled: Map<Seq<char>, CompiledModel>,
    pub callback: Map<Seq<char>, ValueModel>,
    pub residued: Seq<Seq<char>>,
}

pub enum CompileErrorModel {
    /// An embed chain that leads back to a section being compiled.
    Cycle(Seq<Seq<char>>),
    /// An embed of a section that does not exist (embedding section, slug).
    MissingSection(Seq<char>, Seq<char>),
    /// A section without a plain `slug` value.
    MissingSlug,
    /// A section without a plain `ext` value (slug).
    MissingExt(Seq<char>),
    /// A key the compiler reads as text holds markup (key, slug).
    NotPlain(Seq<char>, Seq<char>),
    /// A flag that is neither `true` nor `false` (key, value).
    InvalidBool(Seq<char>, Seq<char>),
}

// ---------------------------------------------------------------------------
// Reading parsed metadata
// ---------------------------------------------------------------------------
pub open spec fn meta_text(m: MetaModel, k: Seq<char>) -> Option<Seq<char>> {
    match lookup(m, k) {
        Some(ContentModel::Plain(t)) => Some(t),
        _ => None,
    }
}

/// A flag of the metadata: missing, or `true`/`false`; anything else is an
/// error.
pub open spec fn meta_flag(m: MetaModel, k: Seq<char>) -> Result<Option<bool>, CompileErrorModel> {
    match meta_text(m, k) {
        None => Ok(None),
        Some(v) => match bool_value(v) {
            Some(b) => Ok(Some(b)),
            None => Err(CompileErrorModel::InvalidBool(k, v)),
        },
    }
}

/// The first parsed section with slug `slug`.
pub open spec fn shallow_index(sh: Seq<SectionModel>, slug: Seq<char>, i: int) -> Option<int>
    decreases sh.len() - i,
{
    if i < 0 || i >= sh.len() {
        None
    } else if sh[i].0 == slug {
        Some(i)
    } else {
        shallow_index(sh, slug, i + 1)
    }
}

pub open spec fn shallow_meta(sh: Seq<SectionModel>, slug: Seq<char>) -> Option<MetaModel> {
    match shallow_index(sh, slug, 0) {
        Some(i) => Some(sh[i].1),
        None => None,
    }
}

/// A data taxon that marks reference sections.
pub open spec fn is_reference_taxon(t: Seq<char>) -> bool {
    lowercase(t) == "reference"@
}

/// Whether links to `slug` make it a reference: its `asref` flag (else the
/// site default), or its data taxon.
pub open spec fn is_reference(sh: Seq<SectionModel>, slug: Seq<char>, asref_default: bool) -> Result<
    bool,
    CompileErrorModel,
> {
    match shallow_meta(sh, slug) {
        None => Ok(false),
        Some(m) => match meta_flag(m, "asref"@) {
            Err(e) => Err(e),
            Ok(f) => Ok(
                match f {
                    Some(b) => b,
                    None => asref_default,
                } || is_reference_taxon(
                    match meta_text(m, "data-taxon"@) {
                        Some(t) => t,
                        None => Seq::empty(),
                    },
                ),
            ),
        },
    }
}

/// Whether `slug` shows backlinks (by default, and when unknown, it does).
pub open spec fn backlinks_enabled(sh: Seq<SectionModel>, slug: Seq<char>) -> Result<bool, CompileErrorModel> {
    match shallow_meta(sh, slug) {
        None => Ok(true),
        Some(m) => match meta_flag(m, "backlinks"@) {
            Err(e) => Err(e),
            Ok(f) => Ok(
                match f {
                    Some(b) => b,
                    None => true,
                },
            ),
        },
    }
}

/// Whether `slug` counts as a backlink where it links (by default it does;
/// an unknown section does not).
pub open spec fn is_backlink(sh: Seq<SectionModel>, slug: Seq<char>) -> Result<bool, CompileErrorModel> {
    match shallow_meta(sh, slug) {
        None => Ok(false),
        Some(m) => match meta_flag(m, "asback"@) {
            Err(e) => Err(e),
            Ok(f) => Ok(
                match f {
                    Some(b) => b,
                    None => true,
                },
            ),
        },
    }
}

/// The title text of a section, or nothing.
pub open spec fn article_title(sh: Seq<SectionModel>, slug: Seq<char>) -> Seq<char> {
    match shallow_meta(sh, slug) {
        Some(m) => match meta_text(m, "title"@) {
            Some(t) => t,
            None => Seq::empty(),
        },
        None => Seq::empty(),
    }
}

/// The page title of a section: its own, else its title.
pub open spec fn link_page_title(sh: Seq<SectionModel>, slug: Seq<char>) -> Seq<char> {
    match shallow_meta(sh, slug) {
        Some(m) => match meta_text(m, "page-title"@) {
            Some(t) => t,
            None => article_title(sh, slug),
        },
        None => Seq::empty(),
    }
}

/// The HTML of a link from a section to `link`.
pub open spec fn local_link_html(env: Environment, sh: Seq<SectionModel>, link: Seq<char>, text: Option<
    Seq<char>,
>) -> Seq<char> {
    link_spec(
        full_html_url_spec(env, link),
        link_page_title(sh, link) + " ["@ + link + "]"@,
        match text {
            Some(t) => t,
            None => article_title(sh, link),
        },
        "local"@,
    )
}

/// The HTML of a compiled section's text pieces, embeds left out.
pub open spec fn spanned(children: Seq<ChildModel>) -> Seq<char>
    decreases children.len(),
{
    if children.len() == 0 {
        Seq::empty()
    } else {
        spanned(children.drop_last()) + match children.last() {
            ChildModel::Plain(h) => h,
            ChildModel::Embed(..) => Seq::empty(),
        }
    }
}

// ---------------------------------------------------------------------------
// Termination measure: sections not on the embed stack
// ---------------------------------------------------------------------------
pub open spec fn shallow_keys(sh: Seq<SectionModel>) -> Set<Seq<char>> {
    sh.map_values(|e: SectionModel| e.0).to_set()
}

pub open spec fn pending_count(sh: Seq<SectionModel>, stack: Seq<Seq<char>>) -> nat {
    shallow_keys(sh).difference(stack.to_set()).len()
}

pub proof fn lemma_pending_decreases(sh: Seq<SectionModel>, stack: Seq<Seq<char>>, k: Seq<char>)
    requires
        shallow_keys(sh).contains(k),
        !stack.contains(k),
    ensures
        pending_count(sh, stack.push(k)) < pending_count(sh, stack),
{
    let keys = shallow_keys(sh);
    let a = keys.difference(stack.to_set());
    let b = keys.difference(stack.push(k).to_set());
    assert(b =~= a.remove(k)) by {
        assert forall|x: Seq<char>| stack.push(k).to_set().contains(x) <==> (stack.to_set().contains(x) || x == k) by {
            if stack.push(k).to_set().contains(x) {
                let i = choose|i: int| 0 <= i < stack.push(k).len() && stack.push(k)[i] == x;
                if i < stack.len() {
                    assert(stack[i] == x);
                }
            }
            if stack.to_set().contains(x) {
                let i = choose|i: int| 0 <= i < stack.len() && stack[i] == x;
                assert(stack.push(k)[i] == x);
            }
            if x == k {
                assert(stack.push(k)[stack.len() as int] == x);
            }
        }
    }
    assert(!stack.to_set().contains(k));
    assert(a.contains(k));
    vstd::seq_lib::seq_to_set_is_finite(sh.map_values(|e: SectionModel| e.0));
    assert(a.finite());
}

pub proof fn lemma_shallow_index(sh: Seq<SectionModel>, slug: Seq<char>, i: int)
    requires
        0 <= i,
    ensures
        shallow_index(sh, slug, i) matches Some(j) ==> i <= j < sh.len() && sh[j].0 == slug,
    decreases sh.len() - i,
{
    if i < sh.len() && sh[i].0 != slug {
        lemma_shallow_index(sh, slug, i + 1);
    }
}

pub proof fn lemma_key_of_index(sh: Seq<SectionModel>, j: int)
    requires
        0 <= j < sh.len(),
    ensures
        shallow_keys(sh).contains(sh[j].0),
{
    let ks = sh.map_values(|e: SectionModel| e.0);
    assert(ks[j] == sh[j].0);
}

// ---------------------------------------------------------------------------
// The compilation, as values
// ---------------------------------------------------------------------------
/// Fetching the compiled section `slug` while `stack` is being compiled:
/// the state after, and whether it is there.
pub open spec fn fetch(
    sh: Seq<SectionModel>,
    env: Environment,
    stack: Seq<Seq<char>>,
    st: StateModel,
    slug: Seq<char>,
) -> Result<(StateModel, bool), CompileErrorModel>
    decreases pending_count(sh, stack), 0nat, 0nat, 0nat,
{
    if st.compiled.contains_key(slug) {
        Ok((st, true))
    } else if stack.contains(slug) {
        Err(CompileErrorModel::Cycle(stack.push(slug)))
    } else {
        match shallow_index(sh, slug, 0) {
            None => Ok((st, false)),
            Some(j) => {
                proof {
                    lemma_shallow_index(sh, slug, 0);
                    lemma_key_of_index(sh, j);
                    lemma_pending_decreases(sh, stack, slug);
                }
                if 0 <= j < sh.len() {
                    match compile_section(sh, env, stack.push(slug), st, sh[j].1, sh[j].2, false) {
                        Err(e) => Err(e),
                        Ok(st2) => Ok((st2, st2.compiled.contains_key(slug))),
                    }
                } else {
                    Ok((st, false))
                }
            },
        }
    }
}

/// What one piece of a section's content adds: the state, the compiled
/// pieces, the references and the reports on other sections.
pub open spec fn piece_step(
    sh: Seq<SectionModel>,
    env: Environment,
    stack: Seq<Seq<char>>,
    level: nat,
    st: StateModel,
    slug: Seq<char>,
    piece: PieceModel,
    children: Seq<ChildModel>,
    refs: Set<Seq<char>>,
    cb: Map<Seq<char>, ValueModel>,
) -> Result<
    (StateModel, Seq<ChildModel>, Set<Seq<char>>, Map<Seq<char>, ValueModel>),
    CompileErrorModel,
>
    decreases pending_count(sh, stack), level, 1nat, 0int,
{
    if level == 0 {
        Ok((st, children, refs, cb))
    } else {
        match piece {
            PieceModel::Plain(h) => Ok((st, children.push(ChildModel::Plain(h)), refs, cb)),
            PieceModel::Embed(url, title, option) => {
                let child = subsection_slug_spec(slug, url);
                match fetch(sh, env, stack, st, child) {
                    Err(e) => Err(e),
                    Ok((st1, found)) => if !found {
                        Err(CompileErrorModel::MissingSection(slug, child))
                    } else {
                        let refs2 = if option.details_open {
                            refs.union(st1.compiled[child].refs)
                        } else {
                            refs
                        };
                        let cb2 = insert_model(
                            cb,
                            child,
                            ValueModel { parent: slug, specified: false, backlinks: Set::empty() },
                        );
                        Ok((st1, children.push(ChildModel::Embed(child, option, title)), refs2, cb2))
                    },
                }
            },
            PieceModel::Local(url, text) => {
                let link = subsection_slug_spec(slug, url);
                let r1: Result<Set<Seq<char>>, CompileErrorModel> = if link != slug {
                    match is_reference(sh, link, env.config.build.asref) {
                        Err(e) => Err(e),
                        Ok(b) => Ok(
                            if b {
                                refs.insert(link)
                            } else {
                                refs
                            },
                        ),
                    }
                } else {
                    Ok(refs)
                };
                match r1 {
                    Err(e) => Err(e),
                    Ok(refs2) => {
                        let r2: Result<bool, CompileErrorModel> = if link != slug {
                            match backlinks_enabled(sh, link) {
                                Err(e) => Err(e),
                                Ok(false) => Ok(false),
                                Ok(true) => is_backlink(sh, slug),
                            }
                        } else {
                            Ok(false)
                        };
                        match r2 {
                            Err(e) => Err(e),
                            Ok(add) => {
                                let cb2 = if add {
                                    insert_model(
                                        cb,
                                        link,
                                        ValueModel {
                                            parent: "index"@,
                                            specified: false,
                                            backlinks: set![slug],
                                        },
                                    )
                                } else {
                                    cb
                                };
                                Ok(
                                    (
                                        st,
                                        children.push(
                                            ChildModel::Plain(local_link_html(env, sh, link, text)),
                                        ),
                                        refs2,
                                        cb2,
                                    ),
                                )
                            },
                        }
                    },
                }
            },
        }
    }
}

/// What the pieces of a section's content give, from the `i`-th on.
pub open spec fn compile_pieces(
    sh: Seq<SectionModel>,
    env: Environment,
    stack: Seq<Seq<char>>,
    level: nat,
    st: StateModel,
    slug: Seq<char>,
    ps: Seq<PieceModel>,
    i: int,
    children: Seq<ChildModel>,
    refs: Set<Seq<char>>,
    cb: Map<Seq<char>, ValueModel>,
) -> Result<
    (StateModel, Seq<ChildModel>, Set<Seq<char>>, Map<Seq<char>, ValueModel>),
    CompileErrorModel,
>
    decreases pending_count(sh, stack), level, 2nat, ps.len() - i,
{
    if i < 0 || i >= ps.len() {
        Ok((st, children, refs, cb))
    } else {
        match piece_step(sh, env, stack, level, st, slug, ps[i], children, refs, cb) {
            Err(e) => Err(e),
            Ok((st1, children1, refs1, cb1)) => compile_pieces(
                sh,
                env,
                stack,
                level,
                st1,
                slug,
                ps,
                i + 1,
                children1,
                refs1,
                cb1,
            ),
        }
    }
}

/// Compiling the metadata of section `slug` from the `i`-th entry on:
/// plain keys are copied, other values are compiled as content and their
/// HTML kept.
pub open spec fn compile_meta(
    sh: Seq<SectionModel>,
    env: Environment,
    stack: Seq<Seq<char>>,
    st: StateModel,
    slug: Seq<char>,
    ext: Seq<char>,
    meta: MetaModel,
    i: int,
    out: Seq<(Seq<char>, Seq<char>)>,
) -> Result<(StateModel, Seq<(Seq<char>, Seq<char>)>), CompileErrorModel>
    decreases pending_count(sh, stack), 2nat, 1nat, meta.len() - i,
{
    if i < 0 || i >= meta.len() {
        Ok((st, out))
    } else {
        let (key, value) = meta[i];
        if is_plain_key(key) {
            match value {
                ContentModel::Plain(v) => compile_meta(
                    sh,
                    env,
                    stack,
                    st,
                    slug,
                    ext,
                    meta,
                    i + 1,
                    insert_spec(out, key, v),
                ),
                ContentModel::Lazy(_) => Err(CompileErrorModel::NotPlain(key, slug)),
            }
        } else {
            let m = seq![("slug"@, ContentModel::Plain(slug)), ("ext"@, ContentModel::Plain(ext))];
            match compile_section(sh, env, stack, st, m, value, true) {
                Err(e) => Err(e),
                Ok(st1) => compile_meta(
                    sh,
                    env,
                    stack,
                    st1,
                    slug,
                    ext,
                    meta,
                    i + 1,
                    insert_spec(out, key, spanned(st1.compiled[slug].children)),
                ),
            }
        }
    }
}

/// `s` without `x`.
pub open spec fn remove_all(s: Seq<Seq<char>>, x: Seq<char>) -> Seq<Seq<char>>
    decreases s.len(),
{
    if s.len() == 0 {
        s
    } else if s.last() == x {
        remove_all(s.drop_last(), x)
    } else {
        remove_all(s.drop_last(), x).push(s.last())
    }
}

pub proof fn lemma_remove_all_len(s: Seq<Seq<char>>, x: Seq<char>)
    ensures
        remove_all(s, x).len() <= s.len(),
    decreases s.len(),
{
    if s.len() > 0 {
        lemma_remove_all_len(s.drop_last(), x);
    }
}

pub proof fn lemma_remove_all_shrinks(s: Seq<Seq<char>>, x: Seq<char>)
    requires
        s.contains(x),
    ensures
        remove_all(s, x).len() < s.len(),
    decreases s.len(),
{
    lemma_remove_all_len(s.drop_last(), x);
    if s.last() != x {
        let i = choose|i: int| 0 <= i < s.len() && s[i] == x;
        assert(s.drop_last()[i] == x);
        lemma_remove_all_shrinks(s.drop_last(), x);
    }
}

/// Compiling one parsed section (`for_metadata`: a metadata value compiled
/// as the content of its section, whose own metadata is only slug and
/// extension).
pub open spec fn compile_section(
    sh: Seq<SectionModel>,
    env: Environment,
    stack: Seq<Seq<char>>,
    st: StateModel,
    meta: MetaModel,
    content: ContentModel,
    for_metadata: bool,
) -> Result<StateModel, CompileErrorModel>
    decreases pending_count(sh, stack), if for_metadata {
        1nat
    } else {
        2nat
    }, 3nat, 0nat,
{
    match meta_text(meta, "slug"@) {
        None => Err(CompileErrorModel::MissingSlug),
        Some(slug) => match meta_text(meta, "ext"@) {
            None => Err(CompileErrorModel::MissingExt(slug)),
            Some(ext) => {
                let level: nat = if for_metadata {
                    1
                } else {
                    2
                };
                let r = match content {
                    ContentModel::Plain(h) => Ok(
                        (st, seq![ChildModel::Plain(h)], Set::empty(), Map::empty()),
                    ),
                    ContentModel::Lazy(ps) => compile_pieces(
                        sh,
                        env,
                        stack,
                        level,
                        st,
                        slug,
                        ps,
                        0,
                        Seq::empty(),
                        Set::empty(),
                        Map::empty(),
                    ),
                };
                match r {
                    Err(e) => Err(e),
                    Ok((st1, children, refs, cb)) => {
                        let cb1 = merge_maps(st1.callback, cb);
                        let cb2 = match meta_text(meta, "parent"@) {
                            Some(p) => insert_model(
                                cb1,
                                slug,
                                ValueModel { parent: p, specified: true, backlinks: Set::empty() },
                            ),
                            None => cb1,
                        };
                        let st2 = StateModel { callback: cb2, ..st1 };
                        let r2 = if for_metadata {
                            Ok((st2, seq![(("slug"@), slug), ("ext"@, ext)]))
                        } else {
                            compile_meta(sh, env, stack, st2, slug, ext, meta, 0, Seq::empty())
                        };
                        match r2 {
                            Err(e) => Err(e),
                            Ok((st3, out)) => Ok(
                                StateModel {
                                    compiled: st3.compiled.insert(
                                        slug,
                                        CompiledModel { meta: out, children, refs },
                                    ),
                                    residued: remove_all(st3.residued, slug),
                                    ..st3
                                },
                            ),
                        }
                    },
                }
            },
        },
    }
}


// ---------------------------------------------------------------------------
// What compiling keeps
// ---------------------------------------------------------------------------
/// `st2` keeps every compiled section of `st`, every section waiting in
/// `st` is still waiting or compiled in `st2`, and nothing new waits.
pub open spec fn grows(st: StateModel, st2: StateModel) -> bool {
    &&& forall|k: Seq<char>| #[trigger] st.compiled.contains_key(k) ==> st2.compiled.contains_key(k)
    &&& forall|k: Seq<char>|
        #[trigger] st.residued.contains(k) ==> st2.residued.contains(k)
            || st2.compiled.contains_key(k)
    &&& forall|k: Seq<char>| #[trigger] st2.residued.contains(k) ==> st.residued.contains(k)
}

proof fn lemma_grows_trans(a: StateModel, b: StateModel, c: StateModel)
    requires
        grows(a, b),
        grows(b, c),
    ensures
        grows(a, c),
{
    assert forall|k: Seq<char>| #[trigger] a.residued.contains(k) implies c.residued.contains(k)
        || c.compiled.contains_key(k) by {
        if b.residued.contains(k) {
            assert(c.residued.contains(k) || c.compiled.contains_key(k));
        } else {
            assert(b.compiled.contains_key(k));
        }
    }
}

proof fn lemma_remove_all_sub(s: Seq<Seq<char>>, x: Seq<char>, k: Seq<char>)
    requires
        remove_all(s, x).contains(k),
    ensures
        s.contains(k),
        k != x,
    decreases s.len(),
{
    let r = remove_all(s, x);
    let j = choose|j: int| 0 <= j < r.len() && r[j] == k;
    let r1 = remove_all(s.drop_last(), x);
    if s.last() == x {
        lemma_remove_all_sub(s.drop_last(), x, k);
        let i = choose|i: int| 0 <= i < s.drop_last().len() && s.drop_last()[i] == k;
        assert(s[i] == k);
    } else if j == r1.len() {
        assert(s[s.len() - 1] == k);
    } else {
        assert(r1[j] == k);
        lemma_remove_all_sub(s.drop_last(), x, k);
        let i = choose|i: int| 0 <= i < s.drop_last().len() && s.drop_last()[i] == k;
        assert(s[i] == k);
    }
}

proof fn lemma_remove_all_keeps(s: Seq<Seq<char>>, x: Seq<char>, k: Seq<char>)
    requires
        s.contains(k),
        k != x,
    ensures
        remove_all(s, x).contains(k),
    decreases s.len(),
{
    if s.last() == k {
        assert(remove_all(s, x) == remove_all(s.drop_last(), x).push(k));
        assert(remove_all(s, x)[remove_all(s.drop_last(), x).len() as int] == k);
    } else {
        let i = choose|i: int| 0 <= i < s.len() && s[i] == k;
        assert(s.drop_last()[i] == k);
        lemma_remove_all_keeps(s.drop_last(), x, k);
        let r = remove_all(s.drop_last(), x);
        let j = choose|j: int| 0 <= j < r.len() && r[j] == k;
        if s.last() != x {
            assert(r.push(s.last())[j] == k);
        }
    }
}

/// Every parsed section names itself: the `slug` in its metadata is the
/// slug it was parsed under.
pub open spec fn sections_named(sh: Seq<SectionModel>) -> bool {
    forall|i: int| 0 <= i < sh.len() ==> meta_text(#[trigger] sh[i].1, "slug"@) == Some(sh[i].0)
}

proof fn lemma_shallow_index_found(sh: Seq<SectionModel>, slug: Seq<char>, i: int, j: int)
    requires
        0 <= i <= j < sh.len(),
        sh[j].0 == slug,
    ensures
        shallow_index(sh, slug, i) is Some,
    decreases j - i,
{
    if sh[i].0 != slug {
        lemma_shallow_index_found(sh, slug, i + 1, j);
    }
}

/// Fetching a parsed section that is not being compiled compiles it.
proof fn lemma_fetch_compiles(
    sh: Seq<SectionModel>,
    env: Environment,
    stack: Seq<Seq<char>>,
    st: StateModel,
    slug: Seq<char>,
)
    requires
        sections_named(sh),
        shallow_keys(sh).contains(slug),
        !stack.contains(slug),
    ensures
        fetch(sh, env, stack, st, slug) matches Ok((st2, _)) ==> st2.compiled.contains_key(slug),
{
    if !st.compiled.contains_key(slug) {
        let ks = sh.map_values(|e: SectionModel| e.0);
        let i = choose|i: int| 0 <= i < ks.len() && ks[i] == slug;
        assert(sh[i].0 == slug);
        lemma_shallow_index_found(sh, slug, 0, i);
        lemma_shallow_index(sh, slug, 0);
        let j = shallow_index(sh, slug, 0)->0;
        assert(meta_text(sh[j].1, "slug"@) == Some(sh[j].0));
        lemma_key_of_index(sh, j);
        lemma_pending_decreases(sh, stack, slug);
        lemma_section_grows(sh, env, stack.push(slug), st, sh[j].1, sh[j].2, false);
    }
}

/// Every parsed section is waiting or compiled.
pub open spec fn all_covered(sh: Seq<SectionModel>, st: StateModel) -> bool {
    forall|k: Seq<char>|
        #[trigger] shallow_keys(sh).contains(k) ==> st.residued.contains(k)
            || st.compiled.contains_key(k)
}

/// Only parsed sections wait.
pub open spec fn waiting_parsed(sh: Seq<SectionModel>, st: StateModel) -> bool {
    forall|k: Seq<char>| #[trigger] st.residued.contains(k) ==> shallow_keys(sh).contains(k)
}

proof fn lemma_covered_grows(sh: Seq<SectionModel>, a: StateModel, b: StateModel)
    requires
        all_covered(sh, a),
        waiting_parsed(sh, a),
        grows(a, b),
    ensures
        all_covered(sh, b),
        waiting_parsed(sh, b),
{
    assert forall|k: Seq<char>| #[trigger] shallow_keys(sh).contains(k) implies b.residued.contains(k)
        || b.compiled.contains_key(k) by {
        if a.residued.contains(k) {
        } else {
            assert(a.compiled.contains_key(k));
        }
    }
}

proof fn lemma_fetch_grows(
    sh: Seq<SectionModel>,
    env: Environment,
    stack: Seq<Seq<char>>,
    st: StateModel,
    slug: Seq<char>,
)
    ensures
        fetch(sh, env, stack, st, slug) matches Ok((st2, _)) ==> grows(st, st2),
    decreases pending_count(sh, stack), 0nat, 0nat, 0nat,
{
    if !st.compiled.contains_key(slug) && !stack.contains(slug) {
        if let Some(j) = shallow_index(sh, slug, 0) {
            lemma_shallow_index(sh, slug, 0);
            lemma_key_of_index(sh, j);
            lemma_pending_decreases(sh, stack, slug);
            if 0 <= j < sh.len() {
                lemma_section_grows(sh, env, stack.push(slug), st, sh[j].1, sh[j].2, false);
            }
        }
    }
}

proof fn lemma_step_grows(
    sh: Seq<SectionModel>,
    env: Environment,
    stack: Seq<Seq<char>>,
    level: nat,
    st: StateModel,
    slug: Seq<char>,
    piece: PieceModel,
    children: Seq<ChildModel>,
    refs: Set<Seq<char>>,
    cb: Map<Seq<char>, ValueModel>,
)
    ensures
        piece_step(sh, env, stack, level, st, slug, piece, children, refs, cb) matches Ok(
            (st2, _, _, _),
        ) ==> grows(st, st2),
    decreases pending_count(sh, stack), level, 1nat, 0int,
{
    if level != 0 {
        if let PieceModel::Embed(url, _, _) = piece {
            lemma_fetch_grows(sh, env, stack, st, subsection_slug_spec(slug, url));
        }
    }
}

proof fn lemma_pieces_grow(
    sh: Seq<SectionModel>,
    env: Environment,
    stack: Seq<Seq<char>>,
    level: nat,
    st: StateModel,
    slug: Seq<char>,
    ps: Seq<PieceModel>,
    i: int,
    children: Seq<ChildModel>,
    refs: Set<Seq<char>>,
    cb: Map<Seq<char>, ValueModel>,
)
    ensures
        compile_pieces(sh, env, stack, level, st, slug, ps, i, children, refs, cb) matches Ok(
            (st2, _, _, _),
        ) ==> grows(st, st2),
    decreases pending_count(sh, stack), level, 2nat, ps.len() - i,
{
    if 0 <= i < ps.len() {
        lemma_step_grows(sh, env, stack, level, st, slug, ps[i], children, refs, cb);
        if let Ok((st1, children1, refs1, cb1)) = piece_step(
            sh,
            env,
            stack,
            level,
            st,
            slug,
            ps[i],
            children,
            refs,
            cb,
        ) {
            lemma_pieces_grow(sh, env, stack, level, st1, slug, ps, i + 1, children1, refs1, cb1);
            if let Ok((st2, _, _, _)) = compile_pieces(
                sh,
                env,
                stack,
                level,
                st1,
                slug,
                ps,
                i + 1,
                children1,
                refs1,
                cb1,
            ) {
                lemma_grows_trans(st, st1, st2);
            }
        }
    }
}

proof fn lemma_meta_grows(
    sh: Seq<SectionModel>,
    env: Environment,
    stack: Seq<Seq<char>>,
    st: StateModel,
    slug: Seq<char>,
    ext: Seq<char>,
    meta: MetaModel,
    i: int,
    out: Seq<(Seq<char>, Seq<char>)>,
)
    ensures
        compile_meta(sh, env, stack, st, slug, ext, meta, i, out) matches Ok((st2, _)) ==> grows(
            st,
            st2,
        ),
    decreases pending_count(sh, stack), 2nat, 1nat, meta.len() - i,
{
    if 0 <= i < meta.len() {
        let (key, value) = meta[i];
        if is_plain_key(key) {
            if let ContentModel::Plain(v) = value {
                lemma_meta_grows(sh, env, stack, st, slug, ext, meta, i + 1, insert_spec(out, key, v));
            }
        } else {
            let m = seq![("slug"@, ContentModel::Plain(slug)), ("ext"@, ContentModel::Plain(ext))];
            lemma_section_grows(sh, env, stack, st, m, value, true);
            if let Ok(st1) = compile_section(sh, env, stack, st, m, value, true) {
                let out1 = insert_spec(out, key, spanned(st1.compiled[slug].children));
                lemma_meta_grows(sh, env, stack, st1, slug, ext, meta, i + 1, out1);
                if let Ok((st2, _)) = compile_meta(sh, env, stack, st1, slug, ext, meta, i + 1, out1) {
                    lemma_grows_trans(st, st1, st2);
                }
            }
        }
    }
}

proof fn lemma_section_grows(
    sh: Seq<SectionModel>,
    env: Environment,
    stack: Seq<Seq<char>>,
    st: StateModel,
    meta: MetaModel,
    content: ContentModel,
    for_metadata: bool,
)
    ensures
        compile_section(sh, env, stack, st, meta, content, for_metadata) matches Ok(st2) ==> grows(
            st,
            st2,
        ) && (meta_text(meta, "slug"@) matches Some(s) && st2.compiled.contains_key(s)),
    decreases pending_count(sh, stack), if for_metadata {
        1nat
    } else {
        2nat
    }, 3nat, 0nat,
{
    if let Some(slug) = meta_text(meta, "slug"@) {
        if let Some(ext) = meta_text(meta, "ext"@) {
            let level: nat = if for_metadata {
                1
            } else {
                2
            };
            let r = match content {
                ContentModel::Plain(h) => Ok(
                    (st, seq![ChildModel::Plain(h)], Set::<Seq<char>>::empty(), Map::<Seq<char>, ValueModel>::empty()),
                ),
                ContentModel::Lazy(ps) => compile_pieces(
                    sh,
                    env,
                    stack,
                    level,
                    st,
                    slug,
                    ps,
                    0,
                    Seq::empty(),
                    Set::empty(),
                    Map::empty(),
                ),
            };
            if let ContentModel::Lazy(ps) = content {
                lemma_pieces_grow(
                    sh,
                    env,
                    stack,
                    level,
                    st,
                    slug,
                    ps,
                    0,
                    Seq::empty(),
                    Set::empty(),
                    Map::empty(),
                );
            }
            if let Ok((st1, children, refs, cb)) = r {
                let cb1 = merge_maps(st1.callback, cb);
                let cb2 = match meta_text(meta, "parent"@) {
                    Some(p) => insert_model(
                        cb1,
                        slug,
                        ValueModel { parent: p, specified: true, backlinks: Set::empty() },
                    ),
                    None => cb1,
                };
                let st2 = StateModel { callback: cb2, ..st1 };
                if !for_metadata {
                    lemma_meta_grows(sh, env, stack, st2, slug, ext, meta, 0, Seq::empty());
                }
                let r2 = if for_metadata {
                    Ok((st2, seq![(("slug"@), slug), ("ext"@, ext)]))
                } else {
                    compile_meta(sh, env, stack, st2, slug, ext, meta, 0, Seq::empty())
                };
                if let Ok((st3, out)) = r2 {
                    let fin = StateModel {
                        compiled: st3.compiled.insert(slug, CompiledModel { meta: out, children, refs }),
                        residued: remove_all(st3.residued, slug),
                        ..st3
                    };
                    assert(grows(st1, st2));
                    assert(grows(st2, st3));
                    assert(grows(st3, fin)) by {
                        assert forall|k: Seq<char>| #[trigger] st3.residued.contains(k) implies fin.residued.contains(k)
                            || fin.compiled.contains_key(k) by {
                            if k != slug {
                                lemma_remove_all_keeps(st3.residued, slug, k);
                            }
                        }
                        assert forall|k: Seq<char>| #[trigger] fin.residued.contains(k) implies st3.residued.contains(k) by {
                            lemma_remove_all_sub(st3.residued, slug, k);
                        }
                    }
                    lemma_grows_trans(st, st1, st2);
                    lemma_grows_trans(st, st2, st3);
                    lemma_grows_trans(st, st3, fin);
                    assert(compile_section(sh, env, stack, st, meta, content, for_metadata) == Ok::<StateModel, CompileErrorModel>(fin));
                }
            }
        }
    }
}

// ---------------------------------------------------------------------------
// Compiled sections in memory
// ---------------------------------------------------------------------------
/// A piece of a compiled section.
#[derive(Debug)]
pub enum SectionContent {
    Plain(String),
    Embed { slug: Slug, option: SectionOption, title: Option<String> },
}

impl SectionContent {
    pub open spec fn model(&self) -> ChildModel {
        match self {
            SectionContent::Plain(h) => ChildModel::Plain(h@),
            SectionContent::Embed { slug, option, title } => ChildModel::Embed(
                slug@,
                *option,
                crate::section::opt_str(*title),
            ),
        }
    }
}

pub open spec fn child_models(v: Seq<SectionContent>) -> Seq<ChildModel> {
    v.map_values(|c: SectionContent| c.model())
}

pub open spec fn text_pairs(v: Seq<(Seq<char>, String)>) -> Seq<(Seq<char>, Seq<char>)> {
    v.map_values(|e: (Seq<char>, String)| (e.0, e.1@))
}

/// A compiled section.
#[derive(Debug)]
pub struct Section {
    pub metadata: EntryMetaData,
    pub children: Vec<SectionContent>,
    /// The sections this one references; each occurs once.
    pub references: Vec<Slug>,
}

impl Section {
    pub open spec fn model(&self) -> CompiledModel {
        CompiledModel {
            meta: text_pairs(self.metadata.0@),
            children: child_models(self.children@),
            refs: slug_set(self.references@),
        }
    }

    /// The HTML of the text pieces, embeds left out.
    pub fn spanned(&self) -> (r: String)
        ensures
            r@ == spanned(child_models(self.children@)),
    {
        let ghost cs = child_models(self.children@);
        let mut out: Vec<char> = Vec::new();
        let mut i: usize = 0;
        while i < self.children.len()
            invariant
                i <= self.children@.len(),
                cs == child_models(self.children@),
                out@ == spanned(cs.take(i as int)),
            decreases self.children.len() - i,
        {
            assert(cs.take(i + 1).drop_last() =~= cs.take(i as int));
            match &self.children[i] {
                SectionContent::Plain(h) => {
                    let hv = chars_of(h.as_str());
                    push_all(&mut out, hv.as_slice());
                },
                SectionContent::Embed { .. } => {
                    assert(out@ =~= out@ + Seq::<char>::empty());
                },
            }
            i = i + 1;
        }
        assert(cs.take(i as int) =~= cs);
        string_of(out.as_slice())
    }
}

pub open spec fn compiled_map(s: Seq<(Seq<char>, Section)>) -> Map<Seq<char>, CompiledModel> {
    Map::new(|k: Seq<char>| lookup(s, k) is Some, |k: Seq<char>| lookup(s, k)->0.model())
}

/// The compiled sections, what is known of parents and backlinks, and the
/// sections not compiled yet.
#[derive(Debug)]
pub struct CompileState {
    pub compiled: OrderedMap<Section>,
    pub callback: Callback,
    pub residued: Vec<Slug>,
}

impl CompileState {
    pub open spec fn model(&self) -> StateModel {
        StateModel {
            compiled: compiled_map(self.compiled@),
            callback: self.callback@,
            residued: crate::anonymous::slug_views(self.residued@),
        }
    }
}

#[derive(Debug)]
pub enum CompileError {
    Cycle { chain: Vec<Slug> },
    MissingSection { slug: Slug, child: Slug },
    MissingSlug,
    MissingExt { section: String },
    NotPlain { key: String, section: String },
    InvalidBool { key: String, value: String },
}

impl CompileError {
    pub open spec fn model(&self) -> CompileErrorModel {
        match self {
            CompileError::Cycle { chain } => CompileErrorModel::Cycle(
                crate::anonymous::slug_views(chain@),
            ),
            CompileError::MissingSection { slug, child } => CompileErrorModel::MissingSection(
                slug@,
                child@,
            ),
            CompileError::MissingSlug => CompileErrorModel::MissingSlug,
            CompileError::MissingExt { section } => CompileErrorModel::MissingExt(section@),
            CompileError::NotPlain { key, section } => CompileErrorModel::NotPlain(key@, section@),
            CompileError::InvalidBool { key, value } => CompileErrorModel::InvalidBool(
                key@,
                value@,
            ),
        }
    }

    /// A sentence that says what went wrong.
    pub fn message(&self) -> (r: String)
        ensures
            r@ == compile_message_spec(self.model()),
    {
        let mut v: Vec<char> = Vec::new();
        match self {
            CompileError::Cycle { chain } => {
                push_str(&mut v, "cyclic embed detected: ");
                let ghost head = v@;
                let ghost parts = crate::anonymous::slug_views(chain@);
                let mut i: usize = 0;
                assert(parts.take(0) =~= Seq::<Seq<char>>::empty());
                while i < chain.len()
                    invariant
                        i <= chain@.len(),
                        parts == crate::anonymous::slug_views(chain@),
                        v@ == head + crate::references::join_with(parts.take(i as int), " -> "@),
                    decreases chain.len() - i,
                {
                    let ghost before = v@;
                    if i > 0 {
                        push_str(&mut v, " -> ");
                    }
                    push_str(&mut v, chain[i].as_str());
                    assert(parts.take(i + 1).drop_last() =~= parts.take(i as int));
                    assert(parts.take(i + 1).last() == chain@[i as int]@);
                    if i == 0 {
                        assert(crate::references::join_with(parts.take(1), " -> "@) == parts.take(1)[0]);
                    }
                    assert(v@ =~= head + crate::references::join_with(parts.take(i + 1), " -> "@));
                    i = i + 1;
                }
                assert(parts.take(i as int) =~= parts);
            },
            CompileError::MissingSection { slug, child } => {
                push_str(&mut v, "[");
                push_str(&mut v, slug.as_str());
                push_str(&mut v, "] attempting to fetch a non-existent [");
                push_str(&mut v, child.as_str());
                push_str(&mut v, "]");
            },
            CompileError::MissingSlug => {
                push_str(&mut v, "missing `slug` in section metadata");
            },
            CompileError::MissingExt { section } => {
                push_str(&mut v, "missing `ext` in metadata of `");
                push_str(&mut v, section.as_str());
                push_str(&mut v, "`");
            },
            CompileError::NotPlain { key, section } => {
                push_str(&mut v, "metadata field `");
                push_str(&mut v, key.as_str());
                push_str(&mut v, "` in `");
                push_str(&mut v, section.as_str());
                push_str(&mut v, "` is expected to be plain text");
            },
            CompileError::InvalidBool { key, value } => {
                push_str(&mut v, "bool value `");
                push_str(&mut v, value.as_str());
                push_str(&mut v, "` of `");
                push_str(&mut v, key.as_str());
                push_str(&mut v, "` is invalid. It must be either `true` or `false`.");
            },
        }
        assert(v@ =~= compile_message_spec(self.model()));
        string_of(v.as_slice())
    }
}

/// The sentence that says what went wrong.
pub open spec fn compile_message_spec(e: CompileErrorModel) -> Seq<char> {
    match e {
        CompileErrorModel::Cycle(chain) => "cyclic embed detected: "@ + crate::references::join_with(
            chain,
            " -> "@,
        ),
        CompileErrorModel::MissingSection(slug, child) => "["@ + slug
            + "] attempting to fetch a non-existent ["@ + child + "]"@,
        CompileErrorModel::MissingSlug => "missing `slug` in section metadata"@,
        CompileErrorModel::MissingExt(section) => "missing `ext` in metadata of `"@ + section
            + "`"@,
        CompileErrorModel::NotPlain(key, section) => "metadata field `"@ + key + "` in `"@
            + section + "` is expected to be plain text"@,
        CompileErrorModel::InvalidBool(key, value) => "bool value `"@ + value + "` of `"@ + key
            + "` is invalid. It must be either `true` or `false`."@,
    }
}

// ---------------------------------------------------------------------------
// Helpers over parsed metadata
// ---------------------------------------------------------------------------
pub proof fn lemma_meta_lookup_value(m: Seq<(Seq<char>, HTMLContent)>, k: Seq<char>)
    requires
        crate::ordered_map::unique_keys(m),
    ensures
        lookup(crate::typst_html::meta_model(m), k) == match lookup(m, k) {
            Some(v) => Some(v.model()),
            None => None,
        },
{
    let mm = crate::typst_html::meta_model(m);
    crate::typst_html::lemma_meta_lookup(m, k);
    if lookup(m, k) is Some {
        let i = choose|i: int| 0 <= i < m.len() && m[i].0 == k;
        crate::ordered_map::lemma_lookup_at(m, i);
        assert(mm[i].0 == k);
        let j = choose|j: int| 0 <= j < mm.len() && mm[j].0 == k;
        assert(m[j].0 == k);
        crate::ordered_map::lemma_lookup_at(m, j);
    }
}

fn meta_text_exec(m: &OrderedMap<HTMLContent>, k: &str) -> (r: Option<String>)
    ensures
        crate::section::opt_str(r) == meta_text(crate::typst_html::meta_model(m@), k@),
{
    let _ = m.len();
    proof {
        lemma_meta_lookup_value(m@, k@);
    }
    match m.get(k) {
        Some(HTMLContent::Plain(t)) => Some(owned(t.as_str())),
        _ => None,
    }
}

fn meta_flag_exec(m: &OrderedMap<HTMLContent>, k: &str) -> (r: Result<Option<bool>, CompileError>)
    ensures
        match meta_flag(crate::typst_html::meta_model(m@), k@) {
            Ok(f) => r == Ok::<Option<bool>, CompileError>(f),
            Err(e) => r matches Err(x) && x.model() == e,
        },
{
    match meta_text_exec(m, k) {
        None => Ok(None),
        Some(v) => {
            if str_eq(v.as_str(), "true") {
                Ok(Some(true))
            } else if str_eq(v.as_str(), "false") {
                Ok(Some(false))
            } else {
                Err(CompileError::InvalidBool { key: owned(k), value: v })
            }
        },
    }
}

fn find_shallow(sh: &Vec<(Slug, UnresolvedSection)>, slug: &Slug) -> (r: Option<usize>)
    ensures
        match shallow_index(section_views(sh@), slug@, 0) {
            Some(j) => r matches Some(k) && k == j && j < sh@.len(),
            None => r is None,
        },
{
    let ghost shm = section_views(sh@);
    let mut i: usize = 0;
    while i < sh.len()
        invariant
            i <= sh@.len(),
            shm == section_views(sh@),
            shallow_index(shm, slug@, 0) == shallow_index(shm, slug@, i as int),
        decreases sh.len() - i,
    {
        assert(shm[i as int].0 == sh@[i as int].0@);
        if sh[i].0.same(slug) {
            return Some(i);
        }
        i = i + 1;
    }
    None
}

fn is_reference_exec(sh: &Vec<(Slug, UnresolvedSection)>, slug: &Slug, asref_default: bool) -> (r: Result<bool, CompileError>)
    ensures
        match is_reference(section_views(sh@), slug@, asref_default) {
            Ok(b) => r == Ok::<bool, CompileError>(b),
            Err(e) => r matches Err(x) && x.model() == e,
        },
{
    match find_shallow(sh, slug) {
        None => Ok(false),
        Some(j) => {
            let m = &sh[j].1.metadata.0;
            assert(section_views(sh@)[j as int].1 == crate::typst_html::meta_model(m@));
            let f = match meta_flag_exec(m, "asref") {
                Ok(f) => f,
                Err(e) => {
                    return Err(e);
                },
            };
            let by_flag = match f {
                Some(b) => b,
                None => asref_default,
            };
            let taxon = match meta_text_exec(m, "data-taxon") {
                Some(t) => t,
                None => {
                    proof {
                        reveal_strlit("");
                        assert(""@ =~= Seq::<char>::empty());
                    }
                    owned("")
                },
            };
            let tv = chars_of(taxon.as_str());
            let lower = crate::text::ascii_lowercase(tv.as_slice());
            let by_taxon = crate::text::eq_str(lower.as_slice(), "reference");
            proof {
                reveal_strlit("");
            }
            Ok(by_flag || by_taxon)
        },
    }
}

fn backlinks_enabled_exec(sh: &Vec<(Slug, UnresolvedSection)>, slug: &Slug) -> (r: Result<bool, CompileError>)
    ensures
        match backlinks_enabled(section_views(sh@), slug@) {
            Ok(b) => r == Ok::<bool, CompileError>(b),
            Err(e) => r matches Err(x) && x.model() == e,
        },
{
    match find_shallow(sh, slug) {
        None => Ok(true),
        Some(j) => match meta_flag_exec(&sh[j].1.metadata.0, "backlinks") {
            Ok(Some(b)) => Ok(b),
            Ok(None) => Ok(true),
            Err(e) => Err(e),
        },
    }
}

fn is_backlink_exec(sh: &Vec<(Slug, UnresolvedSection)>, slug: &Slug) -> (r: Result<bool, CompileError>)
    ensures
        match is_backlink(section_views(sh@), slug@) {
            Ok(b) => r == Ok::<bool, CompileError>(b),
            Err(e) => r matches Err(x) && x.model() == e,
        },
{
    match find_shallow(sh, slug) {
        None => Ok(false),
        Some(j) => match meta_flag_exec(&sh[j].1.metadata.0, "asback") {
            Ok(Some(b)) => Ok(b),
            Ok(None) => Ok(true),
            Err(e) => Err(e),
        },
    }
}

fn article_title_exec(sh: &Vec<(Slug, UnresolvedSection)>, slug: &Slug) -> (r: String)
    ensures
        r@ == article_title(section_views(sh@), slug@),
{
    match find_shallow(sh, slug) {
        None => {
            proof {
                reveal_strlit("");
            }
            owned("")
        },
        Some(j) => match meta_text_exec(&sh[j].1.metadata.0, "title") {
            Some(t) => t,
            None => {
                proof {
                    reveal_strlit("");
                }
                owned("")
            },
        },
    }
}

fn local_link_exec(env: &Environment, sh: &Vec<(Slug, UnresolvedSection)>, link: &Slug, text: &Option<String>) -> (r: String)
    ensures
        r@ == local_link_html(*env, section_views(sh@), link@, crate::section::opt_str(*text)),
{
    let article = article_title_exec(sh, link);
    let page = match find_shallow(sh, link) {
        None => {
            proof {
                reveal_strlit("");
            }
            owned("")
        },
        Some(j) => match meta_text_exec(&sh[j].1.metadata.0, "page-title") {
            Some(t) => t,
            None => owned(article.as_str()),
        },
    };
    let mut title = chars_of(page.as_str());
    push_str(&mut title, " [");
    push_str(&mut title, link.as_str());
    push_str(&mut title, "]");
    let title = string_of(title.as_slice());
    let shown = match text {
        Some(t) => owned(t.as_str()),
        None => article,
    };
    let url = full_html_url(env, link);
    html_link(url.as_str(), title.as_str(), shown.as_str(), "local")
}


// ---------------------------------------------------------------------------
// The compilation
// ---------------------------------------------------------------------------
fn dup_slugs(v: &Vec<Slug>) -> (r: Vec<Slug>)
    ensures
        crate::anonymous::slug_views(r@) == crate::anonymous::slug_views(v@),
        slug_set(r@) == slug_set(v@),
{
    let mut r: Vec<Slug> = Vec::new();
    let mut i: usize = 0;
    while i < v.len()
        invariant
            i <= v@.len(),
            crate::anonymous::slug_views(r@) == crate::anonymous::slug_views(v@.take(i as int)),
        decreases v.len() - i,
    {
        let ghost r0 = crate::anonymous::slug_views(r@);
        let d = v[i].duplicate();
        r.push(d);
        assert(v@.take(i + 1) =~= v@.take(i as int).push(v@[i as int]));
        assert(crate::anonymous::slug_views(v@.take(i + 1)) =~= crate::anonymous::slug_views(
            v@.take(i as int),
        ).push(v@[i as int]@));
        assert(crate::anonymous::slug_views(r@) =~= r0.push(d@));
        i = i + 1;
    }
    assert(v@.take(i as int) =~= v@);
    proof {
        assert forall|x: Seq<char>| slug_set(r@).contains(x) <==> slug_set(v@).contains(x) by {
            if slug_set(r@).contains(x) {
                let k = choose|k: int| 0 <= k < r@.len() && #[trigger] r@[k]@ == x;
                assert(crate::anonymous::slug_views(r@)[k] == x);
                assert(v@[k]@ == x);
            }
            if slug_set(v@).contains(x) {
                let k = choose|k: int| 0 <= k < v@.len() && #[trigger] v@[k]@ == x;
                assert(crate::anonymous::slug_views(v@)[k] == x);
                assert(r@[k]@ == x);
            }
        }
        assert(slug_set(r@) =~= slug_set(v@));
    }
    r
}

fn insert_slug(v: &mut Vec<Slug>, s: &Slug)
    ensures
        slug_set(final(v)@) == slug_set(old(v)@).insert(s@),
{
    let one = vec![s.duplicate()];
    proof {
        assert forall|x: Seq<char>| slug_set(one@).contains(x) <==> x == s@ by {
            if x == s@ {
                assert(one@[0]@ == x);
            }
        }
        assert(slug_set(one@) =~= set![s@]);
    }
    crate::callback::union_backlinks(v, one);
    assert(slug_set(old(v)@).union(set![s@]) =~= slug_set(old(v)@).insert(s@));
}

fn remove_slug(v: &mut Vec<Slug>, s: &Slug)
    ensures
        crate::anonymous::slug_views(final(v)@) == remove_all(crate::anonymous::slug_views(old(v)@), s@),
        final(v)@.len() <= old(v)@.len(),
{
    let ghost vs = crate::anonymous::slug_views(v@);
    let mut out: Vec<Slug> = Vec::new();
    let mut i: usize = 0;
    while i < v.len()
        invariant
            i <= v@.len(),
            vs == crate::anonymous::slug_views(v@),
            crate::anonymous::slug_views(out@) == remove_all(vs.take(i as int), s@),
        decreases v.len() - i,
    {
        assert(vs.take(i + 1).drop_last() =~= vs.take(i as int));
        assert(vs.take(i + 1).last() == v@[i as int]@);
        if !v[i].same(s) {
            let ghost o0 = crate::anonymous::slug_views(out@);
            out.push(v[i].duplicate());
            assert(crate::anonymous::slug_views(out@) =~= o0.push(v@[i as int]@));
        }
        i = i + 1;
    }
    assert(vs.take(i as int) =~= vs);
    proof {
        lemma_remove_all_len(vs, s@);
    }
    *v = out;
}

fn contains_slug(v: &Vec<Slug>, s: &Slug) -> (r: bool)
    ensures
        r == crate::anonymous::slug_views(v@).contains(s@),
{
    let mut i: usize = 0;
    while i < v.len()
        invariant
            i <= v@.len(),
            forall|j: int| 0 <= j < i ==> v@[j]@ != s@,
        decreases v.len() - i,
    {
        if v[i].same(s) {
            assert(crate::anonymous::slug_views(v@)[i as int] == s@);
            return true;
        }
        i = i + 1;
    }
    proof {
        if crate::anonymous::slug_views(v@).contains(s@) {
            let j = choose|j: int| 0 <= j < v@.len() && crate::anonymous::slug_views(v@)[j] == s@;
            assert(v@[j]@ == s@);
        }
    }
    false
}

pub proof fn lemma_compiled_insert(s: Seq<(Seq<char>, Section)>, k: Seq<char>, v: Section)
    requires
        crate::ordered_map::unique_keys(s),
    ensures
        compiled_map(insert_spec(s, k, v)) == compiled_map(s).insert(k, v.model()),
{
    let t = insert_spec(s, k, v);
    crate::ordered_map::law_get_after_insert(s, k, v);
    assert forall|x: Seq<char>| x != k implies lookup(t, x) == lookup(s, x) by {
        crate::ordered_map::law_insert_keeps_others(s, k, v, x);
    }
    assert(compiled_map(t) =~= compiled_map(s).insert(k, v.model()));
}

pub proof fn lemma_text_insert(m: Seq<(Seq<char>, String)>, k: Seq<char>, v: String)
    requires
        crate::ordered_map::unique_keys(m),
    ensures
        text_pairs(insert_spec(m, k, v)) == insert_spec(text_pairs(m), k, v@),
{
    let mm = text_pairs(m);
    match crate::ordered_map::index_of_key(m, k) {
        Some(i) => {
            assert(m[i].0 == k);
            assert(mm[i].0 == k);
            let j = choose|j: int| 0 <= j < mm.len() && mm[j].0 == k;
            assert(mm[j].0 == m[j].0);
            assert(crate::ordered_map::index_of_key(mm, k) == Some(i));
            assert(text_pairs(m.update(i, (k, v))) =~= mm.update(i, (k, v@)));
        },
        None => {
            assert(forall|j: int| 0 <= j < mm.len() ==> mm[j].0 == m[j].0);
            assert(crate::ordered_map::index_of_key(mm, k) is None);
            assert(text_pairs(m.push((k, v))) =~= mm.push((k, v@)));
        },
    }
}

fn update_text(m: &mut EntryMetaData, k: String, v: String)
    ensures
        text_pairs(final(m).0@) == insert_spec(text_pairs(old(m).0@), k@, v@),
{
    let _ = m.0.len();
    proof {
        lemma_text_insert(m.0@, k@, v);
    }
    m.update(k, v);
}

fn plain_meta(slug: &String, ext: &String) -> (r: OrderedMap<HTMLContent>)
    ensures
        crate::typst_html::meta_model(r@) == seq![
            ("slug"@, ContentModel::Plain(slug@)),
            ("ext"@, ContentModel::Plain(ext@)),
        ],
{
    let mut m: OrderedMap<HTMLContent> = OrderedMap::new();
    assert(crate::typst_html::meta_model(m@) =~= Seq::<(Seq<char>, ContentModel)>::empty());
    proof {
        reveal_strlit("slug");
        reveal_strlit("ext");
        assert("slug"@.len() == 4);
        assert("ext"@.len() == 3);
    }
    let ghost e: MetaModel = Seq::empty();
    m.insert(owned("slug"), HTMLContent::Plain(owned(slug.as_str())));
    assert(crate::typst_html::meta_model(m@) =~= e.push(("slug"@, ContentModel::Plain(slug@))));
    let ghost m1 = e.push(("slug"@, ContentModel::Plain(slug@)));
    let _ = m.len();
    m.insert(owned("ext"), HTMLContent::Plain(owned(ext.as_str())));
    proof {
        assert(m1[0].0 != "ext"@);
        assert(crate::ordered_map::index_of_key(m1, "ext"@) is None);
    }
    assert(crate::typst_html::meta_model(m@) =~= m1.push(("ext"@, ContentModel::Plain(ext@))));
    m
}

fn plain_entry(slug: &String, ext: &String) -> (r: EntryMetaData)
    ensures
        text_pairs(r.0@) == seq![("slug"@, slug@), ("ext"@, ext@)],
{
    let mut m = EntryMetaData::new();
    assert(text_pairs(m.0@) =~= Seq::<(Seq<char>, Seq<char>)>::empty());
    proof {
        reveal_strlit("slug");
        reveal_strlit("ext");
        assert("slug"@.len() == 4);
        assert("ext"@.len() == 3);
    }
    update_text(&mut m, owned("slug"), owned(slug.as_str()));
    let ghost e: Seq<(Seq<char>, Seq<char>)> = Seq::empty();
    let ghost m1 = e.push(("slug"@, slug@));
    assert(text_pairs(m.0@) =~= m1);
    update_text(&mut m, owned("ext"), owned(ext.as_str()));
    proof {
        assert(m1[0].0 != "ext"@);
        assert(crate::ordered_map::index_of_key(m1, "ext"@) is None);
    }
    assert(text_pairs(m.0@) =~= m1.push(("ext"@, ext@)));
    m
}

impl CompileState {
    /// Nothing compiled, nothing known; the given sections still to compile.
    pub fn new(residued: Vec<Slug>) -> (r: CompileState)
        ensures
            r.model() == (StateModel {
                compiled: Map::empty(),
                callback: Map::empty(),
                residued: crate::anonymous::slug_views(residued@),
            }),
    {
        let r = CompileState { compiled: OrderedMap::new(), callback: Callback::new(), residued };
        assert(compiled_map(r.compiled@) =~= Map::<Seq<char>, CompiledModel>::empty());
        r
    }

    /// The compiled section `slug`, compiling it first when needed.
    fn fetch_section(
        &mut self,
        sh: &Vec<(Slug, UnresolvedSection)>,
        env: &Environment,
        stack: &mut Vec<Slug>,
        slug: &Slug,
    ) -> (r: Result<bool, CompileError>)
        ensures
            crate::anonymous::slug_views(final(stack)@) == crate::anonymous::slug_views(old(stack)@),
            final(self).residued@.len() <= old(self).residued@.len(),
            match fetch(
                section_views(sh@),
                *env,
                crate::anonymous::slug_views(old(stack)@),
                old(self).model(),
                slug@,
            ) {
                Ok((st, found)) => r == Ok::<bool, CompileError>(found) && final(self).model()
                    == st,
                Err(e) => r matches Err(x) && x.model() == e,
            },
        decreases pending_count(section_views(sh@), crate::anonymous::slug_views(stack@)), 0nat,
            0nat,
    {
        let ghost shm = section_views(sh@);
        if self.compiled.contains_key(slug.as_str()) {
            return Ok(true);
        }
        if contains_slug(stack, slug) {
            let mut chain = dup_slugs(stack);
            let ghost c0 = crate::anonymous::slug_views(chain@);
            chain.push(slug.duplicate());
            assert(crate::anonymous::slug_views(chain@) =~= c0.push(slug@));
            return Err(CompileError::Cycle { chain });
        }
        match find_shallow(sh, slug) {
            None => Ok(false),
            Some(j) => {
                proof {
                    lemma_shallow_index(shm, slug@, 0);
                    lemma_key_of_index(shm, j as int);
                    lemma_pending_decreases(shm, crate::anonymous::slug_views(stack@), slug@);
                }
                let ghost s0 = crate::anonymous::slug_views(stack@);
                stack.push(slug.duplicate());
                assert(crate::anonymous::slug_views(stack@) =~= s0.push(slug@));
                assert(shm[j as int].1 == crate::typst_html::meta_model(sh@[j as int].1.metadata.0@));
                assert(shm[j as int].2 == sh@[j as int].1.content.model());
                let r = self.compile_unresolved(
                    sh,
                    env,
                    stack,
                    &sh[j].1.metadata.0,
                    &sh[j].1.content,
                    false,
                );
                let ghost st1 = stack@;
                let _ = stack.pop();
                assert(stack@ =~= st1.drop_last());
                assert(crate::anonymous::slug_views(st1.drop_last()) =~= crate::anonymous::slug_views(
                    st1,
                ).drop_last());
                assert(crate::anonymous::slug_views(stack@) =~= s0);
                match r {
                    Err(e) => Err(e),
                    Ok(()) => Ok(self.compiled.contains_key(slug.as_str())),
                }
            },
        }
    }

    /// One piece of a section's content.
    fn piece_exec(
        &mut self,
        sh: &Vec<(Slug, UnresolvedSection)>,
        env: &Environment,
        stack: &mut Vec<Slug>,
        level: Ghost<nat>,
        slug: &Slug,
        piece: &LazyContent,
        children: &mut Vec<SectionContent>,
        refs: &mut Vec<Slug>,
        local: &mut Callback,
    ) -> (r: Result<(), CompileError>)
        requires
            level@ >= 1,
        ensures
            crate::anonymous::slug_views(final(stack)@) == crate::anonymous::slug_views(old(stack)@),
            final(self).residued@.len() <= old(self).residued@.len(),
            match piece_step(
                section_views(sh@),
                *env,
                crate::anonymous::slug_views(old(stack)@),
                level@,
                old(self).model(),
                slug@,
                piece.model(),
                child_models(old(children)@),
                slug_set(old(refs)@),
                old(local)@,
            ) {
                Ok((st, cs, rs, cb)) => r is Ok && final(self).model() == st && child_models(
                    final(children)@,
                ) == cs && slug_set(final(refs)@) == rs && final(local)@ == cb,
                Err(e) => r matches Err(x) && x.model() == e,
            },
        decreases pending_count(section_views(sh@), crate::anonymous::slug_views(stack@)),
            level@, 1nat,
    {
        match piece {
            LazyContent::Plain(h) => {
                let ghost c0 = child_models(children@);
                children.push(SectionContent::Plain(owned(h.as_str())));
                assert(child_models(children@) =~= c0.push(ChildModel::Plain(h@)));
                Ok(())
            },
            LazyContent::Embed(e) => {
                let child = subsection_slug(slug, e.url.as_str());
                let found = match self.fetch_section(sh, env, stack, &child) {
                    Ok(f) => f,
                    Err(err) => {
                        return Err(err);
                    },
                };
                if !found {
                    return Err(CompileError::MissingSection { slug: slug.duplicate(), child });
                }
                if e.option.details_open {
                    let child_refs = match self.compiled.get(child.as_str()) {
                        Some(sec) => dup_slugs(&sec.references),
                        None => Vec::new(),
                    };
                    crate::callback::union_backlinks(refs, child_refs);
                }
                let v = CallbackValue {
                    parent: slug.duplicate(),
                    is_parent_specified: false,
                    backlinks: Vec::new(),
                };
                assert(slug_set(v.backlinks@) =~= Set::<Seq<char>>::empty());
                local.record(child.duplicate(), v);
                let ghost c0 = child_models(children@);
                let title = match &e.title {
                    Some(t) => Some(owned(t.as_str())),
                    None => None,
                };
                children.push(SectionContent::Embed { slug: child, option: e.option, title });
                assert(child_models(children@) =~= c0.push(children@.last().model()));
                Ok(())
            },
            LazyContent::Local(l) => {
                let link = subsection_slug(slug, l.url.as_str());
                let differs = !link.same(slug);
                if differs {
                    match is_reference_exec(sh, &link, env.config.build.asref) {
                        Err(err) => {
                            return Err(err);
                        },
                        Ok(true) => {
                            insert_slug(refs, &link);
                        },
                        Ok(false) => {},
                    }
                }
                let add = if differs {
                    match backlinks_enabled_exec(sh, &link) {
                        Err(err) => {
                            return Err(err);
                        },
                        Ok(false) => false,
                        Ok(true) => match is_backlink_exec(sh, slug) {
                            Err(err) => {
                                return Err(err);
                            },
                            Ok(b) => b,
                        },
                    }
                } else {
                    false
                };
                if add {
                    let bl = vec![slug.duplicate()];
                    proof {
                        assert forall|x: Seq<char>| slug_set(bl@).contains(x) <==> x == slug@ by {
                            if x == slug@ {
                                assert(bl@[0]@ == x);
                            }
                        }
                        assert(slug_set(bl@) =~= set![slug@]);
                        reveal_strlit("index");
                    }
                    let v = CallbackValue {
                        parent: Slug::new("index"),
                        is_parent_specified: false,
                        backlinks: bl,
                    };
                    local.record(link.duplicate(), v);
                }
                let html = local_link_exec(env, sh, &link, &l.text);
                let ghost c0 = child_models(children@);
                children.push(SectionContent::Plain(html));
                assert(child_models(children@) =~= c0.push(children@.last().model()));
                Ok(())
            },
        }
    }

    /// Compiles one parsed section: its content, its parent, its metadata.
    fn compile_unresolved(
        &mut self,
        sh: &Vec<(Slug, UnresolvedSection)>,
        env: &Environment,
        stack: &mut Vec<Slug>,
        meta: &OrderedMap<HTMLContent>,
        content: &HTMLContent,
        for_metadata: bool,
    ) -> (r: Result<(), CompileError>)
        ensures
            crate::anonymous::slug_views(final(stack)@) == crate::anonymous::slug_views(old(stack)@),
            final(self).residued@.len() <= old(self).residued@.len(),
            match compile_section(
                section_views(sh@),
                *env,
                crate::anonymous::slug_views(old(stack)@),
                old(self).model(),
                crate::typst_html::meta_model(meta@),
                content.model(),
                for_metadata,
            ) {
                Ok(st) => r is Ok && final(self).model() == st,
                Err(e) => r matches Err(x) && x.model() == e,
            },
        decreases pending_count(section_views(sh@), crate::anonymous::slug_views(stack@)),
            if for_metadata {
                1nat
            } else {
                2nat
            }, 2nat,
    {
        let ghost shm = section_views(sh@);
        let ghost stackv = crate::anonymous::slug_views(stack@);
        let ghost level: nat = if for_metadata {
            1
        } else {
            2
        };
        let ghost len0 = self.residued@.len();
        let slug_s = match meta_text_exec(meta, "slug") {
            None => {
                return Err(CompileError::MissingSlug);
            },
            Some(s) => s,
        };
        let ext = match meta_text_exec(meta, "ext") {
            None => {
                return Err(CompileError::MissingExt { section: slug_s });
            },
            Some(e) => e,
        };
        let slug = Slug::new(slug_s.as_str());
        let mut children: Vec<SectionContent> = Vec::new();
        let mut refs: Vec<Slug> = Vec::new();
        let mut local = Callback::new();
        assert(child_models(children@) =~= Seq::<ChildModel>::empty());
        assert(slug_set(refs@) =~= Set::<Seq<char>>::empty());
        match content {
            HTMLContent::Plain(h) => {
                children.push(SectionContent::Plain(owned(h.as_str())));
                assert(child_models(children@) =~= seq![ChildModel::Plain(h@)]);
            },
            HTMLContent::Lazy(ps) => {
                let ghost psm = crate::section::piece_models(ps@);
                let ghost goal = compile_pieces(
                    shm,
                    *env,
                    stackv,
                    level,
                    self.model(),
                    slug@,
                    psm,
                    0,
                    Seq::empty(),
                    Set::empty(),
                    Map::empty(),
                );
                let mut i: usize = 0;
                while i < ps.len()
                    invariant
                        i <= ps@.len(),
                        psm == crate::section::piece_models(ps@),
                        shm == section_views(sh@),
                        level >= 1,
                        level == (if for_metadata {
                            1nat
                        } else {
                            2nat
                        }),
                        stackv == crate::anonymous::slug_views(stack@),
                        stackv == crate::anonymous::slug_views(old(stack)@),
                        self.residued@.len() <= len0,
                        len0 == old(self).residued@.len(),
                        slug@ == slug_s@,
                        meta_text(crate::typst_html::meta_model(meta@), "slug"@) == Some(slug_s@),
                        meta_text(crate::typst_html::meta_model(meta@), "ext"@) == Some(ext@),
                        content.model() == ContentModel::Lazy(psm),
                        goal == compile_pieces(
                            shm,
                            *env,
                            stackv,
                            level,
                            old(self).model(),
                            slug@,
                            psm,
                            0,
                            Seq::empty(),
                            Set::empty(),
                            Map::empty(),
                        ),
                        goal == compile_pieces(
                            shm,
                            *env,
                            stackv,
                            level,
                            self.model(),
                            slug@,
                            psm,
                            i as int,
                            child_models(children@),
                            slug_set(refs@),
                            local@,
                        ),
                    decreases ps.len() - i,
                {
                    assert(psm[i as int] == ps@[i as int].model());
                    match self.piece_exec(
                        sh,
                        env,
                        stack,
                        Ghost(level),
                        &slug,
                        &ps[i],
                        &mut children,
                        &mut refs,
                        &mut local,
                    ) {
                        Ok(()) => {},
                        Err(e) => {
                            return Err(e);
                        },
                    }
                    i = i + 1;
                }
            },
        }
        self.callback.absorb(local);
        match meta_text_exec(meta, "parent") {
            Some(p) => {
                let v = CallbackValue {
                    parent: Slug::new(p.as_str()),
                    is_parent_specified: true,
                    backlinks: Vec::new(),
                };
                assert(slug_set(v.backlinks@) =~= Set::<Seq<char>>::empty());
                self.callback.record(slug.duplicate(), v);
            },
            None => {},
        }
        let out = if for_metadata {
            plain_entry(&slug_s, &ext)
        } else {
            match self.compile_metadata(sh, env, stack, &slug, &slug_s, &ext, meta) {
                Ok(out) => out,
                Err(e) => {
                    return Err(e);
                },
            }
        };
        let section = Section { metadata: out, children, references: refs };
        let _ = self.compiled.len();
        proof {
            lemma_compiled_insert(self.compiled@, slug@, section);
        }
        self.compiled.insert(owned(slug_s.as_str()), section);
        remove_slug(&mut self.residued, &slug);
        Ok(())
    }

    /// Compiles the metadata of section `slug`.
    fn compile_metadata(
        &mut self,
        sh: &Vec<(Slug, UnresolvedSection)>,
        env: &Environment,
        stack: &mut Vec<Slug>,
        slug: &Slug,
        slug_s: &String,
        ext: &String,
        meta: &OrderedMap<HTMLContent>,
    ) -> (r: Result<EntryMetaData, CompileError>)
        requires
            slug@ == slug_s@,
        ensures
            crate::anonymous::slug_views(final(stack)@) == crate::anonymous::slug_views(old(stack)@),
            final(self).residued@.len() <= old(self).residued@.len(),
            match compile_meta(
                section_views(sh@),
                *env,
                crate::anonymous::slug_views(old(stack)@),
                old(self).model(),
                slug@,
                ext@,
                crate::typst_html::meta_model(meta@),
                0,
                Seq::empty(),
            ) {
                Ok((st, out)) => r matches Ok(m) && final(self).model() == st && text_pairs(m.0@)
                    == out,
                Err(e) => r matches Err(x) && x.model() == e,
            },
        decreases pending_count(section_views(sh@), crate::anonymous::slug_views(stack@)), 2nat,
            1nat,
    {
        let ghost shm = section_views(sh@);
        let ghost stackv = crate::anonymous::slug_views(stack@);
        let ghost mm = crate::typst_html::meta_model(meta@);
        let ghost len0 = self.residued@.len();
        let _ = meta.len();
        let keys = meta.keys();
        assert(keys@.len() == crate::ordered_map::string_views(keys@).len());
        assert(keys@.len() == meta@.len());
        let mut out = EntryMetaData::new();
        assert(text_pairs(out.0@) =~= Seq::<(Seq<char>, Seq<char>)>::empty());
        let mut i: usize = 0;
        while i < keys.len()
            invariant
                i <= keys@.len(),
                keys@.len() == meta@.len(),
                crate::ordered_map::unique_keys(meta@),
                stackv == crate::anonymous::slug_views(old(stack)@),
                crate::ordered_map::string_views(keys@) == crate::ordered_map::keys_of(meta@),
                shm == section_views(sh@),
                stackv == crate::anonymous::slug_views(stack@),
                mm == crate::typst_html::meta_model(meta@),
                slug@ == slug_s@,
                self.residued@.len() <= len0,
                len0 == old(self).residued@.len(),
                compile_meta(shm, *env, stackv, old(self).model(), slug@, ext@, mm, 0, Seq::empty())
                    == compile_meta(shm, *env, stackv, self.model(), slug@, ext@, mm, i as int, text_pairs(out.0@)),
            decreases keys.len() - i,
        {
            let key = &keys[i];
            assert(crate::ordered_map::string_views(keys@)[i as int] == key@);
            assert(crate::ordered_map::keys_of(meta@)[i as int] == meta@[i as int].0);
            assert(key@ == meta@[i as int].0);
            proof {
                crate::ordered_map::lemma_lookup_at(meta@, i as int);
            }
            let value = match meta.get(key.as_str()) {
                Some(v) => v,
                None => {
                    return Err(CompileError::MissingSlug);
                },
            };
            assert(mm[i as int] == (key@, value.model()));
            let ghost st_before = self.model();
            let ghost out_before = text_pairs(out.0@);
            if crate::entry::is_plain_metadata(key.as_str()) {
                match value {
                    HTMLContent::Plain(v) => {
                        update_text(&mut out, owned(key.as_str()), owned(v.as_str()));
                    },
                    HTMLContent::Lazy(_) => {
                        return Err(
                            CompileError::NotPlain {
                                key: owned(key.as_str()),
                                section: owned(slug_s.as_str()),
                            },
                        );
                    },
                }
            } else {
                let m2 = plain_meta(slug_s, ext);
                proof {
                    let pm = crate::typst_html::meta_model(m2@);
                    reveal_strlit("slug");
                    reveal_strlit("ext");
                    assert("slug"@.len() == 4);
                    assert("ext"@.len() == 3);
                    assert(crate::ordered_map::unique_keys(pm));
                    crate::ordered_map::lemma_lookup_at(pm, 0);
                    crate::ordered_map::lemma_lookup_at(pm, 1);
                    assert(meta_text(pm, "slug"@) == Some(slug@));
                    assert(meta_text(pm, "ext"@) == Some(ext@));
                }
                match self.compile_unresolved(sh, env, stack, &m2, value, true) {
                    Ok(()) => {},
                    Err(e) => {
                        return Err(e);
                    },
                }
                let html = match self.compiled.get(slug_s.as_str()) {
                    Some(sec) => sec.spanned(),
                    None => owned(""),
                };
                update_text(&mut out, owned(key.as_str()), html);
                assert(self.model().compiled.contains_key(slug@));
                assert(compile_meta(shm, *env, stackv, st_before, slug@, ext@, mm, i as int, out_before)
                    == compile_meta(shm, *env, stackv, self.model(), slug@, ext@, mm, i + 1, text_pairs(out.0@)));
            }
            i = i + 1;
        }
        Ok(out)
    }
}


/// The position of the least slug (in the order of `str`; the first of
/// equals).
pub open spec fn min_index(s: Seq<Seq<char>>) -> int
    decreases s.len(),
{
    if s.len() <= 1 {
        0
    } else {
        let k = min_index(s.drop_last());
        if seq_lt(s.last(), s.drop_last()[k]) {
            s.len() - 1
        } else {
            k
        }
    }
}

pub proof fn lemma_min_index(s: Seq<Seq<char>>)
    requires
        s.len() > 0,
    ensures
        0 <= min_index(s) < s.len(),
    decreases s.len(),
{
    if s.len() > 1 {
        lemma_min_index(s.drop_last());
    }
}

/// Compiling the sections that nothing embedded, least slug first; `fuel`
/// bounds the rounds.
pub open spec fn drain(sh: Seq<SectionModel>, env: Environment, st: StateModel, fuel: nat) -> Result<
    StateModel,
    CompileErrorModel,
>
    decreases fuel,
{
    if fuel == 0 || st.residued.len() == 0 {
        Ok(st)
    } else {
        let m = st.residued[min_index(st.residued)];
        let st1 = StateModel { residued: remove_all(st.residued, m), ..st };
        match fetch(sh, env, Seq::empty(), st1, m) {
            Err(e) => Err(e),
            Ok((st2, _)) => drain(sh, env, st2, (fuel - 1) as nat),
        }
    }
}

/// Compiling all parsed sections: `index` first, then every section not
/// compiled yet, least slug first.
pub open spec fn compile_all_spec(sh: Seq<SectionModel>, env: Environment) -> Result<
    StateModel,
    CompileErrorModel,
> {
    let st0 = StateModel {
        compiled: Map::empty(),
        callback: Map::empty(),
        residued: sh.map_values(|e: SectionModel| e.0),
    };
    match fetch(sh, env, Seq::empty(), st0, "index"@) {
        Err(e) => Err(e),
        Ok((st1, _)) => drain(sh, env, st1, st1.residued.len()),
    }
}

fn min_slug_index(v: &Vec<Slug>) -> (r: usize)
    requires
        v@.len() > 0,
    ensures
        r == min_index(crate::anonymous::slug_views(v@)),
        r < v@.len(),
{
    let ghost vs = crate::anonymous::slug_views(v@);
    proof {
        lemma_min_index(vs);
    }
    let mut best: usize = 0;
    let mut i: usize = 1;
    assert(vs.take(1).len() <= 1);
    while i < v.len()
        invariant
            1 <= i <= v@.len(),
            vs == crate::anonymous::slug_views(v@),
            best < i,
            best == min_index(vs.take(i as int)),
        decreases v.len() - i,
    {
        assert(vs.take(i + 1).drop_last() =~= vs.take(i as int));
        assert(vs.take(i + 1).last() == v@[i as int]@);
        assert(vs.take(i as int)[best as int] == v@[best as int]@);
        let a = v[i].chars();
        let b = v[best].chars();
        if chars_lt(a.as_slice(), b.as_slice()) {
            best = i;
        }
        i = i + 1;
    }
    assert(vs.take(i as int) =~= vs);
    best
}

/// Compiles every parsed section: `index` first, then every section that
/// no compiled section embeds, least slug first.
pub fn compile_all(sh: &Vec<(Slug, UnresolvedSection)>, env: &Environment) -> (r: Result<
    CompileState,
    CompileError,
>)
    ensures
        match compile_all_spec(section_views(sh@), *env) {
            Ok(st) => r matches Ok(s) && s.model() == st,
            Err(e) => r matches Err(x) && x.model() == e,
        },
        r matches Ok(s) ==> s.residued@.len() == 0,
        r matches Ok(s) ==> (sections_named(section_views(sh@)) ==> forall|k: Seq<char>|
            #[trigger] shallow_keys(section_views(sh@)).contains(k) ==> s.model().compiled.contains_key(k)),
{
    let ghost shm = section_views(sh@);
    let mut residued: Vec<Slug> = Vec::new();
    let mut i: usize = 0;
    while i < sh.len()
        invariant
            i <= sh@.len(),
            shm == section_views(sh@),
            crate::anonymous::slug_views(residued@) == shm.map_values(|e: SectionModel| e.0).take(i as int),
        decreases sh.len() - i,
    {
        let ghost r0 = crate::anonymous::slug_views(residued@);
        residued.push(sh[i].0.duplicate());
        assert(shm.map_values(|e: SectionModel| e.0).take(i + 1) =~= shm.map_values(|e: SectionModel| e.0).take(i as int).push(sh@[i as int].0@));
        assert(crate::anonymous::slug_views(residued@) =~= r0.push(sh@[i as int].0@));
        i = i + 1;
    }
    assert(shm.map_values(|e: SectionModel| e.0).take(i as int) =~= shm.map_values(|e: SectionModel| e.0));
    let mut state = CompileState::new(residued);
    let ghost st0 = state.model();
    assert(all_covered(shm, st0) && waiting_parsed(shm, st0)) by {
        assert(st0.residued == shm.map_values(|e: SectionModel| e.0));
    }
    let mut stack: Vec<Slug> = Vec::new();
    assert(crate::anonymous::slug_views(stack@) =~= Seq::<Seq<char>>::empty());
    let index = Slug::new("index");
    match state.fetch_section(sh, env, &mut stack, &index) {
        Err(e) => {
            return Err(e);
        },
        Ok(_) => {},
    }
    let ghost st1 = state.model();
    proof {
        lemma_fetch_grows(shm, *env, Seq::empty(), st0, index@);
        lemma_covered_grows(shm, st0, st1);
    }
    let ghost goal = drain(shm, *env, st1, st1.residued.len());
    let ghost mut fuel: nat = st1.residued.len();
    loop
        invariant
            shm == section_views(sh@),
            crate::anonymous::slug_views(stack@) == Seq::<Seq<char>>::empty(),
            state.residued@.len() <= fuel,
            compile_all_spec(shm, *env) == goal,
            goal == drain(shm, *env, state.model(), fuel),
            waiting_parsed(shm, state.model()),
            sections_named(shm) ==> all_covered(shm, state.model()),
        ensures
            goal == Ok::<StateModel, CompileErrorModel>(state.model()),
            state.residued@.len() == 0,
            sections_named(shm) ==> all_covered(shm, state.model()),
        decreases state.residued@.len(),
    {
        if state.residued.len() == 0 {
            assert(drain(shm, *env, state.model(), fuel) == Ok::<StateModel, CompileErrorModel>(state.model()));
            break;
        }
        let k = min_slug_index(&state.residued);
        let m = state.residued[k].duplicate();
        let ghost before = state.model();
        remove_slug(&mut state.residued, &m);
        let ghost mid = state.model();
        proof {
            lemma_min_index(before.residued);
            assert(before.residued[min_index(before.residued)] == m@);
            assert(before.residued.contains(m@));
            lemma_remove_all_shrinks(before.residued, m@);
            assert(mid == StateModel { residued: remove_all(before.residued, m@), ..before });
        }
        proof {
            assert(fuel > 0);
            assert(drain(shm, *env, before, fuel) == match fetch(shm, *env, Seq::empty(), mid, m@) {
                Err(e) => Err(e),
                Ok((st2, _)) => drain(shm, *env, st2, (fuel - 1) as nat),
            });
        }
        match state.fetch_section(sh, env, &mut stack, &m) {
            Err(e) => {
                return Err(e);
            },
            Ok(_) => {},
        }
        proof {
            let after = state.model();
            lemma_fetch_grows(shm, *env, Seq::empty(), mid, m@);
            assert(shallow_keys(shm).contains(m@));
            assert forall|k: Seq<char>| #[trigger] after.residued.contains(k) implies shallow_keys(shm).contains(k) by {
                assert(mid.residued.contains(k));
                lemma_remove_all_sub(before.residued, m@, k);
            }
            if sections_named(shm) {
                lemma_fetch_compiles(shm, *env, Seq::empty(), mid, m@);
                assert forall|k: Seq<char>| #[trigger] shallow_keys(shm).contains(k) implies after.residued.contains(k)
                    || after.compiled.contains_key(k) by {
                    if k != m@ {
                        if before.residued.contains(k) {
                            lemma_remove_all_keeps(before.residued, m@, k);
                            assert(mid.residued.contains(k));
                        } else {
                            assert(mid.compiled.contains_key(k));
                        }
                    }
                }
            }
            fuel = (fuel - 1) as nat;
        }
    }
    proof {
        if sections_named(shm) {
            assert forall|k: Seq<char>| #[trigger] shallow_keys(shm).contains(k) implies state.model().compiled.contains_key(k) by {
                assert(!state.model().residued.contains(k));
            }
        }
    }
    Ok(state)
}


// ---------------------------------------------------------------------------
// Page header
// ---------------------------------------------------------------------------
/// The text stored under `k`, empty when there is none.
pub open spec fn text_or_empty(meta: Seq<(Seq<char>, Seq<char>)>, k: Seq<char>) -> Seq<char> {
    match lookup(meta, k) {
        Some(v) => v,
        None => Seq::empty(),
    }
}

/// The section a page leads back to: its parent, else `index`.
pub open spec fn parent_of(st: StateModel, slug: Seq<char>) -> Seq<char> {
    if st.callback.contains_key(slug) {
        st.callback[slug].parent
    } else {
        "index"@
    }
}

/// The navigation header of a page: none for `index`, else a link to its
/// parent with the parent's title.
pub open spec fn header_spec(env: Environment, st: StateModel, slug: Seq<char>) -> Seq<char> {
    if slug == "index"@ {
        Seq::empty()
    } else {
        let parent = parent_of(st, slug);
        let meta = st.compiled[parent].meta;
        crate::html::header_nav_spec(
            text_or_empty(meta, "title"@),
            text_or_empty(meta, "page-title"@),
            full_html_url_spec(env, parent),
        )
    }
}

pub proof fn lemma_text_lookup(m: Seq<(Seq<char>, String)>, k: Seq<char>)
    requires
        crate::ordered_map::unique_keys(m),
    ensures
        lookup(text_pairs(m), k) == match lookup(m, k) {
            Some(v) => Some(v@),
            None => None,
        },
{
    let mm = text_pairs(m);
    if lookup(m, k) is Some {
        let i = choose|i: int| 0 <= i < m.len() && m[i].0 == k;
        crate::ordered_map::lemma_lookup_at(m, i);
        assert(mm[i].0 == k);
        let j = choose|j: int| 0 <= j < mm.len() && mm[j].0 == k;
        assert(m[j].0 == k);
        crate::ordered_map::lemma_lookup_at(m, j);
    }
    if lookup(mm, k) is Some {
        let i = choose|i: int| 0 <= i < mm.len() && mm[i].0 == k;
        assert(m[i].0 == k);
    }
}

fn text_or_empty_exec(m: &EntryMetaData, k: &str) -> (r: String)
    ensures
        r@ == text_or_empty(text_pairs(m.0@), k@),
{
    let _ = m.0.len();
    proof {
        lemma_text_lookup(m.0@, k@);
    }
    match m.0.get(k) {
        Some(t) => owned(t.as_str()),
        None => String::new(),
    }
}

impl CompileState {
    /// The navigation header of page `slug`.
    pub fn header(&self, env: &Environment, slug: &Slug) -> (r: String)
        requires
            slug@ != "index"@ ==> self.model().compiled.contains_key(parent_of(self.model(), slug@)),
        ensures
            r@ == header_spec(*env, self.model(), slug@),
    {
        proof {
            reveal_strlit("index");
        }
        if str_eq(slug.as_str(), "index") {
            return String::new();
        }
        let parent = match self.callback.get(slug) {
            Some(v) => v.parent.duplicate(),
            None => Slug::new("index"),
        };
        let _ = self.compiled.len();
        let section = match self.compiled.get(parent.as_str()) {
            Some(s) => s,
            None => {
                return String::new();
            },
        };
        let href = full_html_url(env, &parent);
        let title = text_or_empty_exec(&section.metadata, "title");
        let page_title = text_or_empty_exec(&section.metadata, "page-title");
        crate::html::html_header_nav(title.as_str(), page_title.as_str(), href.as_str())
    }
}
/// A section whose data taxon is `Reference` (in any case) is a reference:
/// linking to it never says otherwise, whatever its `asref` flag and the
/// site default, and it says so whenever that flag is readable.
pub proof fn law_reference_taxon(
    sh: Seq<SectionModel>,
    slug: Seq<char>,
    asref_default: bool,
    m: MetaModel,
    t: Seq<char>,
)
    requires
        shallow_meta(sh, slug) == Some(m),
        meta_text(m, "data-taxon"@) == Some(t),
        lowercase(t) == "reference"@,
    ensures
        is_reference(sh, slug, asref_default) matches Ok(b) ==> b,
        meta_flag(m, "asref"@) is Ok ==> is_reference(sh, slug, asref_default) == Ok::<
            bool,
            CompileErrorModel,
        >(true),
{
}

/// The references a piece adds are kept by the pieces after it.
proof fn lemma_step_keeps_refs(
    sh: Seq<SectionModel>,
    env: Environment,
    stack: Seq<Seq<char>>,
    level: nat,
    st: StateModel,
    slug: Seq<char>,
    piece: PieceModel,
    children: Seq<ChildModel>,
    refs: Set<Seq<char>>,
    cb: Map<Seq<char>, ValueModel>,
)
    ensures
        piece_step(sh, env, stack, level, st, slug, piece, children, refs, cb) matches Ok(
            (_, _, r, _),
        ) ==> refs.subset_of(r),
{
}

proof fn lemma_pieces_keep_refs(
    sh: Seq<SectionModel>,
    env: Environment,
    stack: Seq<Seq<char>>,
    level: nat,
    st: StateModel,
    slug: Seq<char>,
    ps: Seq<PieceModel>,
    i: int,
    children: Seq<ChildModel>,
    refs: Set<Seq<char>>,
    cb: Map<Seq<char>, ValueModel>,
)
    ensures
        compile_pieces(sh, env, stack, level, st, slug, ps, i, children, refs, cb) matches Ok(
            (_, _, r, _),
        ) ==> refs.subset_of(r),
    decreases ps.len() - i,
{
    if 0 <= i < ps.len() {
        lemma_step_keeps_refs(sh, env, stack, level, st, slug, ps[i], children, refs, cb);
        if let Ok((st1, c1, r1, cb1)) = piece_step(sh, env, stack, level, st, slug, ps[i], children, refs, cb) {
            lemma_pieces_keep_refs(sh, env, stack, level, st1, slug, ps, i + 1, c1, r1, cb1);
        }
    }
}

/// A local link from a section's content to a section whose data taxon is
/// `Reference` puts that section among the linking section's references,
/// whatever the target's `asref` flag (when readable) and the site default.
pub proof fn law_link_to_reference_is_recorded(
    sh: Seq<SectionModel>,
    env: Environment,
    stack: Seq<Seq<char>>,
    level: nat,
    st: StateModel,
    slug: Seq<char>,
    ps: Seq<PieceModel>,
    i: int,
    children: Seq<ChildModel>,
    refs: Set<Seq<char>>,
    cb: Map<Seq<char>, ValueModel>,
    k: int,
    m: MetaModel,
    t: Seq<char>,
)
    requires
        level > 0,
        0 <= i <= k < ps.len(),
        ps[k] is Local,
        subsection_slug_spec(slug, ps[k]->Local_0) != slug,
        shallow_meta(sh, subsection_slug_spec(slug, ps[k]->Local_0)) == Some(m),
        meta_text(m, "data-taxon"@) == Some(t),
        lowercase(t) == "reference"@,
        meta_flag(m, "asref"@) is Ok,
    ensures
        compile_pieces(sh, env, stack, level, st, slug, ps, i, children, refs, cb) matches Ok(
            (_, _, r, _),
        ) ==> r.contains(subsection_slug_spec(slug, ps[k]->Local_0)),
    decreases k - i,
{
    let link = subsection_slug_spec(slug, ps[k]->Local_0);
    law_reference_taxon(sh, link, env.config.build.asref, m, t);
    if let Ok((st1, c1, r1, cb1)) = piece_step(sh, env, stack, level, st, slug, ps[i], children, refs, cb) {
        if i < k {
            law_link_to_reference_is_recorded(sh, env, stack, level, st1, slug, ps, i + 1, c1, r1, cb1, k, m, t);
        } else {
            assert(r1.contains(link));
            lemma_pieces_keep_refs(sh, env, stack, level, st1, slug, ps, i + 1, c1, r1, cb1);
        }
    }
}

/// Compiling a section whose content links to a section with data taxon
/// `Reference` records that section among its references.
pub proof fn law_compiled_references_hold_reference_links(
    sh: Seq<SectionModel>,
    env: Environment,
    stack: Seq<Seq<char>>,
    st: StateModel,
    meta: MetaModel,
    ps: Seq<PieceModel>,
    slug: Seq<char>,
    k: int,
    m: MetaModel,
    t: Seq<char>,
)
    requires
        meta_text(meta, "slug"@) == Some(slug),
        0 <= k < ps.len(),
        ps[k] is Local,
        subsection_slug_spec(slug, ps[k]->Local_0) != slug,
        shallow_meta(sh, subsection_slug_spec(slug, ps[k]->Local_0)) == Some(m),
        meta_text(m, "data-taxon"@) == Some(t),
        lowercase(t) == "reference"@,
        meta_flag(m, "asref"@) is Ok,
    ensures
        compile_section(sh, env, stack, st, meta, ContentModel::Lazy(ps), false) matches Ok(st2)
            ==> st2.compiled[slug].refs.contains(subsection_slug_spec(slug, ps[k]->Local_0)),
{
    law_link_to_reference_is_recorded(
        sh,
        env,
        stack,
        2,
        st,
        slug,
        ps,
        0,
        Seq::empty(),
        Set::empty(),
        Map::empty(),
        k,
        m,
        t,
    );
}

} // verus!
