//! Fitting the sections cut out of a markdown source back together: the
//! host's embed placeholders are pointed at the subtrees, and each subtree
//! gets the metadata its tag gave it.
use vstd::prelude::*;

use crate::metadata::display_taxon;
use crate::ordered_map::{insert_spec, lookup};
use crate::section::{ContentModel, EmbedContent, HTMLContent, LazyContent, PieceModel, UnresolvedSection};
use crate::subtree::{models, SubtreeModel, SubtreeSpec};
use crate::text::{chars_of, owned, push_str, str_eq, string_of};
use crate::typst_html::{
    anon_key, meta_insert, meta_model, plain_meta, source_slug_key, subtree_defaults, MetaModel,
};

verus! {

/// The last subtree whose placeholder is `url`.
pub open spec fn spec_for(subs: Seq<SubtreeModel>, url: Seq<char>) -> Option<int>
    decreases subs.len(),
{
    if subs.len() == 0 {
        None
    } else if subs.last().placeholder_url == url {
        Some(subs.len() - 1)
    } else {
        spec_for(subs.drop_last(), url)
    }
}

pub proof fn lemma_spec_for(subs: Seq<SubtreeModel>, url: Seq<char>)
    ensures
        spec_for(subs, url) matches Some(j) ==> 0 <= j < subs.len() && subs[j].placeholder_url == url,
        spec_for(subs, url) is None ==> forall|j: int|
            0 <= j < subs.len() ==> subs[j].placeholder_url != url,
    decreases subs.len(),
{
    if subs.len() > 0 {
        lemma_spec_for(subs.drop_last(), url);
        if spec_for(subs, url) is None {
            assert forall|j: int| 0 <= j < subs.len() implies subs[j].placeholder_url != url by {
                if j < subs.len() - 1 {
                    assert(subs.drop_last()[j] == subs[j]);
                }
            }
        }
    }
}

/// A piece after patching: an embed of a placeholder points at its subtree,
/// with the subtree's options and (when it has one) title.
pub open spec fn patched_piece(p: PieceModel, subs: Seq<SubtreeModel>) -> PieceModel {
    match p {
        PieceModel::Embed(url, title, option) => match spec_for(subs, url) {
            Some(j) => PieceModel::Embed(
                "/"@ + subs[j].slug,
                match subs[j].title {
                    Some(t) => Some(t),
                    None => title,
                },
                subs[j].option,
            ),
            None => p,
        },
        _ => p,
    }
}

/// Whether a piece embeds `url`.
pub open spec fn embeds_url(p: PieceModel, url: Seq<char>) -> bool {
    match p {
        PieceModel::Embed(u, _, _) => u == url,
        _ => false,
    }
}

/// Whether an embed among the pieces names `url`.
pub open spec fn embedded(ps: Seq<PieceModel>, url: Seq<char>) -> bool {
    exists|i: int| 0 <= i < ps.len() && #[trigger] embeds_url(ps[i], url)
}

/// Whether a subtree among `subs` has the placeholder `url`.
pub open spec fn seen(subs: Seq<SubtreeModel>, url: Seq<char>) -> bool {
    exists|a: int| 0 <= a < subs.len() && #[trigger] subs[a].placeholder_url == url
}

/// How many distinct placeholders are embedded among the pieces.
pub open spec fn matched_count(ps: Seq<PieceModel>, subs: Seq<SubtreeModel>) -> nat
    decreases subs.len(),
{
    if subs.len() == 0 {
        0
    } else {
        let u = subs.last().placeholder_url;
        matched_count(ps, subs.drop_last()) + if embedded(ps, u) && !seen(subs.drop_last(), u) {
            1nat
        } else {
            0nat
        }
    }
}

pub proof fn lemma_matched_count_bound(ps: Seq<PieceModel>, subs: Seq<SubtreeModel>)
    ensures
        matched_count(ps, subs) <= subs.len(),
    decreases subs.len(),
{
    if subs.len() > 0 {
        lemma_matched_count_bound(ps, subs.drop_last());
    }
}

#[derive(Debug)]
pub enum PatchError {
    NotLazy,
    /// Not every subtree was embedded once: `matched` of `expected`
    /// placeholders were found.
    Mismatch { matched: usize, expected: usize },
}

/// The sentence that says what went wrong.
pub open spec fn patch_message_spec(e: PatchError) -> Seq<char> {
    match e {
        PatchError::NotLazy => "internal subtree parser error: expected lazy root content with embed placeholders"@,
        PatchError::Mismatch { matched, expected } => "internal subtree parser error: placeholder count mismatch (matched "@
            + crate::text::decimal(matched as nat) + ", expected "@ + crate::text::decimal(
            expected as nat,
        ) + ")"@,
    }
}

impl PatchError {
    /// A sentence that says what went wrong.
    pub fn message(&self) -> (r: String)
        ensures
            r@ == patch_message_spec(*self),
    {
        let mut v: Vec<char> = Vec::new();
        match self {
            PatchError::NotLazy => push_str(
                &mut v,
                "internal subtree parser error: expected lazy root content with embed placeholders",
            ),
            PatchError::Mismatch { matched, expected } => {
                push_str(&mut v, "internal subtree parser error: placeholder count mismatch (matched ");
                crate::text::push_decimal(&mut v, *matched);
                push_str(&mut v, ", expected ");
                crate::text::push_decimal(&mut v, *expected);
                push_str(&mut v, ")");
            },
        }
        assert(v@ =~= patch_message_spec(*self));
        string_of(v.as_slice())
    }
}

fn find_spec(subtrees: &Vec<SubtreeSpec>, url: &str) -> (r: Option<usize>)
    ensures
        r matches Some(j) ==> j < subtrees@.len() && spec_for(models(subtrees@), url@) == Some(
            j as int,
        ),
        r is None ==> spec_for(models(subtrees@), url@) is None,
{
    let ghost ms = models(subtrees@);
    let mut k: usize = subtrees.len();
    assert(ms.take(k as int) =~= ms);
    while k > 0
        invariant
            k <= subtrees@.len(),
            ms == models(subtrees@),
            spec_for(ms, url@) == spec_for(ms.take(k as int), url@),
        decreases k,
    {
        assert(ms.take(k as int).drop_last() =~= ms.take(k - 1));
        if str_eq(subtrees[k - 1].placeholder_url.as_str(), url) {
            return Some(k - 1);
        }
        k = k - 1;
    }
    None
}

/// How many distinct placeholders of the subtrees are embedded.
fn matched_placeholders(contents: &Vec<LazyContent>, subtrees: &Vec<SubtreeSpec>) -> (r: usize)
    ensures
        r == matched_count(crate::section::piece_models(contents@), models(subtrees@)),
{
    let ghost ms = models(subtrees@);
    let ghost ps = crate::section::piece_models(contents@);
    let mut count: usize = 0;
    let mut j: usize = 0;
    while j < subtrees.len()
        invariant
            j <= subtrees@.len(),
            ms == models(subtrees@),
            ps == crate::section::piece_models(contents@),
            count == matched_count(ps, ms.take(j as int)),
            count <= j,
        decreases subtrees.len() - j,
    {
        assert(ms.take(j + 1).drop_last() =~= ms.take(j as int));
        assert(ms.take(j + 1).last() == ms[j as int]);
        let p = subtrees[j].placeholder_url.as_str();
        let mut a: usize = 0;
        let mut earlier = false;
        while a < j
            invariant
                a <= j < subtrees@.len(),
                ms == models(subtrees@),
                p@ == ms[j as int].placeholder_url,
                earlier == seen(ms.take(a as int), ms[j as int].placeholder_url),
            decreases j - a,
        {
            assert(ms.take(a + 1)[a as int] == ms[a as int]);
            if str_eq(subtrees[a].placeholder_url.as_str(), p) {
                earlier = true;
            }
            assert(seen(ms.take(a + 1), p@) == (seen(ms.take(a as int), p@) || ms[a as int].placeholder_url == p@)) by {
                if seen(ms.take(a + 1), p@) {
                    let w = choose|w: int| 0 <= w < a + 1 && #[trigger] ms.take(a + 1)[w].placeholder_url == p@;
                    if w < a {
                        assert(ms.take(a as int)[w] == ms.take(a + 1)[w]);
                    }
                }
                if seen(ms.take(a as int), p@) {
                    let w = choose|w: int| 0 <= w < a && #[trigger] ms.take(a as int)[w].placeholder_url == p@;
                    assert(ms.take(a + 1)[w] == ms.take(a as int)[w]);
                }
            }
            a = a + 1;
        }
        let mut i: usize = 0;
        let mut found = false;
        while i < contents.len()
            invariant
                i <= contents@.len(),
                j < subtrees@.len(),
                ms == models(subtrees@),
                ps == crate::section::piece_models(contents@),
                p@ == ms[j as int].placeholder_url,
                found ==> embedded(ps, p@),
                !found ==> forall|x: int| 0 <= x < i ==> !#[trigger] embeds_url(ps[x], p@),
            decreases contents.len() - i,
        {
            assert(ps[i as int] == contents@[i as int].model());
            match &contents[i] {
                LazyContent::Embed(e) => {
                    if str_eq(e.url.as_str(), p) {
                        assert(embeds_url(ps[i as int], p@));
                        found = true;
                    }
                },
                _ => {},
            }
            i = i + 1;
        }
        if found && !earlier {
            count = count + 1;
        }
        j = j + 1;
    }
    assert(ms.take(j as int) =~= ms);
    count
}

fn patch_embed(e: &mut EmbedContent, spec: &SubtreeSpec)
    ensures
        PieceModel::Embed(final(e).url@, crate::section::opt_str(final(e).title), final(e).option)
            == PieceModel::Embed(
            "/"@ + spec.slug@,
            match crate::subtree::opt_view(spec.title) {
                Some(t) => Some(t),
                None => crate::section::opt_str(old(e).title),
            },
            spec.option,
        ),
{
    let mut u: Vec<char> = Vec::new();
    u.push('/');
    push_str(&mut u, spec.slug.as_str());
    assert(u@ =~= "/"@ + spec.slug@) by {
        reveal_strlit("/");
    }
    e.url = string_of(u.as_slice());
    e.option = spec.option;
    match &spec.title {
        Some(t) => {
            e.title = Some(owned(t.as_str()));
        },
        None => {},
    }
}

/// Points the embed placeholders of `root` at the subtrees cut out of it.
/// Fails unless each subtree's placeholder is distinct and embedded (the
/// error tells how many were); the embeds found are pointed at their
/// subtrees either way.
pub fn patch_root_subtree_embeds(root: &mut UnresolvedSection, subtrees: &Vec<SubtreeSpec>) -> (r:
    Result<(), PatchError>)
    ensures
        subtrees@.len() == 0 ==> r is Ok && *final(root) == *old(root),
        subtrees@.len() > 0 ==> match old(root).content.model() {
            ContentModel::Plain(_) => r matches Err(PatchError::NotLazy) && *final(root) == *old(
                root,
            ),
            ContentModel::Lazy(ps) => {
                &&& final(root).metadata == old(root).metadata
                &&& final(root).content.model() == ContentModel::Lazy(
                    ps.map_values(|p: PieceModel| patched_piece(p, models(subtrees@))),
                )
                &&& if matched_count(ps, models(subtrees@)) == subtrees@.len() {
                    r is Ok
                } else {
                    r matches Err(PatchError::Mismatch { matched, expected }) && matched
                        == matched_count(ps, models(subtrees@)) && expected == subtrees@.len()
                }
            },
        },
{
    if subtrees.len() == 0 {
        return Ok(());
    }
    let ghost ms = models(subtrees@);
    match &mut root.content {
        HTMLContent::Plain(_) => Err(PatchError::NotLazy),
        HTMLContent::Lazy(contents) => {
            let matched = matched_placeholders(contents, subtrees);
            let ghost ps = crate::section::piece_models(contents@);
            let mut i: usize = 0;
            while i < contents.len()
                invariant
                    i <= contents@.len(),
                    contents@.len() == ps.len(),
                    ms == models(subtrees@),
                    forall|x: int|
                        0 <= x < i ==> #[trigger] contents@[x].model() == patched_piece(ps[x], ms),
                    forall|x: int| i <= x < ps.len() ==> #[trigger] contents@[x].model() == ps[x],
                decreases contents.len() - i,
            {
                let ghost before = contents@;
                let piece = contents.remove(i);
                let ghost pm = piece.model();
                let piece = match piece {
                    LazyContent::Embed(e) => {
                        let mut e = e;
                        proof {
                            lemma_spec_for(ms, e.url@);
                        }
                        match find_spec(subtrees, e.url.as_str()) {
                            Some(j) => {
                                assert(ms[j as int] == subtrees@[j as int].model());
                                patch_embed(&mut e, &subtrees[j]);
                            },
                            None => {},
                        }
                        LazyContent::Embed(e)
                    },
                    other => other,
                };
                assert(piece.model() == patched_piece(pm, ms));
                contents.insert(i, piece);
                assert forall|x: int| 0 <= x < contents@.len() && x != i implies contents@[x]
                    == before[x] by {}
                i = i + 1;
            }
            assert(crate::section::piece_models(contents@) =~= ps.map_values(
                |p: PieceModel| patched_piece(p, ms),
            ));
            if matched == subtrees.len() {
                Ok(())
            } else {
                Err(PatchError::Mismatch { matched, expected: subtrees.len() })
            }
        },
    }
}

/// The taxon a subtree gets by default: its own, else its tag unless the
/// tag is `block`.
pub open spec fn default_taxon(s: SubtreeModel) -> Option<Seq<char>> {
    match s.taxon {
        Some(t) => Some(t),
        None => if s.tag == "block"@ {
            None
        } else {
            Some(s.tag)
        },
    }
}

/// The metadata of a subtree section: where it comes from, and the title
/// and taxon of its tag unless its body set them.
pub open spec fn subtree_section_meta(m: MetaModel, s: SubtreeModel) -> MetaModel {
    let m1 = plain_meta(
        "source-pos"@,
        s.source_pos,
        plain_meta(
            source_slug_key(),
            s.source_slug,
            plain_meta("ext"@, "md"@, plain_meta("slug"@, s.slug, m)),
        ),
    );
    let m2 = if s.anonymous {
        plain_meta(anon_key(), "true"@, m1)
    } else {
        m1
    };
    subtree_defaults(m2, s.title, default_taxon(s))
}

/// Gives a subtree section the metadata its tag gave it.
pub fn apply_subtree_defaults(section: &mut UnresolvedSection, spec: &SubtreeSpec)
    ensures
        meta_model(final(section).metadata.0@) == subtree_section_meta(
            meta_model(old(section).metadata.0@),
            spec.model(),
        ),
        final(section).content == old(section).content,
{
    let m = &mut section.metadata.0;
    meta_insert(m, owned("slug"), HTMLContent::Plain(owned(spec.slug.as_str())));
    meta_insert(m, owned("ext"), HTMLContent::Plain(owned("md")));
    meta_insert(
        m,
        owned(crate::typst_html::key_source_slug()),
        HTMLContent::Plain(owned(spec.source_slug.as_str())),
    );
    meta_insert(m, owned("source-pos"), HTMLContent::Plain(owned(spec.source_pos.as_str())));
    if spec.anonymous {
        meta_insert(
            m,
            owned(crate::typst_html::key_internal_anon_subtree()),
            HTMLContent::Plain(owned("true")),
        );
    }
    let title = match &spec.title {
        Some(t) => Some(owned(t.as_str())),
        None => None,
    };
    proof {
        reveal_strlit("block");
    }
    let taxon = match &spec.taxon {
        Some(t) => Some(owned(t.as_str())),
        None => if str_eq(spec.tag.as_str(), "block") {
            None
        } else {
            Some(owned(spec.tag.as_str()))
        },
    };
    crate::typst_html::apply_typst_defaults(m, title, taxon);
}

} // verus!
