//! The sections of one markdown source. The subtrees cut out of the root are
//! parsed one after another, first in first out, each with the subtrees
//! nested in it queued behind; an anonymous subtree whose name is taken gets
//! the next free anonymous name. Parsing a piece of markdown is the caller's
//! work: this state says what to parse next and takes the parsed section.
use vstd::prelude::*;

use crate::anonymous::{
    contains_slug, first_free, law_allocated_name_is_fresh, slug_views, AnonymousSlugState,
};
use crate::references::{
    compose_spec, compose_subtree_source, extract_shared_reference_definitions,
    shared_definitions_spec,
};
use crate::section::{ContentModel, UnresolvedSection};
use crate::sections::{
    apply_subtree_defaults, matched_count, patch_root_subtree_embeds, patched_piece,
    subtree_section_meta, PatchError, lemma_matched_count_bound,
};
use crate::slug::Slug;
use crate::subtree::{
    anonymous_slug_spec, extract_spec, extract_subtrees_nested, extract_subtrees_root, models,
    SubtreeError, SubtreeModel, SubtreeSpec,
};
use crate::typst_html::meta_model;

verus! {

/// What patching the placeholders of `c` for `subs` gives: the content with
/// each placeholder embed pointed at its subtree, or why it failed.
pub open spec fn patch_outcome(c: ContentModel, subs: Seq<SubtreeModel>) -> Result<
    ContentModel,
    PatchError,
> {
    if subs.len() == 0 {
        Ok(c)
    } else {
        match c {
            ContentModel::Plain(_) => Err(PatchError::NotLazy),
            ContentModel::Lazy(ps) => if matched_count(ps, subs) == subs.len() {
                Ok(ContentModel::Lazy(ps.map_values(|p| patched_piece(p, subs))))
            } else {
                Err(
                    PatchError::Mismatch {
                        matched: matched_count(ps, subs) as usize,
                        expected: subs.len() as usize,
                    },
                )
            },
        }
    }
}

/// A nested subtree as it is queued: named after the subtree that holds it,
/// and renamed to the next free anonymous name when it is anonymous and its
/// name is taken. `None` when the counter of anonymous names would overflow.
pub open spec fn assign_one(n: SubtreeModel, src: Seq<char>, next: nat, used: Seq<Seq<char>>) -> Option<
    (SubtreeModel, nat, Seq<Seq<char>>),
> {
    let n1 = SubtreeModel { source_slug: src, ..n };
    if n.anonymous && used.contains(n.slug) {
        if next + used.len() + 1 > usize::MAX {
            None
        } else {
            let k = first_free(src, next, used.to_set());
            let s = anonymous_slug_spec(src, k);
            Some((SubtreeModel { slug: s, ..n1 }, k + 1, used.push(s)))
        }
    } else {
        Some((n1, next, used.push(n.slug)))
    }
}

/// `assign_one` over the nested subtrees, in order.
pub open spec fn assign_slugs(subs: Seq<SubtreeModel>, src: Seq<char>, next: nat, used: Seq<
    Seq<char>,
>) -> Option<(Seq<SubtreeModel>, nat, Seq<Seq<char>>)>
    decreases subs.len(),
{
    if subs.len() == 0 {
        Some((Seq::empty(), next, used))
    } else {
        match assign_slugs(subs.drop_last(), src, next, used) {
            None => None,
            Some((a, n1, u1)) => match assign_one(subs.last(), src, n1, u1) {
                None => None,
                Some((x, n2, u2)) => Some((a.push(x), n2, u2)),
            },
        }
    }
}

/// The slugs of subtrees, in order.
pub open spec fn slugs_of(a: Seq<SubtreeModel>) -> Seq<Seq<char>> {
    a.map_values(|x: SubtreeModel| x.slug)
}

/// Naming nested subtrees takes each name in turn, and an anonymous subtree
/// whose name was already taken gets one that no subtree named before it,
/// and nothing used before, holds: anonymous subtree slugs do not collide.
pub proof fn law_assigned_slugs_fresh(
    subs: Seq<SubtreeModel>,
    src: Seq<char>,
    next: nat,
    used: Seq<Seq<char>>,
)
    ensures
        assign_slugs(subs, src, next, used) matches Some((a, n, u)) ==> {
            &&& a.len() == subs.len()
            &&& u == used + slugs_of(a)
            &&& forall|i: int|
                #![trigger a[i]]
                0 <= i < subs.len() && subs[i].anonymous && (used + slugs_of(a.take(i))).contains(
                    subs[i].slug,
                ) ==> !(used + slugs_of(a.take(i))).contains(a[i].slug)
        },
    decreases subs.len(),
{
    if subs.len() == 0 {
        assert(used + slugs_of(Seq::<SubtreeModel>::empty()) =~= used);
    } else {
        law_assigned_slugs_fresh(subs.drop_last(), src, next, used);
        match assign_slugs(subs.drop_last(), src, next, used) {
            None => {},
            Some((a1, n1, u1)) => {
                let x = subs.last();
                match assign_one(x, src, n1, u1) {
                    None => {},
                    Some((y, n2, u2)) => {
                        let a = a1.push(y);
                        let k = subs.len() - 1;
                        assert(a.take(k) =~= a1);
                        assert(u2 =~= used + slugs_of(a)) by {
                            assert(slugs_of(a) =~= slugs_of(a1).push(y.slug));
                        }
                        if x.anonymous && u1.contains(x.slug) {
                            law_allocated_name_is_fresh(src, n1, u1);
                        }
                        assert forall|i: int|
                            #![trigger a[i]]
                            0 <= i < subs.len() && subs[i].anonymous && (used + slugs_of(
                                a.take(i),
                            )).contains(subs[i].slug) implies !(used + slugs_of(
                                a.take(i),
                            )).contains(a[i].slug) by {
                            if i < k {
                                assert(a.take(i) =~= a1.take(i));
                                assert(a[i] == a1[i]);
                                assert(subs[i] == subs.drop_last()[i]);
                            } else {
                                assert(i == k);
                                assert(subs[i] == x);
                                assert(a[i] == y);
                            }
                        }
                    },
                }
            },
        }
    }
}

/// Subtrees as queued: an anonymous one nests its own subtrees under `base`,
/// a named one under its own slug.
pub open spec fn queued(subs: Seq<SubtreeModel>, base: Seq<char>) -> Seq<(SubtreeModel, Seq<char>)> {
    subs.map_values(|n: SubtreeModel| (n, if n.anonymous { base } else { n.slug }))
}

/// The first slug that occurs a second time, in order of second occurrence.
pub open spec fn first_repeat(s: Seq<Seq<char>>) -> Option<Seq<char>>
    decreases s.len(),
{
    if s.len() == 0 {
        None
    } else {
        match first_repeat(s.drop_last()) {
            Some(x) => Some(x),
            None => if s.drop_last().contains(s.last()) {
                Some(s.last())
            } else {
                None
            },
        }
    }
}

/// A subtree waiting to be parsed, with the slug its anonymous subtrees are
/// named after.
#[derive(Debug)]
pub struct PendingSubtree {
    pub subtree: SubtreeSpec,
    pub base: Slug,
}

pub open spec fn pending_views(v: Seq<PendingSubtree>) -> Seq<(SubtreeModel, Seq<char>)> {
    v.map_values(|p: PendingSubtree| (p.subtree.model(), p.base@))
}

/// The slugs of the parsed sections, in order.
pub open spec fn section_slugs(v: Seq<(Slug, UnresolvedSection)>) -> Seq<Seq<char>> {
    v.map_values(|e: (Slug, UnresolvedSection)| e.0@)
}

/// The next subtree to parse: the markdown to parse for it and the
/// subtrees nested in it.
#[derive(Debug)]
pub struct SubtreeJob {
    pub subtree: SubtreeSpec,
    pub base: Slug,
    pub source: String,
    pub nested: Vec<SubtreeSpec>,
}

/// Why the sections of a source could not be put together.
#[derive(Debug)]
pub enum SectionsError {
    Subtree(SubtreeError),
    Patch(PatchError),
    /// The counter of anonymous names would overflow.
    TooManyAnonymous { source: String },
    /// Two sections of `source` have the slug `slug`.
    DuplicateSlug { slug: String, source: String },
}

/// The state of parsing one markdown source.
#[derive(Debug)]
pub struct MarkdownSections {
    pub source_slug: Slug,
    /// The root's markdown, with a placeholder for each subtree.
    pub root_source: String,
    pub root_subtrees: Vec<SubtreeSpec>,
    /// The reference definitions every subtree shares with the root.
    pub shared: String,
    pub pending: Vec<PendingSubtree>,
    pub used: Vec<Slug>,
    pub anonymous: AnonymousSlugState,
    pub sections: Vec<(Slug, UnresolvedSection)>,
}

/// Cuts the subtrees out of `source`, the markdown of `source_slug`. The
/// root is to be parsed from `root_source` and handed to `accept_root`.
pub fn parse_markdown_sections(source: &str, source_slug: &Slug) -> (r: Result<
    MarkdownSections,
    SectionsError,
>)
    requires
        source@.len() < usize::MAX,
    ensures
        match extract_spec(source@, source_slug@, source_slug@) {
            Ok((root, subs)) => r matches Ok(st) && st.source_slug@ == source_slug@
                && st.root_source@ == root && models(st.root_subtrees@) == subs && st.shared@
                == shared_definitions_spec(root) && st.pending@.len() == 0 && slug_views(st.used@)
                == seq![source_slug@] && st.anonymous.next == 0 && st.sections@.len() == 0,
            Err(e) => r matches Err(SectionsError::Subtree(x)) && x.model() == e,
        },
{
    let extracted = match extract_subtrees_root(source, source_slug) {
        Ok(x) => x,
        Err(e) => return Err(SectionsError::Subtree(e)),
    };
    let shared = extract_shared_reference_definitions(extracted.root_source.as_str());
    let mut used: Vec<Slug> = Vec::new();
    used.push(source_slug.duplicate());
    assert(slug_views(used@) =~= seq![source_slug@]);
    Ok(
        MarkdownSections {
            source_slug: source_slug.duplicate(),
            root_source: extracted.root_source,
            root_subtrees: extracted.subtrees,
            shared,
            pending: Vec::new(),
            used,
            anonymous: AnonymousSlugState { next: 0 },
            sections: Vec::new(),
        },
    )
}

proof fn lemma_patch_outcome(c: ContentModel, subs: Seq<SubtreeModel>)
    requires
        subs.len() <= usize::MAX,
    ensures
        patch_outcome(c, subs) matches Err(PatchError::Mismatch { matched, expected }) ==> matched
            == matched_count(c->Lazy_0, subs) && expected == subs.len(),
{
    if c is Lazy {
        lemma_matched_count_bound(c->Lazy_0, subs);
    }
}

/// Patches `section` for `subs`, as `patch_outcome` says.
fn patch(section: &mut UnresolvedSection, subs: &Vec<SubtreeSpec>) -> (r: Result<(), PatchError>)
    ensures
        match patch_outcome(old(section).content.model(), models(subs@)) {
            Ok(c) => r is Ok && final(section).content.model() == c && final(section).metadata
                == old(section).metadata,
            Err(e) => r == Err::<(), PatchError>(e),
        },
{
    let n = subs.len();
    proof {
        lemma_patch_outcome(section.content.model(), models(subs@));
        if subs@.len() > 0 && section.content.model() is Lazy {
            lemma_matched_count_bound(section.content.model()->Lazy_0, models(subs@));
        }
    }
    patch_root_subtree_embeds(section, subs)
}

proof fn lemma_assign_none(subs: Seq<SubtreeModel>, k: int, src: Seq<char>, next: nat, used: Seq<Seq<char>>)
    requires
        0 <= k <= subs.len(),
        assign_slugs(subs.take(k), src, next, used) is None,
    ensures
        assign_slugs(subs, src, next, used) is None,
    decreases subs.len(),
{
    if k == subs.len() {
        assert(subs.take(k) =~= subs);
    } else {
        assert(subs.drop_last().take(k) =~= subs.take(k));
        lemma_assign_none(subs.drop_last(), k, src, next, used);
    }
}


/// `first_repeat` finds nothing exactly when no slug occurs twice.
pub proof fn lemma_first_repeat_none(s: Seq<Seq<char>>)
    ensures
        first_repeat(s) is None <==> forall|i: int, j: int|
            0 <= i < j < s.len() ==> s[i] != s[j],
    decreases s.len(),
{
    if s.len() > 0 {
        lemma_first_repeat_none(s.drop_last());
        let d = s.drop_last();
        if first_repeat(s) is None {
            assert forall|i: int, j: int| 0 <= i < j < s.len() implies s[i] != s[j] by {
                if j < s.len() - 1 {
                    assert(d[i] == s[i] && d[j] == s[j]);
                } else {
                    assert(!d.contains(s.last()));
                    assert(d[i] == s[i]);
                }
            }
        } else {
            if first_repeat(d) is None {
                assert(d.contains(s.last()));
                let i = choose|i: int| 0 <= i < d.len() && d[i] == s.last();
                assert(s[i] == s[s.len() - 1]);
            } else {
                let (i, j) = choose|i: int, j: int| 0 <= i < j < d.len() && d[i] == d[j];
                assert(s[i] == s[j]);
            }
        }
    }
}

impl MarkdownSections {
    /// Takes the parsed root: points its placeholders at the subtrees,
    /// records it, and queues the subtrees, whose names are now taken.
    pub fn accept_root(&mut self, root: UnresolvedSection) -> (r: Result<(), SectionsError>)
        ensures
            match patch_outcome(root.content.model(), models(old(self).root_subtrees@)) {
                Err(e) => r matches Err(SectionsError::Patch(x)) && x == e,
                Ok(c) => {
                    &&& r is Ok
                    &&& section_slugs(final(self).sections@) == section_slugs(
                        old(self).sections@,
                    ).push(old(self).source_slug@)
                    &&& final(self).sections@.last().1.content.model() == c
                    &&& final(self).sections@.last().1.metadata == root.metadata
                    &&& pending_views(final(self).pending@) == pending_views(old(self).pending@)
                        + queued(models(old(self).root_subtrees@), old(self).source_slug@)
                    &&& slug_views(final(self).used@) == slug_views(old(self).used@) + models(
                        old(self).root_subtrees@,
                    ).map_values(|n: SubtreeModel| n.slug)
                    &&& final(self).anonymous == old(self).anonymous
                    &&& final(self).source_slug@ == old(self).source_slug@
                    &&& final(self).shared == old(self).shared
                    &&& final(self).root_subtrees@.len() == 0
                },
            },
    {
        let mut root = root;
        match patch(&mut root, &self.root_subtrees) {
            Err(e) => {
                return Err(SectionsError::Patch(e));
            },
            Ok(()) => {},
        }
        let ghost s0 = section_slugs(self.sections@);
        self.sections.push((self.source_slug.duplicate(), root));
        assert(section_slugs(self.sections@) =~= s0.push(self.source_slug@));
        let count = self.root_subtrees.len();
        let ghost subs = models(self.root_subtrees@);
        let ghost p0 = pending_views(self.pending@);
        let ghost u0 = slug_views(self.used@);
        let ghost sections = self.sections;
        let ghost anonymous = self.anonymous;
        let ghost shared = self.shared;
        let ghost src = self.source_slug@;
        let mut i: usize = 0;
        assert(subs.skip(0) =~= subs);
        assert(queued(subs.take(0), src) =~= Seq::<(SubtreeModel, Seq<char>)>::empty());
        assert(subs.take(0).map_values(|n: SubtreeModel| n.slug) =~= Seq::<Seq<char>>::empty());
        while self.root_subtrees.len() > 0
            invariant
                i <= subs.len(),
                subs.len() == count,
                models(self.root_subtrees@) == subs.skip(i as int),
                pending_views(self.pending@) == p0 + queued(subs.take(i as int), src),
                slug_views(self.used@) == u0 + subs.take(i as int).map_values(
                    |n: SubtreeModel| n.slug,
                ),
                self.sections == sections,
                self.anonymous == anonymous,
                self.shared == shared,
                self.source_slug@ == src,
            decreases self.root_subtrees@.len(),
        {
            let ghost pv = pending_views(self.pending@);
            let ghost uv = slug_views(self.used@);
            let ghost before = self.root_subtrees@;
            assert(models(before).len() == before.len());
            assert(i < subs.len());
            let t = self.root_subtrees.remove(0);
            assert(subs[i as int] == t.model()) by {
                assert(models(before)[0] == before[0].model());
                assert(subs.skip(i as int)[0] == subs[i as int]);
            }
            assert forall|k: int| 0 <= k < subs.len() - (i + 1) implies models(self.root_subtrees@)[k] == subs.skip(i + 1)[k] by {
                assert(self.root_subtrees@[k] == before[k + 1]);
                assert(models(before)[k + 1] == subs.skip(i as int)[k + 1]);
            }
            assert(models(self.root_subtrees@) =~= subs.skip(i + 1));
            self.used.push(t.slug.duplicate());
            let base = if t.anonymous {
                self.source_slug.duplicate()
            } else {
                t.slug.duplicate()
            };
            self.pending.push(PendingSubtree { subtree: t, base });
            assert(subs.take(i + 1) =~= subs.take(i as int).push(subs[i as int]));
            assert(pending_views(self.pending@) =~= pv.push((subs[i as int], base@)));
            assert(queued(subs.take(i + 1), src) =~= queued(subs.take(i as int), src).push(
                (subs[i as int], base@),
            ));
            assert(slug_views(self.used@) =~= uv.push(subs[i as int].slug));
            assert(subs.take(i + 1).map_values(|n: SubtreeModel| n.slug) =~= subs.take(
                i as int,
            ).map_values(|n: SubtreeModel| n.slug).push(subs[i as int].slug));
            i = i + 1;
        }
        assert(i == subs.len());
        assert(subs.take(i as int) =~= subs);
        Ok(())
    }
}

impl MarkdownSections {
    /// Takes the first queued subtree: cuts its own subtrees out of it and
    /// names them (see `assign_slugs`), and gives the markdown to parse for
    /// it, which shares the root's reference definitions. `None` when the
    /// queue is empty.
    pub fn next_subtree(&mut self) -> (r: Result<Option<SubtreeJob>, SectionsError>)
        requires
            old(self).pending@.len() > 0 ==> old(self).pending@[0].subtree.body@.len()
                < usize::MAX,
        ensures
            old(self).pending@.len() == 0 ==> (r matches Ok(None) && *final(self) == *old(self)),
            old(self).pending@.len() > 0 ==> {
                let p = old(self).pending@[0];
                let src = p.subtree.source_slug@;
                match extract_spec(p.subtree.body@, p.base@, src) {
                    Err(e) => r matches Err(SectionsError::Subtree(x)) && x.model() == e,
                    Ok((root, subs)) => match assign_slugs(
                        subs,
                        src,
                        old(self).anonymous.next as nat,
                        slug_views(old(self).used@),
                    ) {
                        None => r matches Err(SectionsError::TooManyAnonymous { source })
                            && source@ == old(self).source_slug@,
                        Some((assigned, next, used)) => {
                            &&& r matches Ok(Some(job))
                            &&& job.subtree.model() == p.subtree.model()
                            &&& job.base@ == p.base@
                            &&& job.source@ == compose_spec(root, old(self).shared@)
                            &&& models(job.nested@) == assigned
                            &&& final(self).anonymous.next == next
                            &&& slug_views(final(self).used@) == used
                            &&& pending_views(final(self).pending@) == pending_views(
                                old(self).pending@,
                            ).drop_first()
                            &&& final(self).sections == old(self).sections
                            &&& final(self).source_slug@ == old(self).source_slug@
                            &&& final(self).shared == old(self).shared
                        },
                    },
                }
            },
    {
        if self.pending.len() == 0 {
            return Ok(None);
        }
        let ghost pv = pending_views(self.pending@);
        let ghost before = self.pending@;
        let p = self.pending.remove(0);
        assert(pending_views(self.pending@) =~= pv.drop_first()) by {
            assert forall|k: int| 0 <= k < pv.len() - 1 implies pending_views(self.pending@)[k]
                == pv.drop_first()[k] by {
                assert(self.pending@[k] == before[k + 1]);
            }
        }
        let PendingSubtree { subtree, base } = p;
        let src = subtree.source_slug.duplicate();
        let extracted = match extract_subtrees_nested(subtree.body.as_str(), &base, &src) {
            Ok(x) => x,
            Err(e) => {
                return Err(SectionsError::Subtree(e));
            },
        };
        let ghost subs = models(extracted.subtrees@);
        let ghost root_src = extracted.root_source@;
        let ghost next0 = self.anonymous.next as nat;
        let ghost used0 = slug_views(self.used@);
        let ghost sections = self.sections;
        let ghost shared = self.shared;
        let ghost pend = self.pending;
        let count = extracted.subtrees.len();
        let mut rest = extracted.subtrees;
        let mut nested: Vec<SubtreeSpec> = Vec::new();
        let mut i: usize = 0;
        assert(subs.skip(0) =~= subs);
        assert(subs.take(0) =~= Seq::<SubtreeModel>::empty());
        assert(models(nested@) =~= Seq::<SubtreeModel>::empty());
        while rest.len() > 0
            invariant
                i <= subs.len(),
                subs.len() == count,
                models(rest@) == subs.skip(i as int),
                src@ == subtree.source_slug@,
                assign_slugs(subs.take(i as int), src@, next0, used0) == Some(
                    (models(nested@), self.anonymous.next as nat, slug_views(self.used@)),
                ),
                self.sections == sections,
                self.shared == shared,
                self.pending == pend,
                self.source_slug@ == old(self).source_slug@,
                old(self).pending@.len() > 0,
                subtree.model() == old(self).pending@[0].subtree.model(),
                base@ == old(self).pending@[0].base@,
                extract_spec(subtree.body@, base@, src@) == Ok::<
                    (Seq<char>, Seq<SubtreeModel>),
                    crate::subtree::SubtreeErrorModel,
                >((root_src, subs)),
                next0 == old(self).anonymous.next as nat,
                used0 == slug_views(old(self).used@),
            decreases rest@.len(),
        {
            let ghost rb = rest@;
            assert(models(rb).len() == rb.len());
            assert(i < subs.len());
            let mut n = rest.remove(0);
            assert(subs[i as int] == n.model()) by {
                assert(models(rb)[0] == rb[0].model());
                assert(subs.skip(i as int)[0] == subs[i as int]);
            }
            assert forall|k: int| 0 <= k < subs.len() - (i + 1) implies models(rest@)[k]
                == subs.skip(i + 1)[k] by {
                assert(rest@[k] == rb[k + 1]);
                assert(models(rb)[k + 1] == subs.skip(i as int)[k + 1]);
            }
            assert(models(rest@) =~= subs.skip(i + 1));
            let ghost m = n.model();
            let ghost nb = models(nested@);
            let ghost ub = slug_views(self.used@);
            let ghost kb = self.anonymous.next as nat;
            assert(subs.take(i + 1).drop_last() =~= subs.take(i as int));
            assert(subs.take(i + 1).last() == m);
            n.source_slug = src.duplicate();
            if n.anonymous && contains_slug(&self.used, &n.slug) {
                let room = usize::MAX - self.used.len();
                if room == 0 || self.anonymous.next > room - 1 {
                    proof {
                        assert(assign_one(m, src@, kb, ub) is None);
                        lemma_assign_none(subs, i + 1, src@, next0, used0);
                    }
                    return Err(
                        SectionsError::TooManyAnonymous {
                            source: crate::text::owned(self.source_slug.as_str()),
                        },
                    );
                }
                n.slug = self.anonymous.allocate_with_used(&src, &mut self.used);
            } else {
                self.used.push(n.slug.duplicate());
                assert(slug_views(self.used@) =~= ub.push(m.slug));
            }
            nested.push(n);
            assert(models(nested@) =~= nb.push(n.model()));
            i = i + 1;
        }
        proof {
            assert(subs.take(i as int) =~= subs);
        }
        let source = compose_subtree_source(extracted.root_source.as_str(), self.shared.as_str());
        Ok(Some(SubtreeJob { subtree, base, source, nested }))
    }
}

impl MarkdownSections {
    /// Takes the parsed section of a subtree: points its placeholders at the
    /// nested subtrees, gives it the metadata its tag set, records it, and
    /// queues the nested subtrees.
    pub fn finish_subtree(&mut self, job: SubtreeJob, section: UnresolvedSection) -> (r: Result<
        (),
        SectionsError,
    >)
        ensures
            match patch_outcome(section.content.model(), models(job.nested@)) {
                Err(e) => r matches Err(SectionsError::Patch(x)) && x == e,
                Ok(c) => {
                    &&& r is Ok
                    &&& section_slugs(final(self).sections@) == section_slugs(
                        old(self).sections@,
                    ).push(job.subtree.slug@)
                    &&& final(self).sections@.last().1.content.model() == c
                    &&& meta_model(final(self).sections@.last().1.metadata.0@)
                        == subtree_section_meta(meta_model(section.metadata.0@), job.subtree.model())
                    &&& pending_views(final(self).pending@) == pending_views(old(self).pending@)
                        + queued(models(job.nested@), job.base@)
                    &&& final(self).used == old(self).used
                    &&& final(self).anonymous == old(self).anonymous
                    &&& final(self).source_slug@ == old(self).source_slug@
                    &&& final(self).shared == old(self).shared
                },
            },
    {
        let SubtreeJob { subtree, base, source: _, nested } = job;
        let mut section = section;
        match patch(&mut section, &nested) {
            Err(e) => {
                return Err(SectionsError::Patch(e));
            },
            Ok(()) => {},
        }
        apply_subtree_defaults(&mut section, &subtree);
        let count = nested.len();
        let ghost subs = models(nested@);
        let ghost p0 = pending_views(self.pending@);
        let mut rest = nested;
        let mut i: usize = 0;
        assert(subs.skip(0) =~= subs);
        assert(queued(subs.take(0), base@) =~= Seq::<(SubtreeModel, Seq<char>)>::empty());
        while rest.len() > 0
            invariant
                i <= subs.len(),
                subs.len() == count,
                models(rest@) == subs.skip(i as int),
                pending_views(self.pending@) == p0 + queued(subs.take(i as int), base@),
                self.sections == old(self).sections,
                self.used == old(self).used,
                self.anonymous == old(self).anonymous,
                self.shared == old(self).shared,
                self.source_slug == old(self).source_slug,
            decreases rest@.len(),
        {
            let ghost rb = rest@;
            let ghost pv = pending_views(self.pending@);
            assert(models(rb).len() == rb.len());
            assert(i < subs.len());
            let n = rest.remove(0);
            assert(subs[i as int] == n.model()) by {
                assert(models(rb)[0] == rb[0].model());
                assert(subs.skip(i as int)[0] == subs[i as int]);
            }
            assert forall|k: int| 0 <= k < subs.len() - (i + 1) implies models(rest@)[k]
                == subs.skip(i + 1)[k] by {
                assert(rest@[k] == rb[k + 1]);
                assert(models(rb)[k + 1] == subs.skip(i as int)[k + 1]);
            }
            assert(models(rest@) =~= subs.skip(i + 1));
            let next_base = if n.anonymous {
                base.duplicate()
            } else {
                n.slug.duplicate()
            };
            self.pending.push(PendingSubtree { subtree: n, base: next_base });
            assert(subs.take(i + 1) =~= subs.take(i as int).push(subs[i as int]));
            assert(pending_views(self.pending@) =~= pv.push((subs[i as int], next_base@)));
            assert(queued(subs.take(i + 1), base@) =~= queued(subs.take(i as int), base@).push(
                (subs[i as int], next_base@),
            ));
            i = i + 1;
        }
        assert(subs.take(i as int) =~= subs);
        let ghost s0 = section_slugs(self.sections@);
        self.sections.push((subtree.slug.duplicate(), section));
        assert(section_slugs(self.sections@) =~= s0.push(subtree.slug@));
        Ok(())
    }

    /// The sections, root first, when no two have the same slug.
    pub fn finish(self) -> (r: Result<Vec<(Slug, UnresolvedSection)>, SectionsError>)
        ensures
            match first_repeat(section_slugs(self.sections@)) {
                Some(s) => r matches Err(SectionsError::DuplicateSlug { slug, source }) && slug@
                    == s && source@ == self.source_slug@,
                None => r matches Ok(v) && v@ == self.sections@,
            },
            r is Ok ==> forall|i: int, j: int|
                0 <= i < j < self.sections@.len() ==> self.sections@[i].0@
                    != self.sections@[j].0@,
    {
        let ghost all = section_slugs(self.sections@);
        let mut i: usize = 0;
        while i < self.sections.len()
            invariant
                i <= self.sections@.len(),
                all == section_slugs(self.sections@),
                first_repeat(all.take(i as int)) is None,
            decreases self.sections@.len() - i,
        {
            let mut j: usize = 0;
            while j < i
                invariant
                    j <= i < self.sections@.len(),
                    all == section_slugs(self.sections@),
                    first_repeat(all.take(i as int)) is None,
                    forall|k: int| 0 <= k < j ==> all[k] != all[i as int],
                decreases i - j,
            {
                if self.sections[j].0.same(&self.sections[i].0) {
                    proof {
                        assert(all.take(i + 1).drop_last() =~= all.take(i as int));
                        assert(all.take(i as int)[j as int] == all[i as int]);
                        assert(all.take(i as int).contains(all[i as int]));
                        assert(all.take(i + 1).last() == all[i as int]);
                        assert(first_repeat(all.take(i + 1)) == Some(all[i as int]));
                        lemma_first_repeat_prefix(all, i + 1);
                        assert(all[i as int] == self.sections@[i as int].0@);
                    }
                    return Err(
                        SectionsError::DuplicateSlug {
                            slug: crate::text::owned(self.sections[i].0.as_str()),
                            source: crate::text::owned(self.source_slug.as_str()),
                        },
                    );
                }
                j = j + 1;
            }
            proof {
                assert(all.take(i + 1).drop_last() =~= all.take(i as int));
                if all.take(i as int).contains(all[i as int]) {
                    let k = choose|k: int| 0 <= k < i && all.take(i as int)[k] == all[i as int];
                    assert(all[k] == all[i as int]);
                }
            }
            i = i + 1;
        }
        proof {
            assert(all.take(i as int) =~= all);
            lemma_first_repeat_none(all);
            assert forall|a: int, b: int| 0 <= a < b < self.sections@.len() implies self.sections@[a].0@
                != self.sections@[b].0@ by {
                assert(all[a] == self.sections@[a].0@ && all[b] == self.sections@[b].0@);
            }
        }
        Ok(self.sections)
    }
}

/// A repeat found in a prefix is the first repeat of the whole.
proof fn lemma_first_repeat_prefix(s: Seq<Seq<char>>, k: int)
    requires
        0 <= k <= s.len(),
        first_repeat(s.take(k)) is Some,
    ensures
        first_repeat(s) == first_repeat(s.take(k)),
    decreases s.len(),
{
    if k == s.len() {
        assert(s.take(k) =~= s);
    } else {
        assert(s.drop_last().take(k) =~= s.take(k));
        lemma_first_repeat_prefix(s.drop_last(), k);
    }
}

/// The sentence that says what went wrong.
pub open spec fn sections_message_spec(e: SectionsError) -> Seq<char> {
    match e {
        SectionsError::Subtree(x) => crate::subtree::subtree_message_spec(x.model()),
        SectionsError::Patch(x) => crate::sections::patch_message_spec(x),
        SectionsError::TooManyAnonymous { source } => "too many anonymous subtrees in `"@ + source@
            + "`"@,
        SectionsError::DuplicateSlug { slug, source } => "duplicate subtree slug `"@ + slug@
            + "` generated from `"@ + source@ + "`"@,
    }
}

impl SectionsError {
    /// A sentence that says what went wrong.
    pub fn message(&self) -> (r: String)
        ensures
            r@ == sections_message_spec(*self),
    {
        match self {
            SectionsError::Subtree(e) => e.message(),
            SectionsError::Patch(e) => e.message(),
            SectionsError::TooManyAnonymous { source } => {
                let mut v: Vec<char> = Vec::new();
                crate::text::push_str(&mut v, "too many anonymous subtrees in `");
                crate::text::push_str(&mut v, source.as_str());
                crate::text::push_str(&mut v, "`");
                assert(v@ =~= sections_message_spec(*self));
                crate::text::string_of(v.as_slice())
            },
            SectionsError::DuplicateSlug { slug, source } => {
                let mut v: Vec<char> = Vec::new();
                crate::text::push_str(&mut v, "duplicate subtree slug `");
                crate::text::push_str(&mut v, slug.as_str());
                crate::text::push_str(&mut v, "` generated from `");
                crate::text::push_str(&mut v, source.as_str());
                crate::text::push_str(&mut v, "`");
                assert(v@ =~= sections_message_spec(*self));
                crate::text::string_of(v.as_slice())
            },
        }
    }
}

} // verus!
