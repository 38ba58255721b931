//! The site graph: for each compiled section that readers see, its parent,
//! and the sections it references and that link back to it, all sorted.
//! Anonymous subtree sections are left out; a section whose parent is one
//! gets the first visible ancestor instead.
use vstd::prelude::*;

use crate::callback::slug_set;
use crate::compile::{lemma_text_lookup, parent_of, text_pairs, CompileState, StateModel};
use crate::order::{chars_lt, lemma_seq_lt_irreflexive, lemma_seq_lt_total, lemma_seq_lt_transitive, seq_lt};
use crate::ordered_map::{keys_of, lookup};
use crate::slug::Slug;
use crate::text::str_eq;
use crate::anonymous::slug_views;

verus! {

/// Whether a compiled section is an anonymous subtree.
pub open spec fn is_internal(st: StateModel, s: Seq<char>) -> bool {
    st.compiled.contains_key(s) && lookup(st.compiled[s].meta, crate::typst_html::anon_key())
        == Some("true"@)
}

/// The first visible section on the way up from `p`, looking at most
/// `fuel` sections up.
pub open spec fn climb(st: StateModel, p: Seq<char>, fuel: nat) -> Option<Seq<char>>
    decreases fuel,
{
    if !is_internal(st, p) {
        Some(p)
    } else if fuel == 0 {
        None
    } else {
        climb(st, parent_of(st, p), (fuel - 1) as nat)
    }
}

/// Strictly increasing in the order of `str`.
pub open spec fn strictly_sorted(s: Seq<Seq<char>>) -> bool {
    forall|i: int, j: int| 0 <= i < j < s.len() ==> seq_lt(#[trigger] s[i], #[trigger] s[j])
}

/// `s` lists the members of `set` in increasing order.
pub open spec fn sorted_listing(s: Seq<Seq<char>>, set: Set<Seq<char>>) -> bool {
    strictly_sorted(s) && forall|x: Seq<char>| #[trigger] s.contains(x) <==> set.contains(x)
}

/// The visible members of a set of slugs.
pub open spec fn visible(st: StateModel, set: Set<Seq<char>>) -> Set<Seq<char>> {
    set.filter(|x: Seq<char>| !is_internal(st, x))
}

/// The sections of the graph: the visible compiled sections.
pub open spec fn graph_keys(st: StateModel) -> Set<Seq<char>> {
    visible(st, st.compiled.dom())
}

pub open spec fn backlink_set(st: StateModel, slug: Seq<char>) -> Set<Seq<char>> {
    if st.callback.contains_key(slug) {
        st.callback[slug].backlinks
    } else {
        Set::empty()
    }
}

/// Every visible section reaches a visible ancestor within `n` steps (the
/// chain of anonymous parents has no cycle).
pub open spec fn parents_resolve(st: StateModel, n: nat) -> bool {
    forall|s: Seq<char>| #[trigger] graph_keys(st).contains(s) ==> climb(st, parent_of(st, s), n) is Some
}

/// The graph entry of one section.
#[derive(Debug)]
pub struct GraphSection {
    pub parent: Slug,
    pub parent_specified: bool,
    pub references: Vec<Slug>,
    pub backlinks: Vec<Slug>,
}

/// What the graph says of `slug`: `g` is its entry.
pub open spec fn graph_entry(st: StateModel, n: nat, slug: Seq<char>, g: GraphSection) -> bool {
    &&& climb(st, parent_of(st, slug), n) == Some(g.parent@)
    &&& g.parent_specified == (st.callback.contains_key(slug) && st.callback[slug].specified)
    &&& sorted_listing(slug_views(g.references@), visible(st, st.compiled[slug].refs))
    &&& sorted_listing(slug_views(g.backlinks@), visible(st, backlink_set(st, slug)))
}

/// The site graph, sections sorted by slug.
#[derive(Debug)]
pub struct GraphSnapshot {
    pub sections: Vec<(Slug, GraphSection)>,
}

pub open spec fn entry_keys(v: Seq<(Slug, GraphSection)>) -> Seq<Seq<char>> {
    v.map_values(|e: (Slug, GraphSection)| e.0@)
}

/// Inserts `x` into a strictly sorted list unless it is there already.
fn insert_sorted(out: &mut Vec<Slug>, x: &Slug)
    requires
        strictly_sorted(slug_views(old(out)@)),
    ensures
        strictly_sorted(slug_views(final(out)@)),
        slug_set(final(out)@) == slug_set(old(out)@).insert(x@),
{
    let ghost o = slug_views(out@);
    let xv = x.chars();
    let mut k: usize = 0;
    while k < out.len()
        invariant
            k <= out@.len(),
            o == slug_views(out@),
            xv@ == x@,
            forall|j: int| 0 <= j < k ==> !seq_lt(x@, #[trigger] o[j]),
        ensures
            k <= out@.len(),
            forall|j: int| 0 <= j < k ==> !seq_lt(x@, #[trigger] o[j]),
            k < out@.len() ==> seq_lt(x@, o[k as int]),
        decreases out.len() - k,
    {
        let ov = out[k].chars();
        if chars_lt(xv.as_slice(), ov.as_slice()) {
            break;
        }
        k = k + 1;
    }
    // every element before `k` is at most `x`; `x` is below the element at `k`
    if k > 0 && out[k - 1].same(x) {
        assert(slug_set(out@).insert(x@) =~= slug_set(out@)) by {
            assert(out@[k - 1]@ == x@);
        }
        return;
    }
    proof {
        assert forall|j: int| 0 <= j < k implies seq_lt(#[trigger] o[j], x@) by {
            lemma_seq_lt_total(o[j], x@);
            if o[j] == x@ {
                if j < k - 1 {
                    lemma_seq_lt_total(o[k - 1], x@);
                    assert(seq_lt(o[j], o[k - 1]));
                    if seq_lt(x@, o[k - 1]) {
                    } else if o[k - 1] == x@ {
                    } else {
                        lemma_seq_lt_transitive(o[k - 1], x@, o[k - 1]);
                        lemma_seq_lt_irreflexive(o[k - 1]);
                    }
                }
            }
        }
    }
    let ghost before = out@;
    out.insert(k, x.duplicate());
    proof {
        let n = slug_views(out@);
        assert(n =~= o.take(k as int).push(x@) + o.skip(k as int));
        assert forall|a: int, b: int| 0 <= a < b < n.len() implies seq_lt(#[trigger] n[a], #[trigger] n[b]) by {
            if b < k {
                assert(n[a] == o[a] && n[b] == o[b]);
            } else if b == k {
                assert(n[a] == o[a]);
            } else if a == k {
                assert(n[b] == o[b - 1]);
                if b - 1 > k {
                    assert(seq_lt(o[k as int], o[b - 1]));
                    lemma_seq_lt_transitive(x@, o[k as int], o[b - 1]);
                }
            } else if a < k {
                assert(n[a] == o[a] && n[b] == o[b - 1]);
                if b - 1 >= k {
                    assert(seq_lt(o[a], x@));
                    if b - 1 > k {
                        assert(seq_lt(o[k as int], o[b - 1]));
                        lemma_seq_lt_transitive(x@, o[k as int], o[b - 1]);
                    }
                    lemma_seq_lt_transitive(o[a], x@, o[b - 1]);
                }
            } else {
                assert(n[a] == o[a - 1] && n[b] == o[b - 1]);
            }
        }
        assert forall|y: Seq<char>| slug_set(out@).contains(y) <==> slug_set(before).insert(x@).contains(y) by {
            if slug_set(out@).contains(y) {
                let i = choose|i: int| 0 <= i < out@.len() && #[trigger] out@[i]@ == y;
                if i < k {
                    assert(before[i]@ == y);
                } else if i > k {
                    assert(before[i - 1]@ == y);
                }
            }
            if slug_set(before).contains(y) {
                let i = choose|i: int| 0 <= i < before.len() && #[trigger] before[i]@ == y;
                if i < k {
                    assert(out@[i]@ == y);
                } else {
                    assert(out@[i + 1]@ == y);
                }
            }
            if y == x@ {
                assert(out@[k as int]@ == y);
            }
        }
        assert(slug_set(out@) =~= slug_set(before).insert(x@));
    }
}

pub proof fn lemma_sorted_listing(s: Seq<Seq<char>>, v: Seq<Slug>)
    requires
        s == slug_views(v),
    ensures
        forall|x: Seq<char>| #[trigger] s.contains(x) <==> slug_set(v).contains(x),
{
    assert forall|x: Seq<char>| #[trigger] s.contains(x) <==> slug_set(v).contains(x) by {
        if s.contains(x) {
            let i = choose|i: int| 0 <= i < s.len() && s[i] == x;
            assert(v[i]@ == x);
        }
        if slug_set(v).contains(x) {
            let i = choose|i: int| 0 <= i < v.len() && #[trigger] v[i]@ == x;
            assert(s[i] == x);
        }
    }
}

impl CompileState {
    /// Whether `slug` is a compiled anonymous subtree section.
    pub fn is_internal(&self, slug: &Slug) -> (r: bool)
        ensures
            r == is_internal(self.model(), slug@),
    {
        let _ = self.compiled.len();
        match self.compiled.get(slug.as_str()) {
            None => false,
            Some(section) => {
                let _ = section.metadata.0.len();
                proof {
                    lemma_text_lookup(section.metadata.0@, crate::typst_html::anon_key());
                    reveal_strlit("true");
                }
                match section.metadata.0.get(crate::typst_html::key_internal_anon_subtree()) {
                    Some(v) => str_eq(v.as_str(), "true"),
                    None => false,
                }
            },
        }
    }

    fn parent_slug(&self, slug: &Slug) -> (r: Slug)
        ensures
            r@ == parent_of(self.model(), slug@),
    {
        proof {
            reveal_strlit("index");
        }
        match self.callback.get(slug) {
            Some(v) => v.parent.duplicate(),
            None => Slug::new("index"),
        }
    }

    /// The visible members of `v`, sorted.
    fn visible_sorted(&self, v: &Vec<Slug>) -> (r: Vec<Slug>)
        ensures
            sorted_listing(slug_views(r@), visible(self.model(), slug_set(v@))),
    {
        let mut out: Vec<Slug> = Vec::new();
        let mut i: usize = 0;
        while i < v.len()
            invariant
                i <= v@.len(),
                strictly_sorted(slug_views(out@)),
                slug_set(out@) == visible(self.model(), slug_set(v@.take(i as int))),
            decreases v.len() - i,
        {
            proof {
                assert(v@.take(i + 1) =~= v@.take(i as int).push(v@[i as int]));
                crate::callback::lemma_slug_set_push(v@.take(i as int), v@[i as int]);
            }
            if !self.is_internal(&v[i]) {
                insert_sorted(&mut out, &v[i]);
                assert(slug_set(out@) =~= visible(self.model(), slug_set(v@.take(i + 1))));
            } else {
                assert(slug_set(out@) =~= visible(self.model(), slug_set(v@.take(i + 1))));
            }
            i = i + 1;
        }
        assert(v@.take(i as int) =~= v@);
        proof {
            lemma_sorted_listing(slug_views(out@), out@);
        }
        out
    }
}

/// The site graph.
pub fn graph_snapshot(state: &CompileState) -> (r: GraphSnapshot)
    requires
        parents_resolve(state.model(), state.compiled@.len()),
    ensures
        sorted_listing(entry_keys(r.sections@), graph_keys(state.model())),
        forall|i: int|
            0 <= i < r.sections@.len() ==> graph_entry(
                state.model(),
                state.compiled@.len(),
                #[trigger] r.sections@[i].0@,
                r.sections@[i].1,
            ),
{
    let ghost st = state.model();
    let n = state.compiled.len();
    let keys = state.compiled.keys();
    let mut slugs: Vec<Slug> = Vec::new();
    let mut i: usize = 0;
    while i < keys.len()
        invariant
            i <= keys@.len(),
            crate::ordered_map::string_views(keys@) == keys_of(state.compiled@),
            forall|x: Seq<char>|
                #[trigger] slug_set(slugs@).contains(x) <==> crate::ordered_map::string_views(
                    keys@,
                ).take(i as int).contains(x),
        decreases keys.len() - i,
    {
        let ghost s0 = slugs@;
        slugs.push(Slug::new(keys[i].as_str()));
        proof {
            crate::callback::lemma_slug_set_push(s0, slugs@.last());
            assert(slugs@ =~= s0.push(slugs@.last()));
            let ks = crate::ordered_map::string_views(keys@);
            assert(ks.take(i + 1) =~= ks.take(i as int).push(ks[i as int]));
            assert forall|x: Seq<char>|
                #[trigger] slug_set(slugs@).contains(x) <==> ks.take(i + 1).contains(x) by {
                let a = ks.take(i + 1);
                let b = ks.take(i as int);
                assert(slug_set(s0).contains(x) <==> b.contains(x));
                assert(slugs@.last()@ == ks[i as int]);
                assert(slug_set(slugs@).contains(x) <==> (slug_set(s0).contains(x) || x == ks[i as int]));
                assert(a[i as int] == ks[i as int]);
                if a.contains(x) && x != ks[i as int] {
                    let w = choose|w: int| 0 <= w < a.len() && #[trigger] a[w] == x;
                    assert(b[w] == x);
                }
                if b.contains(x) {
                    let w = choose|w: int| 0 <= w < b.len() && #[trigger] b[w] == x;
                    assert(a[w] == x);
                }
            }
        }
        i = i + 1;
    }
    proof {
        let ks = crate::ordered_map::string_views(keys@);
        assert(ks.take(i as int) =~= ks);
        assert forall|x: Seq<char>| slug_set(slugs@).contains(x) <==> st.compiled.dom().contains(x) by {
            if ks.contains(x) {
                let j = choose|j: int| 0 <= j < ks.len() && ks[j] == x;
                assert(keys_of(state.compiled@)[j] == x);
                crate::ordered_map::lemma_lookup_at(state.compiled@, j);
            }
            if st.compiled.dom().contains(x) {
                let j = crate::ordered_map::index_of_key(state.compiled@, x)->0;
                assert(keys_of(state.compiled@)[j] == x);
                assert(ks[j] == x);
            }
        }
        assert(slug_set(slugs@) =~= st.compiled.dom());
    }
    let order = state.visible_sorted(&slugs);
    let mut sections: Vec<(Slug, GraphSection)> = Vec::new();
    let mut j: usize = 0;
    while j < order.len()
        invariant
            j <= order@.len(),
            st == state.model(),
            n == state.compiled@.len(),
            parents_resolve(st, n as nat),
            sorted_listing(slug_views(order@), graph_keys(st)),
            entry_keys(sections@) == slug_views(order@).take(j as int),
            forall|k: int|
                0 <= k < sections@.len() ==> graph_entry(
                    st,
                    n as nat,
                    #[trigger] sections@[k].0@,
                    sections@[k].1,
                ),
        decreases order.len() - j,
    {
        let slug = &order[j];
        assert(slug_views(order@).contains(slug@)) by {
            assert(slug_views(order@)[j as int] == slug@);
        }
        assert(graph_keys(st).contains(slug@));
        let _ = state.compiled.len();
        let section = match state.compiled.get(slug.as_str()) {
            Some(s) => s,
            None => {
                return GraphSnapshot { sections };
            },
        };
        let mut parent = state.parent_slug(slug);
        let mut fuel: usize = n;
        while state.is_internal(&parent)
            invariant
                st == state.model(),
                fuel <= n,
                climb(st, parent@, fuel as nat) == climb(st, parent_of(st, slug@), n as nat),
                climb(st, parent@, fuel as nat) is Some,
            decreases fuel,
        {
            parent = state.parent_slug(&parent);
            fuel = fuel - 1;
        }
        let (specified, backlinks) = match state.callback.get(slug) {
            Some(v) => (v.is_parent_specified, state.visible_sorted(&v.backlinks)),
            None => {
                let empty: Vec<Slug> = Vec::new();
                assert(slug_set(empty@) =~= Set::<Seq<char>>::empty());
                (false, state.visible_sorted(&empty))
            },
        };
        let references = state.visible_sorted(&section.references);
        let g = GraphSection { parent, parent_specified: specified, references, backlinks };
        let ghost s0 = sections@;
        sections.push((slug.duplicate(), g));
        proof {
            assert(entry_keys(sections@) =~= entry_keys(s0).push(slug@));
            assert(slug_views(order@).take(j + 1) =~= slug_views(order@).take(j as int).push(slug@));
        }
        j = j + 1;
    }
    assert(slug_views(order@).take(j as int) =~= slug_views(order@));
    GraphSnapshot { sections }
}

/// Whether every visible section reaches a visible ancestor: what
/// [`graph_snapshot`] needs of the state.
pub fn parents_resolve_check(state: &CompileState) -> (r: bool)
    ensures
        r == parents_resolve(state.model(), state.compiled@.len()),
{
    let ghost st = state.model();
    let n = state.compiled.len();
    let keys = state.compiled.keys();
    assert(crate::ordered_map::string_views(keys@).len() == keys@.len());
    assert(keys_of(state.compiled@).len() == state.compiled@.len());
    let mut i: usize = 0;
    while i < keys.len()
        invariant
            i <= keys@.len(),
            keys@.len() == state.compiled@.len(),
            st == state.model(),
            n == state.compiled@.len(),
            crate::ordered_map::unique_keys(state.compiled@),
            crate::ordered_map::string_views(keys@) == keys_of(state.compiled@),
            forall|j: int|
                0 <= j < i ==> #[trigger] graph_keys(st).contains(keys@[j]@) ==> climb(
                    st,
                    parent_of(st, keys@[j]@),
                    n as nat,
                ) is Some,
        decreases keys.len() - i,
    {
        let slug = Slug::new(keys[i].as_str());
        proof {
            assert(keys_of(state.compiled@)[i as int] == keys@[i as int]@);
            crate::ordered_map::lemma_lookup_at(state.compiled@, i as int);
        }
        if !state.is_internal(&slug) {
            assert(st.compiled.contains_key(slug@));
            assert(graph_keys(st).contains(slug@));
            let mut parent = state.parent_slug(&slug);
            let mut fuel: usize = n;
            while state.is_internal(&parent)
                invariant
                    st == state.model(),
                    n == state.compiled@.len(),
                    fuel <= n,
                    graph_keys(st).contains(slug@),
                    climb(st, parent@, fuel as nat) == climb(st, parent_of(st, slug@), n as nat),
                decreases fuel,
            {
                if fuel == 0 {
                    assert(climb(st, parent@, 0nat) is None);
                    assert(!parents_resolve(st, n as nat));
                    return false;
                }
                parent = state.parent_slug(&parent);
                fuel = fuel - 1;
            }
        }
        i = i + 1;
    }
    proof {
        assert forall|s: Seq<char>| #[trigger] graph_keys(st).contains(s) implies climb(st, parent_of(st, s), n as nat) is Some by {
            let j = crate::ordered_map::index_of_key(state.compiled@, s)->0;
            assert(0 <= j < state.compiled@.len());
            assert(state.compiled@[j].0 == s);
            assert(keys_of(state.compiled@)[j] == s);
            assert(crate::ordered_map::string_views(keys@)[j] == keys@[j]@);
            assert(keys@[j]@ == s);
        }
    }
    true
}

} // verus!
