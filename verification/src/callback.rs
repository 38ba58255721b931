//! What compiling a section tells about other sections: the parent each
//! section is shown under, and the sections that link back to it.
use vstd::prelude::*;

use crate::ordered_map::{
    law_get_after_insert, law_insert_keeps_others, lookup, unique_keys, OrderedMap,
};
use crate::slug::Slug;
use crate::text::{chars_of, owned, seq_eq};

verus! {

/// A parent, whether a section chose it itself, and the slugs linking back.
pub struct ValueModel {
    pub parent: Seq<char>,
    pub specified: bool,
    pub backlinks: Set<Seq<char>>,
}

#[derive(Debug)]
pub struct CallbackValue {
    pub parent: Slug,
    pub is_parent_specified: bool,
    /// The sections that reference this one; each occurs once.
    pub backlinks: Vec<Slug>,
}

pub open spec fn slug_set(v: Seq<Slug>) -> Set<Seq<char>> {
    Set::new(|x: Seq<char>| exists|i: int| 0 <= i < v.len() && #[trigger] v[i]@ == x)
}

pub proof fn lemma_slug_set_push(v: Seq<Slug>, s: Slug)
    ensures
        slug_set(v.push(s)) == slug_set(v).insert(s@),
{
    let w = v.push(s);
    assert forall|x: Seq<char>| slug_set(w).contains(x) <==> slug_set(v).insert(s@).contains(x) by {
        if slug_set(w).contains(x) {
            let i = choose|i: int| 0 <= i < w.len() && #[trigger] w[i]@ == x;
            if i < v.len() {
                assert(v[i]@ == x);
            }
        }
        if slug_set(v).contains(x) {
            let i = choose|i: int| 0 <= i < v.len() && #[trigger] v[i]@ == x;
            assert(w[i]@ == x);
        }
        if x == s@ {
            assert(w[v.len() as int]@ == x);
        }
    }
    assert(slug_set(w) =~= slug_set(v).insert(s@));
}

impl CallbackValue {
    pub open spec fn model(&self) -> ValueModel {
        ValueModel {
            parent: self.parent@,
            specified: self.is_parent_specified,
            backlinks: slug_set(self.backlinks@),
        }
    }
}

/// The parent named `index` counts as "no parent chosen yet".
pub open spec fn index_slug() -> Seq<char> {
    "index"@
}

/// Combining what is known of a section with a new report: backlinks
/// accumulate; a chosen parent stays; otherwise a chosen parent in the
/// report wins, and a report replaces the `index` default.
pub open spec fn merge_value(existed: ValueModel, value: ValueModel) -> ValueModel {
    let bl = existed.backlinks.union(value.backlinks);
    if existed.specified {
        ValueModel { parent: existed.parent, specified: true, backlinks: bl }
    } else if value.specified {
        ValueModel { parent: value.parent, specified: true, backlinks: bl }
    } else if existed.parent == index_slug() {
        ValueModel { parent: value.parent, specified: false, backlinks: bl }
    } else {
        ValueModel { parent: existed.parent, specified: false, backlinks: bl }
    }
}

/// Two reports conflict when both choose a parent and the parents differ.
pub open spec fn conflicts(existed: Option<ValueModel>, value: ValueModel) -> bool {
    match existed {
        Some(e) => e.specified && value.specified && e.parent != value.parent,
        None => false,
    }
}

/// The reports after adding one.
pub open spec fn insert_model(m: Map<Seq<char>, ValueModel>, k: Seq<char>, v: ValueModel) -> Map<
    Seq<char>,
    ValueModel,
> {
    if m.contains_key(k) {
        m.insert(k, merge_value(m[k], v))
    } else {
        m.insert(k, v)
    }
}

#[derive(Debug)]
pub struct Callback {
    entries: OrderedMap<CallbackValue>,
}

pub open spec fn as_model_map(s: Seq<(Seq<char>, CallbackValue)>) -> Map<Seq<char>, ValueModel> {
    Map::new(|k: Seq<char>| lookup(s, k) is Some, |k: Seq<char>| lookup(s, k)->0.model())
}

impl View for Callback {
    type V = Map<Seq<char>, ValueModel>;

    closed spec fn view(&self) -> Map<Seq<char>, ValueModel> {
        as_model_map(self.entries@)
    }
}

pub(crate) fn union_backlinks(a: &mut Vec<Slug>, b: Vec<Slug>)
    ensures
        slug_set(final(a)@) == slug_set(old(a)@).union(slug_set(b@)),
{
    let ghost a0 = slug_set(a@);
    let mut i: usize = 0;
    while i < b.len()
        invariant
            i <= b@.len(),
            slug_set(a@) == a0.union(slug_set(b@.take(i as int))),
        decreases b.len() - i,
    {
        let s = &b[i];
        let mut found = false;
        let mut j: usize = 0;
        while j < a.len()
            invariant
                j <= a@.len(),
                found ==> slug_set(a@).contains(s@),
                !found ==> forall|k: int| 0 <= k < j ==> a@[k]@ != s@,
            decreases a.len() - j,
        {
            if a[j].same(s) {
                found = true;
                assert(a@[j as int]@ == s@);
            }
            j = j + 1;
        }
        let ghost before = a@;
        if !found {
            a.push(s.duplicate());
            proof {
                lemma_slug_set_push(before, a@.last());
                assert(a@ =~= before.push(a@.last()));
            }
        } else {
            assert(slug_set(a@).insert(s@) =~= slug_set(a@));
        }
        proof {
            assert(b@.take(i + 1) =~= b@.take(i as int).push(*s));
            lemma_slug_set_push(b@.take(i as int), *s);
            assert(slug_set(a@) =~= a0.union(slug_set(b@.take(i + 1))));
        }
        i = i + 1;
    }
    assert(b@.take(i as int) =~= b@);
}

impl Callback {
    pub fn new() -> (r: Callback)
        ensures
            r@ == Map::<Seq<char>, ValueModel>::empty(),
    {
        let r = Callback { entries: OrderedMap::new() };
        assert(r@ =~= Map::<Seq<char>, ValueModel>::empty());
        r
    }

    /// What is known of `child`.
    pub fn get(&self, child: &Slug) -> (r: Option<&CallbackValue>)
        ensures
            self@.contains_key(child@) ==> (r matches Some(v) && v.model() == self@[child@]),
            !self@.contains_key(child@) ==> r is None,
    {
        self.entries.get(child.as_str())
    }

    /// Adds a report on `child`.
    pub fn insert(&mut self, child_slug: Slug, value: CallbackValue)
        requires
            !conflicts(
                if old(self)@.contains_key(child_slug@) {
                    Some(old(self)@[child_slug@])
                } else {
                    None
                },
                value.model(),
            ),
        ensures
            final(self)@ == insert_model(old(self)@, child_slug@, value.model()),
    {
        self.record(child_slug, value);
    }

    /// Adds a report on `child`; of two chosen parents the first stays.
    pub(crate) fn record(&mut self, child_slug: Slug, value: CallbackValue)
        ensures
            final(self)@ == insert_model(old(self)@, child_slug@, value.model()),
    {
        let ghost m0 = self@;
        let ghost s0 = self.entries@;
        let n = self.entries.len();
        let key = owned(child_slug.as_str());
        let placeholder = CallbackValue {
            parent: child_slug.duplicate(),
            is_parent_specified: false,
            backlinks: Vec::new(),
        };
        let previous = self.entries.insert(key, placeholder);
        let ghost s1 = self.entries@;
        let merged = match previous {
            None => value,
            Some(mut existed) => {
                union_backlinks(&mut existed.backlinks, value.backlinks);
                if existed.is_parent_specified {
                } else if value.is_parent_specified {
                    existed.parent = value.parent;
                    existed.is_parent_specified = true;
                } else if eq_slug_str(&existed.parent, "index") {
                    existed.parent = value.parent;
                }
                existed
            },
        };
        let key2 = owned(child_slug.as_str());
        let ghost mv = merged.model();
        self.entries.insert(key2, merged);
        proof {
            let s2 = self.entries@;
            law_get_after_insert(s1, child_slug@, merged);
            assert forall|k: Seq<char>| k != child_slug@ implies lookup(s2, k) == lookup(s0, k) by {
                law_insert_keeps_others(s0, child_slug@, placeholder, k);
                crate::ordered_map::law_insert_unique(s0, child_slug@, placeholder);
                law_insert_keeps_others(s1, child_slug@, merged, k);
            }
            crate::ordered_map::law_insert_unique(s0, child_slug@, placeholder);
            law_get_after_insert(s1, child_slug@, merged);
            assert(lookup(s2, child_slug@) == Some(merged));
            assert(as_model_map(s2) =~= insert_model(m0, child_slug@, value.model()));
        }
    }

    /// Reports that `parent` embeds `child`.
    pub fn insert_parent(&mut self, child_slug: Slug, parent: Slug)
        ensures
            final(self)@ == insert_model(
                old(self)@,
                child_slug@,
                ValueModel { parent: parent@, specified: false, backlinks: Set::empty() },
            ),
    {
        let v = CallbackValue { parent, is_parent_specified: false, backlinks: Vec::new() };
        assert(slug_set(v.backlinks@) =~= Set::<Seq<char>>::empty());
        self.insert(child_slug, v);
    }

    /// Records the parent that `child` names for itself.
    pub fn specify_parent(&mut self, child_slug: Slug, parent: Slug)
        requires
            !conflicts(
                if old(self)@.contains_key(child_slug@) {
                    Some(old(self)@[child_slug@])
                } else {
                    None
                },
                ValueModel { parent: parent@, specified: true, backlinks: Set::empty() },
            ),
        ensures
            final(self)@ == insert_model(
                old(self)@,
                child_slug@,
                ValueModel { parent: parent@, specified: true, backlinks: Set::empty() },
            ),
    {
        let v = CallbackValue { parent, is_parent_specified: true, backlinks: Vec::new() };
        assert(slug_set(v.backlinks@) =~= Set::<Seq<char>>::empty());
        self.insert(child_slug, v);
    }

    /// Records sections that link to `child`.
    pub fn insert_backlinks(&mut self, child_slug: Slug, backlinks: Vec<Slug>)
        ensures
            final(self)@ == insert_model(
                old(self)@,
                child_slug@,
                ValueModel {
                    parent: index_slug(),
                    specified: false,
                    backlinks: slug_set(backlinks@),
                },
            ),
    {
        let mut unique: Vec<Slug> = Vec::new();
        union_backlinks(&mut unique, backlinks);
        assert(slug_set(Seq::<Slug>::empty()) =~= Set::<Seq<char>>::empty());
        assert(Set::<Seq<char>>::empty().union(slug_set(backlinks@)) =~= slug_set(backlinks@));
        let v = CallbackValue { parent: Slug::new("index"), is_parent_specified: false, backlinks: unique };
        self.insert(child_slug, v);
    }
}

/// Reports on many sections combined with what is known: sections known on
/// one side only keep that, sections known on both sides are merged.
pub open spec fn merge_maps(a: Map<Seq<char>, ValueModel>, b: Map<Seq<char>, ValueModel>) -> Map<
    Seq<char>,
    ValueModel,
> {
    Map::new(
        |k: Seq<char>| a.contains_key(k) || b.contains_key(k),
        |k: Seq<char>|
            if a.contains_key(k) && b.contains_key(k) {
                merge_value(a[k], b[k])
            } else if b.contains_key(k) {
                b[k]
            } else {
                a[k]
            },
    )
}

/// No section gets two different chosen parents.
pub open spec fn mergeable(a: Map<Seq<char>, ValueModel>, b: Map<Seq<char>, ValueModel>) -> bool {
    forall|k: Seq<char>|
        a.contains_key(k) && b.contains_key(k) ==> !conflicts(Some(a[k]), #[trigger] b[k])
}

impl Callback {
    /// Adds every report of `other`.
    pub fn merge(&mut self, other: Callback)
        requires
            mergeable(old(self)@, other@),
        ensures
            final(self)@ == merge_maps(old(self)@, other@),
    {
        self.absorb(other);
    }

    /// Adds every report of `other`; of two chosen parents the first stays.
    pub(crate) fn absorb(&mut self, other: Callback)
        ensures
            final(self)@ == merge_maps(old(self)@, other@),
    {
        let ghost m0 = self@;
        let ghost om = other@;
        let ghost os = other.entries@;
        let mut v = other.entries.into_vec();
        let ghost big = v@;
        let ghost n = big.len();
        let ghost mut seen: Map<Seq<char>, ValueModel> = Map::empty();
        assert(merge_maps(m0, seen) =~= m0);
        loop
            invariant
                v@.len() <= n,
                n == big.len(),
                v@ == big.take(v@.len() as int),
                os == big.map_values(|e: (String, CallbackValue)| (e.0@, e.1)),
                unique_keys(os),
                om == as_model_map(os),
                forall|k: Seq<char>|
                    seen.contains_key(k) <==> exists|j: int|
                        v@.len() <= j < n && #[trigger] os[j].0 == k,
                forall|j: int| v@.len() <= j < n ==> seen[#[trigger] os[j].0] == os[j].1.model(),
                self@ == merge_maps(m0, seen),
            ensures
                v@.len() == 0,
            decreases v@.len(),
        {
            let ghost len0 = v@.len();
            match v.pop() {
                None => {
                    break ;
                },
                Some(e) => {
                    let (k, val) = e;
                    let ghost j = (len0 - 1) as int;
                    assert(big.take(len0 as int)[j] == e);
                    assert(os[j] == (k@, val));
                    proof {
                        crate::ordered_map::lemma_lookup_at(os, j);
                        assert(om.contains_key(k@));
                        assert(om[k@] == val.model());
                        assert(!seen.contains_key(k@)) by {
                            if seen.contains_key(k@) {
                                let jj = choose|jj: int| len0 <= jj < n && #[trigger] os[jj].0 == k@;
                                assert(os[jj].0 == os[j].0);
                            }
                        }
                    }
                    let slug = Slug::new(k.as_str());
                    let ghost mv = val.model();
                    self.record(slug, val);
                    proof {
                        let seen2 = seen.insert(k@, mv);
                        assert(self@ =~= merge_maps(m0, seen2));
                        assert forall|kk: Seq<char>|
                            seen2.contains_key(kk) <==> exists|jj: int|
                                v@.len() <= jj < n && #[trigger] os[jj].0 == kk by {
                            if kk == k@ {
                                assert(os[j].0 == kk);
                            }
                            if seen2.contains_key(kk) && kk != k@ {
                                let jj = choose|jj: int| len0 <= jj < n && #[trigger] os[jj].0 == kk;
                                assert(v@.len() <= jj);
                            }
                        }
                        assert forall|jj: int| v@.len() <= jj < n implies seen2[#[trigger] os[jj].0]
                            == os[jj].1.model() by {
                            if jj == j {
                            } else {
                                assert(os[jj].0 != os[j].0);
                            }
                        }
                        assert(v@ =~= big.take(v@.len() as int));
                        seen = seen2;
                    }
                },
            }
        }
        proof {
            assert forall|k: Seq<char>| seen.contains_key(k) <==> om.contains_key(k) by {
                if om.contains_key(k) {
                    let j = choose|j: int| 0 <= j < os.len() && os[j].0 == k;
                    assert(os[j].0 == k);
                    assert(v@.len() <= j < n);
                }
                if seen.contains_key(k) {
                    let j = choose|j: int| 0 <= j < n && #[trigger] os[j].0 == k;
                    crate::ordered_map::lemma_lookup_at(os, j);
                }
            }
            assert forall|k: Seq<char>| seen.contains_key(k) implies seen[k] == om[k] by {
                let j = choose|j: int| 0 <= j < n && #[trigger] os[j].0 == k;
                crate::ordered_map::lemma_lookup_at(os, j);
            }
            assert(seen =~= om);
        }
    }
}

fn eq_slug_str(s: &Slug, lit: &str) -> (r: bool)
    ensures
        r == (s@ == lit@),
{
    let a = s.chars();
    let b = chars_of(lit);
    seq_eq(a.as_slice(), b.as_slice())
}

// ---------------------------------------------------------------------------
// Laws
// ---------------------------------------------------------------------------
/// A parent a section chose for itself is never replaced.
pub proof fn law_specified_parent_stays(
    m: Map<Seq<char>, ValueModel>,
    k: Seq<char>,
    v: ValueModel,
)
    requires
        m.contains_key(k),
        m[k].specified,
    ensures
        insert_model(m, k, v)[k].parent == m[k].parent,
        insert_model(m, k, v)[k].specified,
{
}

/// Backlinks are never lost: the backlinks after a report hold those before
/// it and those it brings.
pub proof fn law_backlinks_accumulate(m: Map<Seq<char>, ValueModel>, k: Seq<char>, v: ValueModel)
    ensures
        insert_model(m, k, v).contains_key(k),
        m.contains_key(k) ==> insert_model(m, k, v)[k].backlinks == m[k].backlinks.union(
            v.backlinks,
        ),
        !m.contains_key(k) ==> insert_model(m, k, v)[k].backlinks == v.backlinks,
{
}

/// A report on one section leaves what is known of every other untouched.
pub proof fn law_insert_is_local(
    m: Map<Seq<char>, ValueModel>,
    k: Seq<char>,
    v: ValueModel,
    other: Seq<char>,
)
    requires
        other != k,
    ensures
        insert_model(m, k, v).contains_key(other) == m.contains_key(other),
        m.contains_key(other) ==> insert_model(m, k, v)[other] == m[other],
{
}

/// The first embedding parent replaces the default `index` parent, and a
/// chosen parent overrides any embedding parent.
pub proof fn law_parent_resolution(m: Map<Seq<char>, ValueModel>, k: Seq<char>, v: ValueModel)
    requires
        m.contains_key(k),
        !m[k].specified,
    ensures
        v.specified ==> insert_model(m, k, v)[k].parent == v.parent,
        !v.specified && m[k].parent == index_slug() ==> insert_model(m, k, v)[k].parent
            == v.parent,
        !v.specified && m[k].parent != index_slug() ==> insert_model(m, k, v)[k].parent
            == m[k].parent,
{
}

} // verus!
