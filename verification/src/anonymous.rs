//! Names for subtrees that do not name themselves: `<source>/:<n>`, with
//! `n` counting up and skipping names already taken.
use vstd::prelude::*;

use crate::slug::Slug;
use crate::subtree::{anonymous_slug_for, anonymous_slug_spec};
use crate::text::{decimal, digit_char};

verus! {

/// The slugs of a list.
pub open spec fn slug_views(v: Seq<Slug>) -> Seq<Seq<char>> {
    v.map_values(|s: Slug| s@)
}

/// Different numbers are written differently.
pub proof fn lemma_decimal_injective(a: nat, b: nat)
    requires
        decimal(a) == decimal(b),
    ensures
        a == b,
    decreases a,
{
    if a < 10 && b < 10 {
        assert(decimal(a)[0] == digit_char(a));
        assert(decimal(b)[0] == digit_char(b));
        assert((digit_char(a) as u32) == (digit_char(b) as u32));
    } else if a < 10 {
        lemma_decimal_len(b / 10);
        assert(decimal(b).len() >= 2);
    } else if b < 10 {
        lemma_decimal_len(a / 10);
        assert(decimal(a).len() >= 2);
    } else {
        assert(decimal(a).drop_last() =~= decimal(a / 10));
        assert(decimal(b).drop_last() =~= decimal(b / 10));
        lemma_decimal_injective(a / 10, b / 10);
        assert(decimal(a).last() == digit_char(a % 10));
        assert(decimal(b).last() == digit_char(b % 10));
        assert((digit_char(a % 10) as u32) == (digit_char(b % 10) as u32));
    }
}

pub proof fn lemma_decimal_len(n: nat)
    ensures
        decimal(n).len() >= 1,
    decreases n,
{
    if n >= 10 {
        lemma_decimal_len(n / 10);
    }
}

pub proof fn lemma_anonymous_injective(source: Seq<char>, a: nat, b: nat)
    requires
        anonymous_slug_spec(source, a) == anonymous_slug_spec(source, b),
    ensures
        a == b,
{
    let p = source + seq!['/', ':'];
    assert(anonymous_slug_spec(source, a).skip(p.len() as int) =~= decimal(a));
    assert(anonymous_slug_spec(source, b).skip(p.len() as int) =~= decimal(b));
    lemma_decimal_injective(a, b);
}

/// The first anonymous name at or after `next` that `used` does not hold.
pub open spec fn first_free(source: Seq<char>, next: nat, used: Set<Seq<char>>) -> nat {
    choose|k: nat|
        next <= k && !used.contains(anonymous_slug_spec(source, k)) && forall|j: nat|
            next <= j < k ==> used.contains(#[trigger] anonymous_slug_spec(source, j))
}

/// Below any free name lies a first free one.
proof fn lemma_first_free_witness(source: Seq<char>, next: nat, used: Set<Seq<char>>, k: nat)
    requires
        next <= k,
        !used.contains(anonymous_slug_spec(source, k)),
    ensures
        exists|c: nat|
            next <= c && !used.contains(anonymous_slug_spec(source, c)) && forall|j: nat|
                next <= j < c ==> used.contains(#[trigger] anonymous_slug_spec(source, j)),
    decreases k - next,
{
    if exists|j: nat| next <= j < k && !used.contains(#[trigger] anonymous_slug_spec(source, j)) {
        let j = choose|j: nat| next <= j < k && !used.contains(#[trigger] anonymous_slug_spec(source, j));
        lemma_first_free_witness(source, next, used, j);
    } else {
        assert(forall|j: nat|
            next <= j < k ==> used.contains(#[trigger] anonymous_slug_spec(source, j)));
    }
}

/// The name handed out is free: no used name equals it, and it is an
/// anonymous name of `source` numbered at or after `next`.
pub proof fn law_allocated_name_is_fresh(source: Seq<char>, next: nat, used: Seq<Seq<char>>)
    ensures
        next <= first_free(source, next, used.to_set()),
        !used.contains(anonymous_slug_spec(source, first_free(source, next, used.to_set()))),
{
    let k = next + used.len() + 1;
    if used.to_set().contains(anonymous_slug_spec(source, k as nat)) {
        // Then some name in `next..=k` is free, since they are more than `used` holds.
        if forall|j: nat|
            next <= j < k + 1 ==> used.to_set().contains(#[trigger] anonymous_slug_spec(source, j)) {
            lemma_taken_bound(source, next, (k + 1) as nat, used);
            assert(false);
        }
        let j = choose|j: nat|
            next <= j < k + 1 && !used.to_set().contains(#[trigger] anonymous_slug_spec(source, j));
        lemma_first_free_witness(source, next, used.to_set(), j);
    } else {
        lemma_first_free_witness(source, next, used.to_set(), k as nat);
    }
    let c = first_free(source, next, used.to_set());
    assert(!used.to_set().contains(anonymous_slug_spec(source, c)));
    if used.contains(anonymous_slug_spec(source, c)) {
        let i = choose|i: int| 0 <= i < used.len() && used[i] == anonymous_slug_spec(source, c);
        assert(used.to_set().contains(used[i]));
    }
}

/// If the names `next..k` are all taken, there are at least `k - next`
/// taken names.
proof fn lemma_taken_bound(source: Seq<char>, next: nat, k: nat, used: Seq<Seq<char>>)
    requires
        next <= k,
        forall|j: nat| next <= j < k ==> used.to_set().contains(#[trigger] anonymous_slug_spec(source, j)),
    ensures
        k - next <= used.len(),
{
    let r = vstd::set_lib::set_int_range(next as int, k as int);
    vstd::set_lib::lemma_int_range(next as int, k as int);
    let f = |i: int| anonymous_slug_spec(source, i as nat);
    let img = r.map(f);
    assert forall|x: int, y: int| r.contains(x) && r.contains(y) && #[trigger] f(x) == #[trigger] f(y) implies x == y by {
        lemma_anonymous_injective(source, x as nat, y as nat);
    }
    assert(vstd::relations::injective_on(f, r));
    vstd::set_lib::lemma_map_size(r, img, f);
    assert(img.subset_of(used.to_set())) by {
        assert forall|s: Seq<char>| img.contains(s) implies used.to_set().contains(s) by {
            let i = choose|i: int| r.contains(i) && f(i) == s;
            assert(used.to_set().contains(anonymous_slug_spec(source, i as nat)));
        }
    }
    used.lemma_cardinality_of_set();
    vstd::set_lib::lemma_len_subset(img, used.to_set());
}

/// Hands out anonymous names in order.
#[derive(Debug, Clone, Copy, Default)]
pub struct AnonymousSlugState {
    pub next: usize,
}

pub(crate) fn contains_slug(used: &Vec<Slug>, s: &Slug) -> (r: bool)
    ensures
        r == slug_views(used@).contains(s@),
{
    let mut i: usize = 0;
    while i < used.len()
        invariant
            i <= used@.len(),
            forall|j: int| 0 <= j < i ==> used@[j]@ != s@,
        decreases used.len() - i,
    {
        if used[i].same(s) {
            assert(slug_views(used@)[i as int] == s@);
            return true;
        }
        i = i + 1;
    }
    proof {
        if slug_views(used@).contains(s@) {
            let j = choose|j: int| 0 <= j < slug_views(used@).len() && slug_views(used@)[j] == s@;
            assert(used@[j]@ == s@);
        }
    }
    false
}

impl AnonymousSlugState {
    /// Takes the first free anonymous name of `source`, records it as used,
    /// and continues counting after it.
    pub fn allocate_with_used(&mut self, source: &Slug, used: &mut Vec<Slug>) -> (r: Slug)
        requires
            old(self).next + old(used)@.len() + 1 <= usize::MAX,
        ensures
            r@ == anonymous_slug_spec(
                source@,
                first_free(source@, old(self).next as nat, slug_views(old(used)@).to_set()),
            ),
            final(self).next == first_free(
                source@,
                old(self).next as nat,
                slug_views(old(used)@).to_set(),
            ) + 1,
            slug_views(final(used)@) == slug_views(old(used)@).push(r@),
    {
        let ghost u = slug_views(used@);
        let ghost next0 = self.next as nat;
        let mut k: usize = self.next;
        loop
            invariant
                next0 <= k,
                next0 + used@.len() + 1 <= usize::MAX,
                u == slug_views(used@),
                used@ == old(used)@,
                next0 == old(self).next,
                self.next == old(self).next,
                forall|j: nat| next0 <= j < k ==> u.to_set().contains(#[trigger] anonymous_slug_spec(source@, j)),
            decreases next0 + used@.len() + 1 - k,
        {
            proof {
                lemma_taken_bound(source@, next0, k as nat, u);
            }
            let candidate = anonymous_slug_for(source, k);
            if !contains_slug(used, &candidate) {
                proof {
                    let w = k as nat;
                    assert(!u.to_set().contains(anonymous_slug_spec(source@, w)));
                    assert(next0 <= w && !u.to_set().contains(anonymous_slug_spec(source@, w))
                        && forall|j: nat|
                        next0 <= j < w ==> u.to_set().contains(
                            #[trigger] anonymous_slug_spec(source@, j),
                        ));
                    let c = first_free(source@, next0, u.to_set());
                    assert(next0 <= c && !u.to_set().contains(anonymous_slug_spec(source@, c)));
                    if c < w {
                        assert(u.to_set().contains(anonymous_slug_spec(source@, c)));
                    } else if c > w {
                        assert(u.to_set().contains(anonymous_slug_spec(source@, w)));
                    }
                }
                self.next = k + 1;
                let r = candidate.duplicate();
                used.push(candidate);
                assert(slug_views(used@) =~= u.push(r@));
                return r;
            }
            k = k + 1;
        }
    }
}

} // verus!
