//! Random selection and in-place shuffling of slices.

use vstd::prelude::*;

use crate::rand::generate_range;

verus! {

/// Random selection and shuffling on a sequence of items.
pub trait SliceExt {
    /// The type of the items.
    type Item;

    /// The items, in order.
    spec fn items(&self) -> Seq<Self::Item>;

    /// Picks an item uniformly at random: `None` exactly when there is none.
    fn pick(&self) -> (r: Option<&Self::Item>)
        ensures
            r is None <==> self.items().len() == 0,
            r matches Some(x) ==> self.items().contains(*x),
    ;

    /// Picks an item uniformly at random and lends it out for change:
    /// `None` exactly when there is none.
    fn pick_mut(&mut self) -> (r: Option<&mut Self::Item>)
        ensures
            r is None <==> old(self).items().len() == 0,
            r is None ==> final(self).items() == old(self).items(),
            r is Some ==> exists|i: int|
                0 <= i < old(self).items().len() && *r->0 == old(self).items()[i]
                    && final(self).items() == old(self).items().update(i, *final(r->0)),
    ;

    /// Reorders the items in place into a uniformly random permutation: the
    /// Fisher-Yates shuffle of the items under some valid sequence of draws.
    fn shuffle(&mut self)
        ensures
            final(self).items().len() == old(self).items().len(),
            final(self).items().to_multiset() == old(self).items().to_multiset(),
            exists|d: Seq<usize>|
                valid_draws(d, old(self).items().len()) && final(self).items() == fisher_yates(
                    old(self).items(),
                    d,
                    old(self).items().len(),
                ),
    ;
}

/// The Fisher-Yates shuffle of `s` driven by the draws `d`, on the first `i`
/// positions: for `k` from `i - 1` down to `1`, the items at `k` and `d[k]` are exchanged.
pub open spec fn fisher_yates<T>(s: Seq<T>, d: Seq<usize>, i: nat) -> Seq<T>
    decreases i,
{
    if i <= 1 || i > s.len() || i > d.len() {
        s
    } else {
        let k = (i - 1) as int;
        let j = d[k] as int;
        fisher_yates(s.update(k, s[j]).update(j, s[k]), d, (i - 1) as nat)
    }
}

/// Whether `d` is a sequence of draws for shuffling `n` items: one draw per
/// position, the draw at `k` taken from `[0, k]`.
pub open spec fn valid_draws(d: Seq<usize>, n: nat) -> bool {
    d.len() == n && forall|k: int| 0 <= k < n ==> #[trigger] d[k] <= k
}

/// The Fisher-Yates shuffle leaves the positions from `i` on as they were.
proof fn lemma_fisher_yates_keeps_tail<T>(s: Seq<T>, d: Seq<usize>, i: nat, m: int)
    requires
        valid_draws(d, s.len()),
        i <= s.len(),
        i <= m < s.len(),
    ensures
        fisher_yates(s, d, i).len() == s.len(),
        fisher_yates(s, d, i)[m] == s[m],
    decreases i,
{
    if i > 1 {
        let k = (i - 1) as int;
        let j = d[k] as int;
        lemma_fisher_yates_keeps_tail(s.update(k, s[j]).update(j, s[k]), d, (i - 1) as nat, m);
    }
}

/// Exchanging two items keeps a sequence free of duplicates.
proof fn lemma_swap_keeps_distinct<T>(s: Seq<T>, k: int, j: int)
    requires
        s.no_duplicates(),
        0 <= k < s.len(),
        0 <= j < s.len(),
    ensures
        s.update(k, s[j]).update(j, s[k]).no_duplicates(),
{
    let t = s.update(k, s[j]).update(j, s[k]);
    assert forall|a: int, b: int| 0 <= a < t.len() && 0 <= b < t.len() && a != b implies t[a]
        != t[b] by {
        let sa = if a == j {
            k
        } else if a == k {
            j
        } else {
            a
        };
        let sb = if b == j {
            k
        } else if b == k {
            j
        } else {
            b
        };
        assert(t[a] == s[sa]);
        assert(t[b] == s[sb]);
    }
}

/// Two runs of the Fisher-Yates shuffle on distinct items that give the same
/// order used the same draws on the first `i` positions.
proof fn lemma_fisher_yates_draws_agree<T>(s: Seq<T>, d1: Seq<usize>, d2: Seq<usize>, i: nat)
    requires
        s.no_duplicates(),
        valid_draws(d1, s.len()),
        valid_draws(d2, s.len()),
        i <= s.len(),
        fisher_yates(s, d1, i) == fisher_yates(s, d2, i),
    ensures
        forall|k: int| 0 <= k < i ==> d1[k] == d2[k],
    decreases i,
{
    if i > 1 {
        let k = (i - 1) as int;
        let j1 = d1[k] as int;
        let j2 = d2[k] as int;
        let t1 = s.update(k, s[j1]).update(j1, s[k]);
        let t2 = s.update(k, s[j2]).update(j2, s[k]);
        lemma_fisher_yates_keeps_tail(t1, d1, (i - 1) as nat, k);
        lemma_fisher_yates_keeps_tail(t2, d2, (i - 1) as nat, k);
        assert(t1[k] == s[j1]);
        assert(t2[k] == s[j2]);
        assert(j1 == j2);
        lemma_swap_keeps_distinct(s, k, j1);
        lemma_fisher_yates_draws_agree(t1, d1, d2, (i - 1) as nat);
    }
    if i >= 1 {
        assert(d1[0] <= 0);
        assert(d2[0] <= 0);
    }
}

/// On distinct items, the Fisher-Yates shuffle gives each order from at most one
/// sequence of draws: two valid draw sequences that give the same order are equal.
pub proof fn lemma_fisher_yates_injective<T>(s: Seq<T>, d1: Seq<usize>, d2: Seq<usize>)
    requires
        s.no_duplicates(),
        valid_draws(d1, s.len()),
        valid_draws(d2, s.len()),
        fisher_yates(s, d1, s.len()) == fisher_yates(s, d2, s.len()),
    ensures
        d1 == d2,
{
    lemma_fisher_yates_draws_agree(s, d1, d2, s.len());
    assert(d1 =~= d2);
}

/// The Fisher-Yates shuffle of the first `i` positions reads only the draws at
/// those positions.
proof fn lemma_fisher_yates_reads_prefix<T>(s: Seq<T>, d1: Seq<usize>, d2: Seq<usize>, i: nat)
    requires
        d1.len() == d2.len(),
        forall|m: int| 0 <= m < i ==> d1[m] == d2[m],
    ensures
        fisher_yates(s, d1, i) == fisher_yates(s, d2, i),
    decreases i,
{
    if i > 1 && i <= s.len() && i <= d1.len() {
        let k = (i - 1) as int;
        let j = d1[k] as int;
        lemma_fisher_yates_reads_prefix(s.update(k, s[j]).update(j, s[k]), d1, d2, (i - 1) as nat);
    }
}

/// Whether `x` is one of the first `i` items of `s`.
spec fn in_prefix<T>(x: T, s: Seq<T>, i: int) -> bool {
    exists|a: int| 0 <= a < i && s[a] == x
}

/// Where `s` and `p` hold the same distinct items on the first `i` positions and
/// agree on the rest, some valid draws take `s` to `p`.
proof fn lemma_fisher_yates_reaches<T>(s: Seq<T>, p: Seq<T>, i: nat) -> (d: Seq<usize>)
    requires
        s.no_duplicates(),
        p.no_duplicates(),
        p.len() == s.len(),
        s.len() <= usize::MAX,
        i <= s.len(),
        forall|m: int| i <= m < s.len() ==> s[m] == p[m],
        forall|m: int| 0 <= m < i ==> in_prefix(#[trigger] p[m], s, i as int),
    ensures
        valid_draws(d, s.len()),
        fisher_yates(s, d, i) == p,
    decreases i,
{
    if i <= 1 {
        if i == 1 {
            assert(in_prefix(p[0], s, 1));
        }
        assert(s =~= p);
        Seq::new(s.len(), |k: int| 0usize)
    } else {
        let k = (i - 1) as int;
        assert(in_prefix(p[k], s, i as int));
        let j = choose|a: int| 0 <= a < i && s[a] == p[k];
        let t = s.update(k, s[j]).update(j, s[k]);
        lemma_swap_keeps_distinct(s, k, j);
        assert forall|m: int| 0 <= m < k implies in_prefix(#[trigger] p[m], t, k) by {
            assert(in_prefix(p[m], s, i as int));
            let a = choose|a: int| 0 <= a < i && s[a] == p[m];
            assert(p[m] != p[k]);
            if a == k {
                assert(t[j] == p[m]);
            } else {
                assert(t[a] == p[m]);
            }
        }
        let d0 = lemma_fisher_yates_reaches(t, p, k as nat);
        let d = d0.update(k, j as usize);
        lemma_fisher_yates_reads_prefix(t, d, d0, k as nat);
        d
    }
}

/// On distinct items, every reordering is the Fisher-Yates shuffle of the items
/// under some valid sequence of draws.
pub proof fn lemma_fisher_yates_surjective<T>(s: Seq<T>, p: Seq<T>) -> (d: Seq<usize>)
    requires
        s.no_duplicates(),
        p.no_duplicates(),
        s.len() <= usize::MAX,
        p.to_multiset() == s.to_multiset(),
    ensures
        valid_draws(d, s.len()),
        fisher_yates(s, d, s.len()) == p,
{
    vstd::seq_lib::to_multiset_len(s);
    vstd::seq_lib::to_multiset_len(p);
    assert forall|m: int| 0 <= m < s.len() implies in_prefix(#[trigger] p[m], s, s.len() as int) by {
        vstd::seq_lib::to_multiset_contains(p, p[m]);
        vstd::seq_lib::to_multiset_contains(s, p[m]);
        assert(p.contains(p[m]));
    }
    lemma_fisher_yates_reaches(s, p, s.len())
}

/// An index drawn uniformly from `[0, sup)`, through the 32-bit sampler when
/// `sup` fits in it and the native-width one otherwise.
fn generate_index(sup: usize) -> (r: usize)
    requires
        sup > 0,
    ensures
        r < sup,
{
    if sup <= 4294967295usize {
        generate_range(0u32..sup as u32) as usize
    } else {
        generate_range(0usize..sup)
    }
}

/// Relies on slice::swap: exchanges the items at `i` and `j`, both in bounds.
#[verifier::external_body]
fn swap_items<T>(s: &mut [T], i: usize, j: usize)
    requires
        i < old(s)@.len(),
        j < old(s)@.len(),
    ensures
        final(s)@ == old(s)@.update(i as int, old(s)@[j as int]).update(j as int, old(s)@[i as int]),
{
    s.swap(i, j)
}

/// Exchanging two items of a sequence keeps its multiset of items.
proof fn lemma_swap_keeps_multiset<T>(s: Seq<T>, i: int, j: int)
    requires
        0 <= i < s.len(),
        0 <= j < s.len(),
    ensures
        s.update(i, s[j]).update(j, s[i]).to_multiset() == s.to_multiset(),
{
    broadcast use vstd::seq_lib::to_multiset_update;
    broadcast use vstd::seq_lib::to_multiset_contains;
    broadcast use vstd::multiset::group_multiset_axioms;

    let m = s.to_multiset();
    let s1 = s.update(i, s[j]);
    assert(s1[j] == s[j]);
    assert(s1.to_multiset() == m.insert(s[j]).remove(s[i]));
    assert(s1.update(j, s[i]).to_multiset() == s1.to_multiset().insert(s[i]).remove(s[j]));
    assert(s.contains(s[i]));
    assert(m.count(s[i]) > 0);
    assert(m.insert(s[j]).remove(s[i]).insert(s[i]).remove(s[j]) =~= m);
}

/// Shuffles `s` in place with the given draws: for `k` from `len - 1` down to
/// `1`, the items at `k` and `d[k]` are exchanged.
pub fn shuffle_with<T>(s: &mut [T], d: &Vec<usize>)
    requires
        valid_draws(d@, old(s)@.len()),
    ensures
        final(s)@.len() == old(s)@.len(),
        final(s)@ == fisher_yates(old(s)@, d@, old(s)@.len()),
        final(s)@.to_multiset() == old(s)@.to_multiset(),
{
    let n = s.len();
    let mut i: usize = n;
    while i > 1
        invariant
            i <= n,
            s@.len() == n,
            valid_draws(d@, n as nat),
            fisher_yates(s@, d@, i as nat) == fisher_yates(old(s)@, d@, n as nat),
            s@.to_multiset() == old(s)@.to_multiset(),
        decreases i,
    {
        let k = i - 1;
        let j = d[k];
        proof {
            lemma_swap_keeps_multiset(s@, k as int, j as int);
        }
        swap_items(s, k, j);
        i = k;
    }
}

/// Draws the indices for shuffling `n` items: the draw at `k` is uniform over
/// `[0, k]`, and the draw at `0`, which has one possible value, is not taken.
fn draw_indices(n: usize) -> (r: Vec<usize>)
    ensures
        valid_draws(r@, n as nat),
{
    let mut draws: Vec<usize> = Vec::with_capacity(n);
    let mut k: usize = 0;
    while k < n
        invariant
            k <= n,
            draws@.len() == k,
            forall|m: int| 0 <= m < k ==> #[trigger] draws@[m] <= m,
        decreases n - k,
    {
        if k == 0 {
            draws.push(0);
        } else {
            draws.push(generate_index(k + 1));
        }
        k = k + 1;
    }
    draws
}

/// Lends out the item at `i`.
fn item_mut<T>(s: &mut [T], i: usize) -> (r: Option<&mut T>)
    requires
        i < old(s)@.len(),
    ensures
        r is Some,
        *r->0 == old(s)@[i as int],
        final(s)@ == old(s)@.update(i as int, *final(r->0)),
{
    let ghost s0 = s@;
    let (_front, rest) = s.split_at_mut(i);
    proof {
        assert forall|x: T|
            s0.subrange(0, i as int) + #[trigger] rest@.update(0, x) == s0.update(i as int, x) by {
            assert(s0.subrange(0, i as int) + rest@.update(0, x) =~= s0.update(i as int, x));
        }
    }
    rest.first_mut()
}

impl<T> SliceExt for [T] {
    type Item = T;

    open spec fn items(&self) -> Seq<T> {
        self@
    }

    fn pick(&self) -> (r: Option<&T>) {
        if self.len() == 0 {
            None
        } else {
            let i = generate_index(self.len());
            Some(&self[i])
        }
    }

    fn pick_mut(&mut self) -> (r: Option<&mut T>) {
        if self.len() == 0 {
            None
        } else {
            let i = generate_index(self.len());
            let r = item_mut(self, i);
            proof {
                assert(*r->0 == old(self).items()[i as int]);
            }
            r
        }
    }

    fn shuffle(&mut self) {
        let draws = draw_indices(self.len());
        shuffle_with(self, &draws);
    }
}

} // verus!
