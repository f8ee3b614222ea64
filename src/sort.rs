//! Building the implicit index: median partitioning in place, recursively,
//! with the two halves of each level handled as independent tasks.
use vstd::prelude::*;
use vstd::seq_lib::{lemma_multiset_commutative, to_multiset_contains, to_multiset_len};
use crate::geometry::AABB;
use crate::direction::{bhh_compare, key, next_dir, DIRECTIONS};

verus! {

/// Every box of `s` has a key along `dir` of at most `k`.
pub open spec fn all_at_most(s: Seq<AABB>, dir: int, k: int) -> bool {
    forall|i: int| 0 <= i < s.len() ==> key(dir, #[trigger] s[i]) <= k
}

/// Every box of `s` has a key along `dir` of at least `k`.
pub open spec fn all_at_least(s: Seq<AABB>, dir: int, k: int) -> bool {
    forall|i: int| 0 <= i < s.len() ==> key(dir, #[trigger] s[i]) >= k
}

/// Position of the pivot of `s`: the middle, rounded up.
pub open spec fn pivot_index(s: Seq<AABB>) -> int {
    s.len() as int / 2
}

/// The boxes before the pivot of `s`.
pub open spec fn low_part(s: Seq<AABB>) -> Seq<AABB> {
    s.subrange(0, pivot_index(s))
}

/// The boxes after the pivot of `s`.
pub open spec fn high_part(s: Seq<AABB>) -> Seq<AABB> {
    s.subrange(pivot_index(s) + 1, s.len() as int)
}

/// `s`, read as an implicit tree whose root is at position `len / 2`, is a
/// hierarchy built from direction `dir`: the low part holds keys at most the
/// pivot's, the high part keys at least the pivot's, and both parts are
/// hierarchies built from the next direction.
pub open spec fn is_bhh(s: Seq<AABB>, dir: int) -> bool
    decreases s.len(),
{
    if s.len() < 2 {
        true
    } else {
        let pivot = s[pivot_index(s)];
        &&& all_at_most(low_part(s), dir, key(dir, pivot))
        &&& all_at_least(high_part(s), dir, key(dir, pivot))
        &&& is_bhh(low_part(s), next_dir(dir))
        &&& is_bhh(high_part(s), next_dir(dir))
    }
}

/// `after` holds the boxes of `before`, reordered into a hierarchy built
/// from direction `dir`.
pub open spec fn sorted_from(before: Seq<AABB>, after: Seq<AABB>, dir: int) -> bool {
    &&& after.to_multiset() == before.to_multiset()
    &&& is_bhh(after, dir)
}

/// A bound on every key carries over to any reordering.
proof fn lemma_bound_permuted(a: Seq<AABB>, b: Seq<AABB>, dir: int, k: int)
    requires
        a.to_multiset() == b.to_multiset(),
    ensures
        all_at_most(a, dir, k) ==> all_at_most(b, dir, k),
        all_at_least(a, dir, k) ==> all_at_least(b, dir, k),
{
    assert forall|i: int| 0 <= i < b.len() implies a.contains(#[trigger] b[i]) by {
        to_multiset_contains(b, b[i]);
        to_multiset_contains(a, b[i]);
    }
}

/// Relies on `slice::select_nth_unstable_by`: it reorders the slice so that
/// the element at `median` is the one a full sort by the comparator would
/// put there, with no greater element before it and no smaller one after.
/// The comparator is `bhh_compare`, a total order on integer keys, so the
/// call does not panic for `median < len`.
#[verifier::external_body]
fn select_median(items: &mut [AABB], median: usize, dir: u8)
    requires
        median < old(items)@.len(),
        dir < DIRECTIONS,
    ensures
        final(items)@.to_multiset() == old(items)@.to_multiset(),
        final(items)@.len() == old(items)@.len(),
        all_at_most(final(items)@.subrange(0, median as int), dir as int,
            key(dir as int, final(items)@[median as int])),
        all_at_least(final(items)@.subrange(median + 1, final(items)@.len() as int), dir as int,
            key(dir as int, final(items)@[median as int])),
{
    items.select_nth_unstable_by(median, |a, b| bhh_compare(dir, a, b));
}

/// Relies on `rayon::join`: both closures run to completion before it returns.
#[verifier::external_body]
fn sort_both(lo: &mut [AABB], hi: &mut [AABB], dir: u8)
    requires
        dir < DIRECTIONS,
    ensures
        sorted_from(old(lo)@, final(lo)@, dir as int),
        sorted_from(old(hi)@, final(hi)@, dir as int),
{
    rayon::join(|| bhh_sort_impl(lo, dir), || bhh_sort_impl(hi, dir));
}

fn bhh_sort_impl(items: &mut [AABB], dir: u8)
    requires
        dir < DIRECTIONS,
    ensures
        sorted_from(old(items)@, final(items)@, dir as int),
{
    let len = items.len();
    if len < 2 {
        return;
    }
    let median = len / 2;
    select_median(items, median, dir);
    let ghost selected = items@;
    let ghost pivot = selected[median as int];
    let next: u8 = (dir + 1) % DIRECTIONS;
    let (lo, rest) = items.split_at_mut(median);
    let (mid, hi) = rest.split_at_mut(1);
    let ghost lo0 = lo@;
    let ghost hi0 = hi@;
    sort_both(lo, hi, next);
    proof {
        let s = items@;
        to_multiset_len(lo0);
        to_multiset_len(lo@);
        to_multiset_len(hi0);
        to_multiset_len(hi@);
        assert(s =~= lo@ + (mid@ + hi@));
        assert(mid@ =~= seq![pivot]);
        assert(lo0 =~= selected.subrange(0, median as int));
        assert(hi0 =~= selected.subrange(median + 1, len as int));
        assert(low_part(s) =~= lo@);
        assert(high_part(s) =~= hi@);
        assert(s[median as int] == pivot);
        lemma_bound_permuted(lo0, lo@, dir as int, key(dir as int, pivot));
        lemma_bound_permuted(hi0, hi@, dir as int, key(dir as int, pivot));
        assert(selected =~= lo0 + (seq![pivot] + hi0));
        lemma_multiset_commutative(lo@, mid@ + hi@);
        lemma_multiset_commutative(mid@, hi@);
        lemma_multiset_commutative(lo0, seq![pivot] + hi0);
        lemma_multiset_commutative(seq![pivot], hi0);
    }
}

/// Reorders `items` in place into a bounding half-space hierarchy, starting
/// from the minimum-x direction.
pub fn bhh_sort(items: &mut [AABB])
    ensures
        sorted_from(old(items)@, final(items)@, 0),
{
    bhh_sort_impl(items, 0)
}

} // verus!
