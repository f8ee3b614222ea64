//! Querying the implicit index: a recursive count that skips every subtree
//! the pruning test proves disjoint from the query.
use vstd::prelude::*;
use vstd::seq_lib::{to_multiset_contains, to_multiset_len, to_multiset_remove};
use crate::geometry::AABB;
use crate::direction::{bhh_reject, key, lemma_reject_covers, next_dir, rejects, DIRECTIONS};
use crate::sort::{all_at_least, high_part, is_bhh, low_part, pivot_index, sorted_from};

verus! {

/// Number of boxes of `s` that intersect `query`, by a linear scan.
pub open spec fn naive_count(s: Seq<AABB>, query: AABB) -> nat
    decreases s.len(),
{
    if s.len() == 0 {
        0
    } else {
        naive_count(s.drop_last(), query) + if s.last().spec_intersects(&query) {
            1nat
        } else {
            0nat
        }
    }
}

/// The count of one box: 1 if it intersects `query`, else 0.
pub open spec fn hit(b: AABB, query: AABB) -> nat {
    if b.spec_intersects(&query) {
        1
    } else {
        0
    }
}

proof fn lemma_count_bounded(s: Seq<AABB>, query: AABB)
    ensures
        naive_count(s, query) <= s.len(),
    decreases s.len(),
{
    if s.len() > 0 {
        lemma_count_bounded(s.drop_last(), query);
    }
}

proof fn lemma_count_single(b: AABB, query: AABB)
    ensures
        naive_count(seq![b], query) == hit(b, query),
{
    assert(seq![b].drop_last() =~= Seq::<AABB>::empty());
    assert(naive_count(Seq::<AABB>::empty(), query) == 0);
}

proof fn lemma_count_concat(a: Seq<AABB>, b: Seq<AABB>, query: AABB)
    ensures
        naive_count(a + b, query) == naive_count(a, query) + naive_count(b, query),
    decreases b.len(),
{
    if b.len() == 0 {
        assert(a + b =~= a);
    } else {
        lemma_count_concat(a, b.drop_last(), query);
        assert((a + b).drop_last() =~= a + b.drop_last());
    }
}

proof fn lemma_count_split(s: Seq<AABB>, query: AABB)
    requires
        s.len() >= 1,
    ensures
        naive_count(s, query) == naive_count(low_part(s), query) + hit(s[pivot_index(s)], query)
            + naive_count(high_part(s), query),
{
    let m = pivot_index(s);
    assert(s =~= low_part(s) + (seq![s[m]] + high_part(s)));
    lemma_count_concat(low_part(s), seq![s[m]] + high_part(s), query);
    lemma_count_concat(seq![s[m]], high_part(s), query);
    lemma_count_single(s[m], query);
}

proof fn lemma_count_remove(s: Seq<AABB>, i: int, query: AABB)
    requires
        0 <= i < s.len(),
    ensures
        naive_count(s, query) == naive_count(s.remove(i), query) + hit(s[i], query),
{
    assert(s =~= s.subrange(0, i) + (seq![s[i]] + s.subrange(i + 1, s.len() as int)));
    assert(s.remove(i) =~= s.subrange(0, i) + s.subrange(i + 1, s.len() as int));
    lemma_count_concat(s.subrange(0, i), seq![s[i]] + s.subrange(i + 1, s.len() as int), query);
    lemma_count_concat(seq![s[i]], s.subrange(i + 1, s.len() as int), query);
    lemma_count_concat(s.subrange(0, i), s.subrange(i + 1, s.len() as int), query);
    lemma_count_single(s[i], query);
}

/// Reordering boxes does not change how many of them intersect a query.
pub proof fn lemma_count_permutation(a: Seq<AABB>, b: Seq<AABB>, query: AABB)
    requires
        a.to_multiset() == b.to_multiset(),
    ensures
        naive_count(a, query) == naive_count(b, query),
    decreases a.len(),
{
    to_multiset_len(a);
    to_multiset_len(b);
    if a.len() > 0 {
        let x = a.last();
        to_multiset_contains(a, x);
        to_multiset_contains(b, x);
        let k = b.index_of(x);
        to_multiset_remove(a, a.len() - 1);
        to_multiset_remove(b, k);
        assert(a.remove(a.len() - 1) =~= a.drop_last());
        lemma_count_permutation(a.drop_last(), b.remove(k), query);
        lemma_count_remove(b, k, query);
    }
}

/// No box of a region whose keys are all at least the rejected pivot's
/// intersects the query.
proof fn lemma_rejected_region(s: Seq<AABB>, dir: int, node: AABB, query: AABB)
    requires
        0 <= dir < 4,
        rejects(dir, node, query),
        all_at_least(s, dir, key(dir, node)),
    ensures
        naive_count(s, query) == 0,
    decreases s.len(),
{
    if s.len() > 0 {
        lemma_reject_covers(dir, node, s.last(), query);
        assert(all_at_least(s.drop_last(), dir, key(dir, node))) by {
            assert forall|i: int| 0 <= i < s.drop_last().len() implies key(dir, #[trigger] s.drop_last()[i]) >= key(dir, node) by {
                assert(s.drop_last()[i] == s[i]);
            }
        }
        lemma_rejected_region(s.drop_last(), dir, node, query);
    }
}

fn bhh_search_impl(items: &[AABB], query: &AABB, dir: u8) -> (r: u32)
    requires
        dir < DIRECTIONS,
        items@.len() <= u32::MAX,
    ensures
        r <= naive_count(items@, *query),
        is_bhh(items@, dir as int) ==> r == naive_count(items@, *query),
    decreases items@.len(),
{
    let len = items.len();
    if len == 0 {
        return 0;
    }
    if len == 1 {
        proof {
            assert(items@ =~= seq![items@[0]]);
            lemma_count_single(items@[0], *query);
        }
        return if items[0].intersects(query) { 1 } else { 0 };
    }
    let median = len / 2;
    let next: u8 = (dir + 1) % DIRECTIONS;
    let (lo, rest) = items.split_at(median);
    let (_, hi) = rest.split_at(1);
    proof {
        assert(lo@ =~= low_part(items@));
        assert(hi@ =~= high_part(items@));
        lemma_count_split(items@, *query);
        lemma_count_bounded(lo@, *query);
        lemma_count_bounded(hi@, *query);
    }
    let low = bhh_search_impl(lo, query, next);
    if bhh_reject(dir, &items[median], query) {
        proof {
            if is_bhh(items@, dir as int) {
                lemma_rejected_region(hi@, dir as int, items@[median as int], *query);
                lemma_reject_covers(dir as int, items@[median as int], items@[median as int], *query);
            }
        }
        return low;
    }
    let inter: u32 = if items[median].intersects(query) { 1 } else { 0 };
    let high = bhh_search_impl(hi, query, next);
    low + inter + high
}

/// Counts the boxes of `items` that intersect `query`. On a hierarchy that
/// `bhh_sort` built, the count is exact; on any other order it may miss
/// boxes but never counts one that misses the query.
pub fn bhh_search(items: &[AABB], query: &AABB) -> (r: u32)
    requires
        items@.len() <= u32::MAX,
    ensures
        r <= naive_count(items@, *query),
        is_bhh(items@, 0) ==> r == naive_count(items@, *query),
{
    bhh_search_impl(items, query, 0)
}

/// Searching the sorted copy of a set of boxes counts exactly the boxes of
/// the original that intersect the query.
pub proof fn lemma_search_equivalence(items: Seq<AABB>, sorted: Seq<AABB>, query: AABB)
    requires
        sorted_from(items, sorted, 0),
    ensures
        is_bhh(sorted, 0),
        naive_count(sorted, query) == naive_count(items, query),
{
    lemma_count_permutation(sorted, items, query);
}

/// Sorting the output of a sort again still gives a hierarchy of the
/// original boxes.
pub proof fn lemma_sort_again(items: Seq<AABB>, once: Seq<AABB>, twice: Seq<AABB>)
    requires
        sorted_from(items, once, 0),
        sorted_from(once, twice, 0),
    ensures
        sorted_from(items, twice, 0),
{
}

} // verus!
