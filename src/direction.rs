//! The four rotating partition directions: the ordering of boxes along each,
//! and the pruning test that the ordering allows.
use vstd::prelude::*;
use std::cmp::Ordering;
use crate::geometry::AABB;

verus! {

/// Number of partition directions: minimum x, minimum y, minimum z, and the
/// negated sum of the maxima.
pub const DIRECTIONS: u8 = 4;

/// The direction used one level deeper than `dir`.
pub open spec fn next_dir(dir: int) -> int {
    (dir + 1) % 4
}

/// Negated sum of the maximum corner's coordinates.
pub open spec fn neg_max_sum(b: AABB) -> int {
    -(b.max.x + b.max.y + b.max.z)
}

/// Negated sum of the minimum corner's coordinates.
pub open spec fn neg_min_sum(b: AABB) -> int {
    -(b.min.x + b.min.y + b.min.z)
}

/// The value by which boxes are ordered along direction `dir`.
pub open spec fn key(dir: int, b: AABB) -> int {
    if dir == 0 {
        b.min.x as int
    } else if dir == 1 {
        b.min.y as int
    } else if dir == 2 {
        b.min.z as int
    } else {
        neg_max_sum(b)
    }
}

/// Three-way comparison of two integers.
pub open spec fn cmp_int(a: int, b: int) -> Ordering {
    if a < b {
        Ordering::Less
    } else if a > b {
        Ordering::Greater
    } else {
        Ordering::Equal
    }
}

/// Along direction `dir`, no box of a region whose keys are at least
/// `key(dir, node)` can meet `query`.
pub open spec fn rejects(dir: int, node: AABB, query: AABB) -> bool {
    if dir == 0 {
        query.max.x < node.min.x
    } else if dir == 1 {
        query.max.y < node.min.y
    } else if dir == 2 {
        query.max.z < node.min.z
    } else {
        neg_min_sum(query) < neg_max_sum(node)
    }
}

fn key_of(dir: u8, b: &AABB) -> (r: i64)
    requires
        dir < DIRECTIONS,
    ensures
        r == key(dir as int, *b),
{
    match dir {
        0 => b.min.x as i64,
        1 => b.min.y as i64,
        2 => b.min.z as i64,
        _ => -(b.max.x as i64 + b.max.y as i64 + b.max.z as i64),
    }
}

/// Orders two boxes along direction `dir`.
pub fn bhh_compare(dir: u8, a: &AABB, b: &AABB) -> (r: Ordering)
    requires
        dir < DIRECTIONS,
    ensures
        r == cmp_int(key(dir as int, *a), key(dir as int, *b)),
{
    let ka = key_of(dir, a);
    let kb = key_of(dir, b);
    if ka < kb {
        Ordering::Less
    } else if ka > kb {
        Ordering::Greater
    } else {
        Ordering::Equal
    }
}

/// Whether `query` certainly misses every box whose key along `dir` is at
/// least that of `aabb`.
pub fn bhh_reject(dir: u8, aabb: &AABB, query: &AABB) -> (r: bool)
    requires
        dir < DIRECTIONS,
    ensures
        r == rejects(dir as int, *aabb, *query),
{
    match dir {
        0 => query.max.x < aabb.min.x,
        1 => query.max.y < aabb.min.y,
        2 => query.max.z < aabb.min.z,
        _ => -(query.min.x as i64 + query.min.y as i64 + query.min.z as i64)
            < -(aabb.max.x as i64 + aabb.max.y as i64 + aabb.max.z as i64),
    }
}

/// A rejected query misses not only the node but every box that follows it
/// along the same direction.
pub proof fn lemma_reject_covers(dir: int, node: AABB, other: AABB, query: AABB)
    requires
        0 <= dir < 4,
        rejects(dir, node, query),
        key(dir, node) <= key(dir, other),
    ensures
        !other.spec_intersects(&query),
{
}

/// A box that the pruning test rejects never intersects the query.
pub proof fn lemma_reject_sound(dir: int, aabb: AABB, query: AABB)
    requires
        0 <= dir < 4,
        rejects(dir, aabb, query),
    ensures
        !aabb.spec_intersects(&query),
{
    lemma_reject_covers(dir, aabb, aabb, query);
}

} // verus!
