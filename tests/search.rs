use bhh::{bhh_compare, bhh_reject, bhh_search, bhh_sort, Float3, AABB};
use rand::Rng;
use std::cmp::Ordering;

fn naive_search(items: &[AABB], query: &AABB) -> u32 {
    items.iter().filter(|a| a.intersects(query)).count() as u32
}

fn point(x: i32, y: i32, z: i32) -> Float3 {
    Float3 { x, y, z }
}

fn cube(x: i32, y: i32, z: i32, size: i32) -> AABB {
    AABB::new(point(x, y, z), point(x + size, y + size, z + size))
}

fn random_boxes(rng: &mut impl Rng, count: usize) -> Vec<AABB> {
    let mut coord = move || rng.gen_range(-50..50);
    (0..count)
        .map(|_| {
            let min = point(coord(), coord(), coord());
            let max = point(coord(), coord(), coord());
            let (min, max) = (min.min(&max), min.max(&max));
            let position = point(coord(), coord(), coord());
            let min = min.add(&position);
            let max = max.add(&position);
            AABB::new(min, max)
        })
        .collect::<Vec<_>>()
}

fn key(dir: u8, b: &AABB) -> i64 {
    match dir {
        0 => b.min.x as i64,
        1 => b.min.y as i64,
        2 => b.min.z as i64,
        _ => -(b.max.x as i64 + b.max.y as i64 + b.max.z as i64),
    }
}

fn is_hierarchy(items: &[AABB], dir: u8) -> bool {
    if items.len() < 2 {
        return true;
    }
    let m = items.len() / 2;
    let k = key(dir, &items[m]);
    items[..m].iter().all(|b| key(dir, b) <= k)
        && items[m + 1..].iter().all(|b| key(dir, b) >= k)
        && is_hierarchy(&items[..m], (dir + 1) % 4)
        && is_hierarchy(&items[m + 1..], (dir + 1) % 4)
}

fn as_tuples(items: &[AABB]) -> Vec<(i32, i32, i32, i32, i32, i32)> {
    let mut v: Vec<_> = items
        .iter()
        .map(|b| (b.min.x, b.min.y, b.min.z, b.max.x, b.max.y, b.max.z))
        .collect();
    v.sort();
    v
}

#[test]
fn test_search_correctness() {
    let mut rng = rand::thread_rng();
    const COUNT: usize = 100;
    let unordered = random_boxes(&mut rng, COUNT);

    let mut ordered = unordered.clone();
    bhh_sort(&mut ordered);

    let query = &unordered[0];

    let naive_unordered = naive_search(unordered.as_slice(), &query);
    let naive_ordered = naive_search(ordered.as_slice(), &query);
    let bhh_result = bhh_search(ordered.as_slice(), &query);

    assert_eq!(naive_ordered, naive_unordered);
    assert_eq!(naive_ordered, bhh_result);
}

#[test]
fn search_matches_scan_for_many_sizes() {
    let mut rng = rand::thread_rng();
    for &n in &[0usize, 1, 2, 3, 7, 100, 10_000] {
        let unordered = random_boxes(&mut rng, n);
        let mut ordered = unordered.clone();
        bhh_sort(&mut ordered);
        assert!(is_hierarchy(&ordered, 0));
        for q in random_boxes(&mut rng, 20) {
            assert_eq!(bhh_search(&ordered, &q), naive_search(&unordered, &q));
        }
    }
}

#[test]
fn search_with_duplicate_boxes() {
    let mut items = vec![cube(0, 0, 0, 2); 9];
    items.extend(vec![cube(10, 10, 10, 1); 6]);
    bhh_sort(&mut items);
    assert_eq!(bhh_search(&items, &cube(1, 1, 1, 0)), 9);
    assert_eq!(bhh_search(&items, &cube(10, 10, 10, 0)), 6);
    assert_eq!(bhh_search(&items, &cube(-5, -5, -5, 30)), 15);
    assert_eq!(bhh_search(&items, &cube(5, 5, 5, 1)), 0);
}

#[test]
fn sort_keeps_the_same_boxes() {
    let mut rng = rand::thread_rng();
    let unordered = random_boxes(&mut rng, 257);
    let mut ordered = unordered.clone();
    bhh_sort(&mut ordered);
    assert_eq!(ordered.len(), unordered.len());
    assert_eq!(as_tuples(&ordered), as_tuples(&unordered));
}

#[test]
fn sort_moves_boxes_into_hierarchy() {
    let mut items: Vec<AABB> = (0..15).rev().map(|i| cube(i, 0, 0, 1)).collect();
    assert!(!is_hierarchy(&items, 0));
    bhh_sort(&mut items);
    assert!(is_hierarchy(&items, 0));
    assert_eq!(items[7].min.x, 7);
}

#[test]
fn sorting_twice_keeps_hierarchy() {
    let mut rng = rand::thread_rng();
    let unordered = random_boxes(&mut rng, 100);
    let mut once = unordered.clone();
    bhh_sort(&mut once);
    let mut twice = once.clone();
    bhh_sort(&mut twice);
    assert!(is_hierarchy(&twice, 0));
    assert_eq!(as_tuples(&twice), as_tuples(&unordered));
    let q = unordered[3];
    assert_eq!(bhh_search(&twice, &q), naive_search(&unordered, &q));
}

#[test]
fn rejected_boxes_never_intersect() {
    let mut rng = rand::thread_rng();
    let boxes = random_boxes(&mut rng, 200);
    let queries = random_boxes(&mut rng, 50);
    for dir in 0..4u8 {
        for a in &boxes {
            for q in &queries {
                if bhh_reject(dir, a, q) {
                    assert!(!a.intersects(q));
                }
            }
        }
    }
}

#[test]
fn reject_by_each_direction() {
    let node = cube(10, 20, 30, 5);
    assert!(bhh_reject(0, &node, &AABB::new(point(0, 0, 0), point(9, 100, 100))));
    assert!(!bhh_reject(0, &node, &AABB::new(point(0, 0, 0), point(10, 100, 100))));
    assert!(bhh_reject(1, &node, &AABB::new(point(0, 0, 0), point(100, 19, 100))));
    assert!(!bhh_reject(1, &node, &AABB::new(point(0, 0, 0), point(100, 20, 100))));
    assert!(bhh_reject(2, &node, &AABB::new(point(0, 0, 0), point(100, 100, 29))));
    assert!(!bhh_reject(2, &node, &AABB::new(point(0, 0, 0), point(100, 100, 30))));
    // node maxima sum to 75
    assert!(bhh_reject(3, &node, &AABB::new(point(26, 25, 25), point(90, 90, 90))));
    assert!(!bhh_reject(3, &node, &AABB::new(point(25, 25, 25), point(90, 90, 90))));
}

#[test]
fn compare_by_each_direction() {
    let a = AABB::new(point(1, 5, 3), point(10, 10, 10));
    let b = AABB::new(point(2, 4, 3), point(1, 40, 4));
    assert_eq!(bhh_compare(0, &a, &b), Ordering::Less);
    assert_eq!(bhh_compare(1, &a, &b), Ordering::Greater);
    assert_eq!(bhh_compare(2, &a, &b), Ordering::Equal);
    // -(30) against -(45)
    assert_eq!(bhh_compare(3, &a, &b), Ordering::Greater);
    assert_eq!(bhh_compare(3, &b, &a), Ordering::Less);
}

#[test]
fn intersects_is_symmetric() {
    let mut rng = rand::thread_rng();
    let boxes = random_boxes(&mut rng, 60);
    for a in &boxes {
        assert!(a.intersects(a));
        for b in &boxes {
            assert_eq!(a.intersects(b), b.intersects(a));
        }
    }
}

#[test]
fn boxes_sharing_a_plane_intersect() {
    let a = AABB::new(point(0, 0, 0), point(5, 5, 5));
    let b = AABB::new(point(5, 0, 0), point(9, 5, 5));
    let c = AABB::new(point(6, 0, 0), point(9, 5, 5));
    assert!(a.intersects(&b));
    assert!(b.intersects(&a));
    assert!(!a.intersects(&c));
    let mut items = vec![b, c];
    bhh_sort(&mut items);
    assert_eq!(bhh_search(&items, &a), 1);
}

#[test]
fn search_on_empty_and_single() {
    let empty: Vec<AABB> = Vec::new();
    assert_eq!(bhh_search(&empty, &cube(0, 0, 0, 100)), 0);
    let mut one = vec![cube(0, 0, 0, 1)];
    bhh_sort(&mut one);
    assert_eq!(bhh_search(&one, &cube(1, 1, 1, 3)), 1);
    assert_eq!(bhh_search(&one, &cube(2, 2, 2, 3)), 0);
}

#[test]
fn vector_arithmetic() {
    let a = point(1, -2, 3);
    let b = point(4, 5, -6);
    assert_eq!(a.add(&b), point(5, 3, -3));
    assert_eq!(a.dot(&b), 4 - 10 - 18);
    assert_eq!(a.min(&b), point(1, -2, -6));
    assert_eq!(a.max(&b), point(4, 5, 3));
    let big = point(i32::MIN, i32::MIN, i32::MIN);
    assert_eq!(big.dot(&big), 3 * (1i128 << 62));
}

#[test]
fn new_keeps_corners() {
    let b = AABB::new(point(-1, -2, -3), point(1, 2, 3));
    assert_eq!(b.min, point(-1, -2, -3));
    assert_eq!(b.max, point(1, 2, 3));
}
