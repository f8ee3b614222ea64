//! Bounding Half-Space Hierarchy: an implicit spatial index over a flat
//! array of axis-aligned boxes, built in place by median partitioning along
//! four rotating directions and queried by a pruning recursive count.
pub mod geometry;
pub mod direction;
pub mod sort;
pub mod search;

pub use geometry::{Float3, AABB};
pub use direction::{bhh_compare, bhh_reject};
pub use sort::bhh_sort;
pub use search::bhh_search;
