//! Points and axis-aligned boxes with integer coordinates.
use vstd::prelude::*;

verus! {

/// A point or vector in space; coordinates are fixed-point integers.
#[derive(Debug, Clone, Copy, Default, PartialEq, Eq, Structural)]
pub struct Float3 {
    pub x: i32,
    pub y: i32,
    pub z: i32,
}

/// The closed interval `[lo, hi]` meets the closed interval `[a, b]`.
pub open spec fn spans_meet(lo: int, hi: int, a: int, b: int) -> bool {
    lo <= b && hi >= a
}

pub open spec fn fits_i32(v: int) -> bool {
    i32::MIN <= v <= i32::MAX
}

impl Float3 {
    /// The componentwise sum fits in the coordinate type.
    pub open spec fn can_add(&self, rhs: &Float3) -> bool {
        fits_i32(self.x + rhs.x) && fits_i32(self.y + rhs.y) && fits_i32(self.z + rhs.z)
    }

    pub open spec fn spec_dot(&self, rhs: &Float3) -> int {
        self.x * rhs.x + self.y * rhs.y + self.z * rhs.z
    }

    /// Componentwise sum.
    pub fn add(&self, rhs: &Float3) -> (r: Float3)
        requires
            self.can_add(rhs),
        ensures
            r.x == self.x + rhs.x,
            r.y == self.y + rhs.y,
            r.z == self.z + rhs.z,
    {
        Float3 { x: self.x + rhs.x, y: self.y + rhs.y, z: self.z + rhs.z }
    }

    /// Dot product, exact.
    pub fn dot(&self, rhs: &Float3) -> (r: i128)
        ensures
            r == self.spec_dot(rhs),
    {
        proof {
            bound_product(self.x as int, rhs.x as int);
            bound_product(self.y as int, rhs.y as int);
            bound_product(self.z as int, rhs.z as int);
        }
        let x = (self.x as i128) * (rhs.x as i128);
        let y = (self.y as i128) * (rhs.y as i128);
        let z = (self.z as i128) * (rhs.z as i128);
        x + y + z
    }

    /// Componentwise minimum.
    pub fn min(&self, rhs: &Float3) -> (r: Float3)
        ensures
            r.x == if self.x <= rhs.x { self.x } else { rhs.x },
            r.y == if self.y <= rhs.y { self.y } else { rhs.y },
            r.z == if self.z <= rhs.z { self.z } else { rhs.z },
    {
        Float3 {
            x: if self.x <= rhs.x { self.x } else { rhs.x },
            y: if self.y <= rhs.y { self.y } else { rhs.y },
            z: if self.z <= rhs.z { self.z } else { rhs.z },
        }
    }

    /// Componentwise maximum.
    pub fn max(&self, rhs: &Float3) -> (r: Float3)
        ensures
            r.x == if self.x >= rhs.x { self.x } else { rhs.x },
            r.y == if self.y >= rhs.y { self.y } else { rhs.y },
            r.z == if self.z >= rhs.z { self.z } else { rhs.z },
    {
        Float3 {
            x: if self.x >= rhs.x { self.x } else { rhs.x },
            y: if self.y >= rhs.y { self.y } else { rhs.y },
            z: if self.z >= rhs.z { self.z } else { rhs.z },
        }
    }
}

proof fn bound_product(a: int, b: int)
    requires
        fits_i32(a),
        fits_i32(b),
    ensures
        -0x4000_0000_0000_0000 <= a * b <= 0x4000_0000_0000_0000,
{
    assert(-0x8000_0000 <= a <= 0x8000_0000);
    assert(-0x8000_0000 <= b <= 0x8000_0000);
    assert(a * b <= 0x4000_0000_0000_0000 && a * b >= -0x4000_0000_0000_0000) by (nonlinear_arith)
        requires
            -0x8000_0000 <= a <= 0x8000_0000,
            -0x8000_0000 <= b <= 0x8000_0000,
    ;
}

/// An axis-aligned box, the closed region between the corners `min` and `max`.
#[derive(Debug, Clone, Copy, Default, PartialEq, Eq, Structural)]
pub struct AABB {
    pub min: Float3,
    pub max: Float3,
}

impl AABB {
    /// `min` does not exceed `max` on any axis.
    pub open spec fn well_formed(&self) -> bool {
        self.min.x <= self.max.x && self.min.y <= self.max.y && self.min.z <= self.max.z
    }

    /// The two closed boxes share at least one point.
    pub open spec fn spec_intersects(&self, other: &AABB) -> bool {
        spans_meet(self.min.x as int, self.max.x as int, other.min.x as int, other.max.x as int)
        && spans_meet(self.min.y as int, self.max.y as int, other.min.y as int, other.max.y as int)
        && spans_meet(self.min.z as int, self.max.z as int, other.min.z as int, other.max.z as int)
    }

    /// The box with corners `min` and `max`, which must be ordered on every axis.
    pub fn new(min: Float3, max: Float3) -> (r: AABB)
        requires
            min.x <= max.x,
            min.y <= max.y,
            min.z <= max.z,
        ensures
            r.min == min,
            r.max == max,
            r.well_formed(),
    {
        AABB { min, max }
    }

    /// Closed-interval overlap on all three axes: touching boxes intersect.
    pub fn intersects(&self, other: &AABB) -> (r: bool)
        ensures
            r == self.spec_intersects(other),
    {
        self.min.x <= other.max.x && self.max.x >= other.min.x
            && self.min.y <= other.max.y && self.max.y >= other.min.y
            && self.min.z <= other.max.z && self.max.z >= other.min.z
    }
}

/// Intersection is symmetric, and every well-formed box intersects itself.
pub proof fn lemma_intersects_symmetric(a: AABB, b: AABB)
    ensures
        a.spec_intersects(&b) == b.spec_intersects(&a),
        a.well_formed() ==> a.spec_intersects(&a),
{
}

} // verus!
