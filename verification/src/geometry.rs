//! Coordinate bit patterns, their total order, and axis-aligned bounding boxes.
//!
//! A coordinate is the bit pattern of an IEEE-754 single-precision number,
//! held in a `u32`. The pipeline never does arithmetic on the numbers the
//! patterns denote; it only compares them under the IEEE-754 total order,
//! which maps to plain integer comparison of a rank derived from the pattern.
use vstd::prelude::*;

verus! {

/// Bit pattern of IEEE-754 single-precision positive infinity.
pub const POS_INFINITY_BITS: u32 = 0x7F80_0000;

/// Bit pattern of IEEE-754 single-precision negative infinity.
pub const NEG_INFINITY_BITS: u32 = 0xFF80_0000;

/// Three coordinates, each an IEEE-754 single-precision bit pattern.
#[derive(Clone, Copy, PartialEq, Eq, Debug)]
pub struct Vec3Data {
    pub x: u32,
    pub y: u32,
    pub z: u32,
}

/// Two coordinates, each an IEEE-754 single-precision bit pattern.
#[derive(Clone, Copy, PartialEq, Eq, Debug)]
pub struct Vec2Data {
    pub x: u32,
    pub y: u32,
}

/// Rank of a coordinate under the IEEE-754 total order: a strictly monotone
/// map from bit patterns (ordered as the numbers they denote, negatives
/// below positives, NaN patterns at the extremes) into `0 .. 2^32`.
pub open spec fn coord_rank(bits: u32) -> int {
    if bits >= 0x8000_0000 {
        0xFFFF_FFFF - bits
    } else {
        bits + 0x8000_0000
    }
}

/// `a` is at or below `b` in the IEEE-754 total order.
pub open spec fn coord_le(a: u32, b: u32) -> bool {
    coord_rank(a) <= coord_rank(b)
}

/// The lower of two coordinates under the total order.
pub open spec fn coord_min(a: u32, b: u32) -> u32 {
    if coord_le(a, b) {
        a
    } else {
        b
    }
}

/// The higher of two coordinates under the total order.
pub open spec fn coord_max(a: u32, b: u32) -> u32 {
    if coord_le(a, b) {
        b
    } else {
        a
    }
}

/// Decides the total order on two coordinate bit patterns.
pub fn coord_le_exec(a: u32, b: u32) -> (r: bool)
    ensures
        r == coord_le(a, b),
{
    let ra: u32 = if a >= 0x8000_0000 {
        0xFFFF_FFFFu32 - a
    } else {
        a + 0x8000_0000
    };
    let rb: u32 = if b >= 0x8000_0000 {
        0xFFFF_FFFFu32 - b
    } else {
        b + 0x8000_0000
    };
    ra <= rb
}

/// An axis-aligned bounding box; corners are coordinate bit patterns.
#[derive(Clone, Copy, PartialEq, Eq, Debug)]
pub struct Aabb {
    pub min: Vec3Data,
    pub max: Vec3Data,
}

impl Aabb {
    /// The empty box: minimum corner at positive infinity, maximum corner at
    /// negative infinity, so that growing by any point replaces both.
    pub open spec fn spec_empty() -> Aabb {
        Aabb {
            min: Vec3Data { x: POS_INFINITY_BITS, y: POS_INFINITY_BITS, z: POS_INFINITY_BITS },
            max: Vec3Data { x: NEG_INFINITY_BITS, y: NEG_INFINITY_BITS, z: NEG_INFINITY_BITS },
        }
    }

    /// Builds the empty box.
    pub fn empty() -> (r: Aabb)
        ensures
            r == Aabb::spec_empty(),
    {
        Aabb {
            min: Vec3Data { x: POS_INFINITY_BITS, y: POS_INFINITY_BITS, z: POS_INFINITY_BITS },
            max: Vec3Data { x: NEG_INFINITY_BITS, y: NEG_INFINITY_BITS, z: NEG_INFINITY_BITS },
        }
    }

    /// The box grown to cover the point `p`.
    pub open spec fn spec_grow(self, p: Vec3Data) -> Aabb {
        Aabb {
            min: Vec3Data {
                x: coord_min(self.min.x, p.x),
                y: coord_min(self.min.y, p.y),
                z: coord_min(self.min.z, p.z),
            },
            max: Vec3Data {
                x: coord_max(self.max.x, p.x),
                y: coord_max(self.max.y, p.y),
                z: coord_max(self.max.z, p.z),
            },
        }
    }

    /// Grows the box to cover the point `p`.
    pub fn grow(self, p: Vec3Data) -> (r: Aabb)
        ensures
            r == self.spec_grow(p),
    {
        Aabb {
            min: Vec3Data {
                x: if coord_le_exec(self.min.x, p.x) {
                    self.min.x
                } else {
                    p.x
                },
                y: if coord_le_exec(self.min.y, p.y) {
                    self.min.y
                } else {
                    p.y
                },
                z: if coord_le_exec(self.min.z, p.z) {
                    self.min.z
                } else {
                    p.z
                },
            },
            max: Vec3Data {
                x: if coord_le_exec(self.max.x, p.x) {
                    p.x
                } else {
                    self.max.x
                },
                y: if coord_le_exec(self.max.y, p.y) {
                    p.y
                } else {
                    self.max.y
                },
                z: if coord_le_exec(self.max.z, p.z) {
                    p.z
                } else {
                    self.max.z
                },
            },
        }
    }

    /// The smallest box covering both operands.
    pub open spec fn spec_union(self, other: Aabb) -> Aabb {
        Aabb {
            min: Vec3Data {
                x: coord_min(self.min.x, other.min.x),
                y: coord_min(self.min.y, other.min.y),
                z: coord_min(self.min.z, other.min.z),
            },
            max: Vec3Data {
                x: coord_max(self.max.x, other.max.x),
                y: coord_max(self.max.y, other.max.y),
                z: coord_max(self.max.z, other.max.z),
            },
        }
    }

    /// Joins the box with `other` into their smallest common cover.
    pub fn union(self, other: Aabb) -> (r: Aabb)
        ensures
            r == self.spec_union(other),
    {
        Aabb {
            min: Vec3Data {
                x: if coord_le_exec(self.min.x, other.min.x) {
                    self.min.x
                } else {
                    other.min.x
                },
                y: if coord_le_exec(self.min.y, other.min.y) {
                    self.min.y
                } else {
                    other.min.y
                },
                z: if coord_le_exec(self.min.z, other.min.z) {
                    self.min.z
                } else {
                    other.min.z
                },
            },
            max: Vec3Data {
                x: if coord_le_exec(self.max.x, other.max.x) {
                    other.max.x
                } else {
                    self.max.x
                },
                y: if coord_le_exec(self.max.y, other.max.y) {
                    other.max.y
                } else {
                    self.max.y
                },
                z: if coord_le_exec(self.max.z, other.max.z) {
                    other.max.z
                } else {
                    self.max.z
                },
            },
        }
    }

    /// `self` covers `inner`: each minimum corner coordinate of `self` is at
    /// or below the one of `inner`, and each maximum at or above, under the
    /// total order.
    pub open spec fn contains(self, inner: Aabb) -> bool {
        &&& coord_le(self.min.x, inner.min.x)
        &&& coord_le(self.min.y, inner.min.y)
        &&& coord_le(self.min.z, inner.min.z)
        &&& coord_le(inner.max.x, self.max.x)
        &&& coord_le(inner.max.y, self.max.y)
        &&& coord_le(inner.max.z, self.max.z)
    }
}

/// Every box covers itself.
pub proof fn lemma_contains_reflexive(a: Aabb)
    ensures
        a.contains(a),
{
}

/// A union covers both of its operands.
pub proof fn lemma_union_contains_operands(a: Aabb, b: Aabb)
    ensures
        a.spec_union(b).contains(a),
        a.spec_union(b).contains(b),
{
}

/// Joining more into a box keeps everything it already covered.
pub proof fn lemma_union_preserves_contains(a: Aabb, b: Aabb, inner: Aabb)
    requires
        a.contains(inner),
    ensures
        a.spec_union(b).contains(inner),
        b.spec_union(a).contains(inner),
{
}

/// Joining the same box on both sides preserves covering.
pub proof fn lemma_union_monotone(a: Aabb, b: Aabb, p: Aabb)
    requires
        a.contains(b),
    ensures
        a.spec_union(p).contains(b.spec_union(p)),
{
}

} // verus!
