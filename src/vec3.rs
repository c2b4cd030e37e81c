//! Vectors of space and the handle-to-position capability.
use vstd::prelude::*;
use crate::scalar::quot;

verus! {

/// A point of the integer lattice in space.
#[derive(Clone, Copy, Debug, PartialEq, Eq, Structural)]
pub struct Vec3 {
    pub x: i32,
    pub y: i32,
    pub z: i32,
}

/// Resolves an opaque handle to the position it stands for.
///
/// Implemented by whoever owns the handle table; for the lifetime of a query
/// the same handle must give the same position.
pub trait Pos {
    fn pos(&self, hnd: u32) -> Vec3;
}

/// The least of three values.
pub open spec fn min3(a: int, b: int, c: int) -> int {
    if a <= b && a <= c {
        a
    } else if b <= c {
        b
    } else {
        c
    }
}

/// The greatest of three values.
pub open spec fn max3(a: int, b: int, c: int) -> int {
    if a >= b && a >= c {
        a
    } else if b >= c {
        b
    } else {
        c
    }
}

impl Vec3 {
    /// The least coordinate.
    pub open spec fn min_spec(self) -> int {
        min3(self.x as int, self.y as int, self.z as int)
    }

    /// The greatest coordinate.
    pub open spec fn max_spec(self) -> int {
        max3(self.x as int, self.y as int, self.z as int)
    }

    /// The component-wise mean, rounded toward zero.
    pub open spec fn midpoint_spec(self, o: Vec3) -> Vec3 {
        Vec3 {
            x: quot(self.x + o.x, 2) as i32,
            y: quot(self.y + o.y, 2) as i32,
            z: quot(self.z + o.z, 2) as i32,
        }
    }

    /// The squared Euclidean distance between `self` and `o`.
    pub open spec fn dist_sq_spec(self, o: Vec3) -> int {
        (o.x - self.x) * (o.x - self.x) + (o.y - self.y) * (o.y - self.y) + (o.z - self.z) * (
        o.z - self.z)
    }

    /// Creates a vector from its three components.
    pub fn new(x: i32, y: i32, z: i32) -> (r: Vec3)
        ensures
            r.x == x,
            r.y == y,
            r.z == z,
    {
        Vec3 { x, y, z }
    }

    /// The least of the three coordinates.
    pub fn min_p(self) -> (r: i32)
        ensures
            r == self.min_spec(),
    {
        let m = if self.x <= self.y { self.x } else { self.y };
        if m <= self.z { m } else { self.z }
    }

    /// The greatest of the three coordinates.
    pub fn max_p(self) -> (r: i32)
        ensures
            r == self.max_spec(),
    {
        let m = if self.x >= self.y { self.x } else { self.y };
        if m >= self.z { m } else { self.z }
    }

    /// Midpoint of `self` and `o`, each coordinate rounded toward zero.
    pub fn midpoint(self, o: Vec3) -> (r: Vec3)
        ensures
            r == self.midpoint_spec(o),
            r.x == quot(self.x + o.x, 2),
            r.y == quot(self.y + o.y, 2),
            r.z == quot(self.z + o.z, 2),
    {
        let x: i64 = (self.x as i64 + o.x as i64) / 2;
        let y: i64 = (self.y as i64 + o.y as i64) / 2;
        let z: i64 = (self.z as i64 + o.z as i64) / 2;
        Vec3::new(x as i32, y as i32, z as i32)
    }

    /// Squared distance between `self` and `o`.
    pub fn dist_sq(self, o: Vec3) -> (r: i128)
        ensures
            r == self.dist_sq_spec(o),
            r >= 0,
    {
        let dx: i128 = o.x as i128 - self.x as i128;
        let dy: i128 = o.y as i128 - self.y as i128;
        let dz: i128 = o.z as i128 - self.z as i128;
        proof {
            lemma_square_bound(dx as int);
            lemma_square_bound(dy as int);
            lemma_square_bound(dz as int);
        }
        dx * dx + dy * dy + dz * dz
    }
}

proof fn lemma_square_bound(d: int)
    requires
        -0x1_0000_0000 <= d <= 0x1_0000_0000,
    ensures
        0 <= d * d <= 0x1_0000_0000 * 0x1_0000_0000,
{
    assert(0 <= d * d <= 0x1_0000_0000 * 0x1_0000_0000) by (nonlinear_arith)
        requires
            -0x1_0000_0000 <= d <= 0x1_0000_0000,
    ;
}

/// The midpoint does not depend on the order of its arguments.
pub proof fn lemma_midpoint3_symmetric(a: Vec3, b: Vec3)
    ensures
        a.midpoint_spec(b) == b.midpoint_spec(a),
{
}

/// The squared distance is symmetric and never negative.
pub proof fn lemma_dist_sq3_symmetric(a: Vec3, b: Vec3)
    ensures
        a.dist_sq_spec(b) == b.dist_sq_spec(a),
        a.dist_sq_spec(b) >= 0,
{
    assert((b.x - a.x) * (b.x - a.x) == (a.x - b.x) * (a.x - b.x)) by (nonlinear_arith);
    assert((b.y - a.y) * (b.y - a.y) == (a.y - b.y) * (a.y - b.y)) by (nonlinear_arith);
    assert((b.z - a.z) * (b.z - a.z) == (a.z - b.z) * (a.z - b.z)) by (nonlinear_arith);
    assert((b.x - a.x) * (b.x - a.x) >= 0) by (nonlinear_arith);
    assert((b.y - a.y) * (b.y - a.y) >= 0) by (nonlinear_arith);
    assert((b.z - a.z) * (b.z - a.z) >= 0) by (nonlinear_arith);
}

} // verus!
