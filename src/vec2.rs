//! Vectors of the plane, the winding test and line intersection.
use vstd::prelude::*;
use crate::scalar::{in_i32, quot, quot_pos, lerp_of, scalar_lerp, div_toward_zero};

verus! {

/// A point or direction on the integer lattice of the plane.
#[derive(Clone, Copy, Debug, PartialEq, Eq, Structural)]
pub struct Vec2 {
    pub x: i32,
    pub y: i32,
}

/// A point of the plane with rational coordinates `(xn / den, yn / den)`.
#[derive(Clone, Copy, Debug, PartialEq, Eq, Structural)]
pub struct RatVec2 {
    pub xn: i128,
    pub yn: i128,
    pub den: i128,
}

/// Cross product `a.x * b.y - a.y * b.x` (the z part of the 3-D cross product).
pub open spec fn cross_of(a: Vec2, b: Vec2) -> int {
    a.x * b.y - a.y * b.x
}

proof fn lemma_i32_product(a: i32, b: i32)
    ensures
        -0x4000_0000_0000_0000 + 0x8000_0000 <= a * b <= 0x4000_0000_0000_0000,
{
    assert(-0x4000_0000_0000_0000 + 0x8000_0000 <= a * b <= 0x4000_0000_0000_0000)
        by (nonlinear_arith)
        requires
            -0x8000_0000 <= a <= 0x7fff_ffff,
            -0x8000_0000 <= b <= 0x7fff_ffff,
    ;
}

impl Vec2 {
    /// The sum `self + o`, component by component.
    pub open spec fn add_spec(self, o: Vec2) -> Vec2 {
        Vec2 { x: (self.x + o.x) as i32, y: (self.y + o.y) as i32 }
    }

    /// The difference `self - o`, component by component.
    pub open spec fn sub_spec(self, o: Vec2) -> Vec2 {
        Vec2 { x: (self.x - o.x) as i32, y: (self.y - o.y) as i32 }
    }

    /// Each component multiplied by `s`.
    pub open spec fn scale_spec(self, s: int) -> Vec2 {
        Vec2 { x: (self.x * s) as i32, y: (self.y * s) as i32 }
    }

    /// Each component divided by `s`, rounded toward zero.
    pub open spec fn div_spec(self, s: int) -> Vec2 {
        Vec2 { x: quot(self.x as int, s) as i32, y: quot(self.y as int, s) as i32 }
    }

    /// Each component negated.
    pub open spec fn neg_spec(self) -> Vec2 {
        Vec2 { x: (-self.x) as i32, y: (-self.y) as i32 }
    }

    /// The component-wise mean, rounded toward zero.
    pub open spec fn midpoint_spec(self, o: Vec2) -> Vec2 {
        Vec2 { x: quot(self.x + o.x, 2) as i32, y: quot(self.y + o.y, 2) as i32 }
    }

    /// Rotation by a quarter turn counter-clockwise.
    pub open spec fn left_spec(self) -> Vec2 {
        Vec2 { x: (-self.y) as i32, y: self.x }
    }

    /// Rotation by a quarter turn clockwise.
    pub open spec fn right_spec(self) -> Vec2 {
        Vec2 { x: self.y, y: (-self.x) as i32 }
    }

    /// The squared Euclidean distance between `self` and `o`.
    pub open spec fn dist_sq_spec(self, o: Vec2) -> int {
        (self.x - o.x) * (self.x - o.x) + (self.y - o.y) * (self.y - o.y)
    }

    /// The turn from `self` to `o` is counter-clockwise: the signed area is positive.
    pub open spec fn widdershins_spec(self, o: Vec2) -> bool {
        self.x * o.y > o.x * self.y
    }

    /// Creates a vector from its two components.
    pub fn new(x: i32, y: i32) -> (r: Vec2)
        ensures
            r.x == x,
            r.y == y,
    {
        Vec2 { x, y }
    }

    /// The zero vector.
    pub fn zero() -> (r: Vec2)
        ensures
            r.x == 0,
            r.y == 0,
    {
        Vec2::new(0, 0)
    }

    /// Component-wise sum.
    pub fn add(self, o: Vec2) -> (r: Vec2)
        requires
            in_i32(self.x + o.x),
            in_i32(self.y + o.y),
        ensures
            r == self.add_spec(o),
            r.x == self.x + o.x,
            r.y == self.y + o.y,
    {
        Vec2::new(self.x + o.x, self.y + o.y)
    }

    /// Component-wise difference.
    pub fn sub(self, o: Vec2) -> (r: Vec2)
        requires
            in_i32(self.x - o.x),
            in_i32(self.y - o.y),
        ensures
            r == self.sub_spec(o),
            r.x == self.x - o.x,
            r.y == self.y - o.y,
    {
        Vec2::new(self.x - o.x, self.y - o.y)
    }

    /// Multiplies each component by the scalar `s`.
    pub fn scale(self, s: i32) -> (r: Vec2)
        requires
            in_i32(self.x * s),
            in_i32(self.y * s),
        ensures
            r == self.scale_spec(s as int),
            r.x == self.x * s,
            r.y == self.y * s,
    {
        Vec2::new(self.x * s, self.y * s)
    }

    /// Divides each component by the scalar `s`, rounding toward zero.
    pub fn div(self, s: i32) -> (r: Vec2)
        requires
            s != 0,
            !(s == -1 && (self.x == i32::MIN || self.y == i32::MIN)),
        ensures
            r == self.div_spec(s as int),
            r.x == quot(self.x as int, s as int),
            r.y == quot(self.y as int, s as int),
    {
        Vec2::new(div_toward_zero(self.x, s), div_toward_zero(self.y, s))
    }

    /// Negates each component.
    pub fn neg(self) -> (r: Vec2)
        requires
            self.x != i32::MIN,
            self.y != i32::MIN,
        ensures
            r == self.neg_spec(),
            r.x == -self.x,
            r.y == -self.y,
    {
        Vec2::new(-self.x, -self.y)
    }

    /// Cross product `self.x * o.y - self.y * o.x`.
    pub fn cross(self, o: Vec2) -> (r: i64)
        ensures
            r == cross_of(self, o),
    {
        proof {
            lemma_i32_product(self.x, o.y);
            lemma_i32_product(self.y, o.x);
        }
        self.x as i64 * o.y as i64 - self.y as i64 * o.x as i64
    }

    /// Squared distance between `self` and `o`.
    pub fn dist_sq(self, o: Vec2) -> (r: i128)
        ensures
            r == self.dist_sq_spec(o),
            r >= 0,
    {
        let dx: i128 = self.x as i128 - o.x as i128;
        let dy: i128 = self.y as i128 - o.y as i128;
        assert(0 <= dx * dx <= 0x1_0000_0000 * 0x1_0000_0000) by (nonlinear_arith)
            requires
                -0x1_0000_0000 <= dx <= 0x1_0000_0000,
        ;
        assert(0 <= dy * dy <= 0x1_0000_0000 * 0x1_0000_0000) by (nonlinear_arith)
            requires
                -0x1_0000_0000 <= dy <= 0x1_0000_0000,
        ;
        dx * dx + dy * dy
    }

    /// Midpoint of `self` and `o`, each coordinate rounded toward zero.
    pub fn midpoint(self, o: Vec2) -> (r: Vec2)
        ensures
            r == self.midpoint_spec(o),
            r.x == quot(self.x + o.x, 2),
            r.y == quot(self.y + o.y, 2),
    {
        let x: i64 = (self.x as i64 + o.x as i64) / 2;
        let y: i64 = (self.y as i64 + o.y as i64) / 2;
        Vec2::new(x as i32, y as i32)
    }

    /// Left-hand perpendicular: a quarter turn counter-clockwise.
    pub fn left(self) -> (r: Vec2)
        requires
            self.y != i32::MIN,
        ensures
            r == self.left_spec(),
            r.x == -self.y,
            r.y == self.x,
    {
        Vec2::new(-self.y, self.x)
    }

    /// Right-hand perpendicular: a quarter turn clockwise.
    pub fn right(self) -> (r: Vec2)
        requires
            self.x != i32::MIN,
        ensures
            r == self.right_spec(),
            r.x == self.y,
            r.y == -self.x,
    {
        Vec2::new(self.y, -self.x)
    }

    /// Winding order of two edges that point toward the same vertex: true
    /// when the turn from `self` to `o` is counter-clockwise. Collinear
    /// edges give false.
    pub fn widdershins(self, o: Vec2) -> (r: bool)
        ensures
            r == self.widdershins_spec(o),
            r == (cross_of(self, o) > 0),
    {
        proof {
            lemma_i32_product(self.x, o.y);
            lemma_i32_product(o.x, self.y);
        }
        (self.x as i64 * o.y as i64) > (o.x as i64 * self.y as i64)
    }

    /// Linear interpolation `o + (self - o) * t` of each component.
    pub fn lerp(self, o: Vec2, t: i32) -> (r: Vec2)
        requires
            in_i32(lerp_of(self.x as int, o.x as int, t as int)),
            in_i32(lerp_of(self.y as int, o.y as int, t as int)),
        ensures
            r.x == lerp_of(self.x as int, o.x as int, t as int),
            r.y == lerp_of(self.y as int, o.y as int, t as int),
    {
        let x = scalar_lerp(self.x, o.x, t);
        let y = scalar_lerp(self.y, o.y, t);
        Vec2::new(x, y)
    }
}

/// Denominator of the line intersection: the cross product of the two
/// direction vectors `a0 - a1` and `b0 - b1`. It is zero exactly when the
/// lines are parallel or coincide.
pub open spec fn intersection_den(a0: Vec2, a1: Vec2, b0: Vec2, b1: Vec2) -> int {
    (a0.x - a1.x) * (b0.y - b1.y) - (a0.y - a1.y) * (b0.x - b1.x)
}

/// The intersection of the line through `a0, a1` with the line through
/// `b0, b1`, by the 2x2 determinant formula; none when the lines are parallel.
pub open spec fn intersection_spec(a0: Vec2, a1: Vec2, b0: Vec2, b1: Vec2) -> Option<RatVec2> {
    let den = intersection_den(a0, a1, b0, b1);
    let ca = cross_of(a0, a1);
    let cb = cross_of(b0, b1);
    if den == 0 {
        None
    } else {
        Some(
            RatVec2 {
                xn: ((b0.x - b1.x) * ca - (a0.x - a1.x) * cb) as i128,
                yn: ((b0.y - b1.y) * ca - (a0.y - a1.y) * cb) as i128,
                den: den as i128,
            },
        )
    }
}

/// The rational point `r` lies on the line through `p` and `q`.
pub open spec fn on_line(r: RatVec2, p: Vec2, q: Vec2) -> bool {
    (r.xn - p.x * r.den) * (q.y - p.y) == (r.yn - p.y * r.den) * (q.x - p.x)
}

/// The point given by the determinant formula lies on both lines.
pub proof fn lemma_intersection_on_both_lines(a0: Vec2, a1: Vec2, b0: Vec2, b1: Vec2)
    requires
        intersection_den(a0, a1, b0, b1) != 0,
    ensures
        on_line(intersection_spec(a0, a1, b0, b1).unwrap(), a1, a0),
        on_line(intersection_spec(a0, a1, b0, b1).unwrap(), b1, b0),
{
    let (a0x, a0y, a1x, a1y) = (a0.x as int, a0.y as int, a1.x as int, a1.y as int);
    let (b0x, b0y, b1x, b1y) = (b0.x as int, b0.y as int, b1.x as int, b1.y as int);
    let avx = a0x - a1x;
    let avy = a0y - a1y;
    let bvx = b0x - b1x;
    let bvy = b0y - b1y;
    let ca = a0x * a1y - a0y * a1x;
    let cb = b0x * b1y - b0y * b1x;
    let den = avx * bvy - avy * bvx;
    let xn = bvx * ca - avx * cb;
    let yn = bvy * ca - avy * cb;
    lemma_intersection_bounds(a0, a1, b0, b1);
    let r = intersection_spec(a0, a1, b0, b1).unwrap();
    assert(r.xn == xn && r.yn == yn && r.den == den);
    assert(a1x * avy - a1y * avx == -ca) by (nonlinear_arith)
        requires
            avx == a0x - a1x,
            avy == a0y - a1y,
            ca == a0x * a1y - a0y * a1x,
    ;
    lemma_combination_cross(avx, avy, bvx, bvy, ca, cb);
    lemma_shifted_cross(xn, yn, a1x, a1y, avx, avy, den, ca);
    assert(b1x * bvy - b1y * bvx == -cb) by (nonlinear_arith)
        requires
            bvx == b0x - b1x,
            bvy == b0y - b1y,
            cb == b0x * b1y - b0y * b1x,
    ;
    lemma_combination_cross(avx, avy, bvx, bvy, ca, cb);
    lemma_shifted_cross(xn, yn, b1x, b1y, bvx, bvy, den, cb);
}

/// Cross products of the combination `v * c - u * d` with `u` and with `v`.
proof fn lemma_combination_cross(ux: int, uy: int, vx: int, vy: int, c: int, d: int)
    ensures
        (vx * c - ux * d) * uy - (vy * c - uy * d) * ux == -c * (ux * vy - uy * vx),
        (vx * c - ux * d) * vy - (vy * c - uy * d) * vx == -d * (ux * vy - uy * vx),
{
    assert((vx * c - ux * d) * uy == vx * c * uy - ux * d * uy) by (nonlinear_arith);
    assert((vy * c - uy * d) * ux == vy * c * ux - uy * d * ux) by (nonlinear_arith);
    assert(ux * d * uy == uy * d * ux) by (nonlinear_arith);
    assert(vx * c * uy - vy * c * ux == -c * (ux * vy - uy * vx)) by (nonlinear_arith);
    assert((vx * c - ux * d) * vy == vx * c * vy - ux * d * vy) by (nonlinear_arith);
    assert((vy * c - uy * d) * vx == vy * c * vx - uy * d * vx) by (nonlinear_arith);
    assert(vx * c * vy == vy * c * vx) by (nonlinear_arith);
    assert(uy * d * vx - ux * d * vy == -d * (ux * vy - uy * vx)) by (nonlinear_arith);
}

/// If `(xn, yn) x v == -c * den` and `p x v == -c`, then `(xn, yn) - den * p`
/// is parallel to `v`.
proof fn lemma_shifted_cross(xn: int, yn: int, px: int, py: int, vx: int, vy: int, den: int, c: int)
    requires
        xn * vy - yn * vx == -c * den,
        px * vy - py * vx == -c,
    ensures
        (xn - px * den) * vy == (yn - py * den) * vx,
{
    assert((xn - px * den) * vy - (yn - py * den) * vx == (xn * vy - yn * vx) - den * (px * vy - py * vx))
        by (nonlinear_arith);
    assert(den * (px * vy - py * vx) == -c * den) by (nonlinear_arith)
        requires
            px * vy - py * vx == -c,
    ;
}

proof fn lemma_wide_product(u: int, c: int)
    requires
        -0x1_0000_0000 <= u <= 0x1_0000_0000,
        -0x8000_0000_0000_0000 <= c <= 0x8000_0000_0000_0000,
    ensures
        -0x8000_0000_0000_0000_0000_0000 <= u * c <= 0x8000_0000_0000_0000_0000_0000,
{
    assert(-0x8000_0000_0000_0000_0000_0000 <= u * c <= 0x8000_0000_0000_0000_0000_0000)
        by (nonlinear_arith)
        requires
            -0x1_0000_0000 <= u <= 0x1_0000_0000,
            -0x8000_0000_0000_0000 <= c <= 0x8000_0000_0000_0000,
    ;
}

/// The terms of the determinant formula fit in an `i128`.
proof fn lemma_intersection_bounds(a0: Vec2, a1: Vec2, b0: Vec2, b1: Vec2)
    ensures
        -0x4_0000_0000_0000_0000 <= intersection_den(a0, a1, b0, b1) <= 0x4_0000_0000_0000_0000,
        -0x1_0000_0000_0000_0000_0000_0000 <= (b0.x - b1.x) * cross_of(a0, a1) - (a0.x - a1.x) * cross_of(b0, b1) <= 0x1_0000_0000_0000_0000_0000_0000,
        -0x1_0000_0000_0000_0000_0000_0000 <= (b0.y - b1.y) * cross_of(a0, a1) - (a0.y - a1.y) * cross_of(b0, b1) <= 0x1_0000_0000_0000_0000_0000_0000,
{
    lemma_i32_product(a0.x, a1.y);
    lemma_i32_product(a0.y, a1.x);
    lemma_i32_product(b0.x, b1.y);
    lemma_i32_product(b0.y, b1.x);
    let ca = cross_of(a0, a1);
    let cb = cross_of(b0, b1);
    assert(-0x8000_0000_0000_0000 <= ca <= 0x8000_0000_0000_0000);
    assert(-0x8000_0000_0000_0000 <= cb <= 0x8000_0000_0000_0000);
    let avx = a0.x - a1.x;
    let avy = a0.y - a1.y;
    let bvx = b0.x - b1.x;
    let bvy = b0.y - b1.y;
    assert(-0x2_0000_0000_0000_0000 <= avx * bvy <= 0x2_0000_0000_0000_0000) by (nonlinear_arith)
        requires
            -0x1_0000_0000 <= avx <= 0x1_0000_0000,
            -0x1_0000_0000 <= bvy <= 0x1_0000_0000,
    ;
    assert(-0x2_0000_0000_0000_0000 <= avy * bvx <= 0x2_0000_0000_0000_0000) by (nonlinear_arith)
        requires
            -0x1_0000_0000 <= avy <= 0x1_0000_0000,
            -0x1_0000_0000 <= bvx <= 0x1_0000_0000,
    ;
    lemma_wide_product(avx, ca);
    lemma_wide_product(avy, ca);
    lemma_wide_product(bvx, ca);
    lemma_wide_product(bvy, ca);
    lemma_wide_product(avx, cb);
    lemma_wide_product(avy, cb);
    assert(-0x8000_0000_0000_0000_0000_0000 <= bvx * ca <= 0x8000_0000_0000_0000_0000_0000);
    assert(-0x8000_0000_0000_0000_0000_0000 <= avx * cb <= 0x8000_0000_0000_0000_0000_0000);
    assert(-0x8000_0000_0000_0000_0000_0000 <= bvy * ca <= 0x8000_0000_0000_0000_0000_0000);
    assert(-0x8000_0000_0000_0000_0000_0000 <= avy * cb <= 0x8000_0000_0000_0000_0000_0000);
}

/// Intersection of the infinite lines through `a0, a1` and through `b0, b1`.
///
/// The result is exact, as numerators over one shared denominator, and may
/// lie outside both segments. Returns `None` when the direction vectors are
/// parallel, which covers both disjoint and coincident lines.
pub fn intersection(a0: Vec2, a1: Vec2, b0: Vec2, b1: Vec2) -> (r: Option<RatVec2>)
    ensures
        r == intersection_spec(a0, a1, b0, b1),
        r is None <==> intersection_den(a0, a1, b0, b1) == 0,
        r is Some ==> r->0.den == intersection_den(a0, a1, b0, b1),
        r is Some ==> on_line(r->0, a1, a0) && on_line(r->0, b1, b0),
{
    proof {
        lemma_intersection_bounds(a0, a1, b0, b1);
        if intersection_den(a0, a1, b0, b1) != 0 {
            lemma_intersection_on_both_lines(a0, a1, b0, b1);
        }
    }
    let avx: i128 = a0.x as i128 - a1.x as i128;
    let avy: i128 = a0.y as i128 - a1.y as i128;
    let bvx: i128 = b0.x as i128 - b1.x as i128;
    let bvy: i128 = b0.y as i128 - b1.y as i128;
    assert(-0x2_0000_0000_0000_0000 <= avx * bvy <= 0x2_0000_0000_0000_0000) by (nonlinear_arith)
        requires
            -0x1_0000_0000 <= avx <= 0x1_0000_0000,
            -0x1_0000_0000 <= bvy <= 0x1_0000_0000,
    ;
    assert(-0x2_0000_0000_0000_0000 <= avy * bvx <= 0x2_0000_0000_0000_0000) by (nonlinear_arith)
        requires
            -0x1_0000_0000 <= avy <= 0x1_0000_0000,
            -0x1_0000_0000 <= bvx <= 0x1_0000_0000,
    ;
    let den: i128 = avx * bvy - avy * bvx;
    if den != 0 {
        let ca: i128 = a0.cross(a1) as i128;
        let cb: i128 = b0.cross(b1) as i128;
        proof {
            lemma_wide_product(avx as int, ca as int);
            lemma_wide_product(avy as int, ca as int);
            lemma_wide_product(bvx as int, ca as int);
            lemma_wide_product(bvy as int, ca as int);
            lemma_wide_product(avx as int, cb as int);
            lemma_wide_product(avy as int, cb as int);
        }
        assert(-0x8000_0000_0000_0000_0000_0000 <= bvx * ca <= 0x8000_0000_0000_0000_0000_0000);
        assert(-0x8000_0000_0000_0000_0000_0000 <= avx * cb <= 0x8000_0000_0000_0000_0000_0000);
        assert(-0x8000_0000_0000_0000_0000_0000 <= bvy * ca <= 0x8000_0000_0000_0000_0000_0000);
        assert(-0x8000_0000_0000_0000_0000_0000 <= avy * cb <= 0x8000_0000_0000_0000_0000_0000);
        let xn: i128 = bvx * ca - avx * cb;
        let yn: i128 = bvy * ca - avy * cb;
        Some(RatVec2 { xn, yn, den })
    } else {
        None
    }
}

/// Adding `b` and then subtracting it gives back `a`.
pub proof fn lemma_add_sub_inverse(a: Vec2, b: Vec2)
    requires
        in_i32(a.x + b.x),
        in_i32(a.y + b.y),
    ensures
        a.add_spec(b).sub_spec(b) == a,
{
}

/// Scaling by a nonzero `s` and then dividing by `s` gives back `a`.
pub proof fn lemma_scale_div_inverse(a: Vec2, s: int)
    requires
        s != 0,
        in_i32(a.x * s),
        in_i32(a.y * s),
    ensures
        a.scale_spec(s).div_spec(s) == a,
{
    lemma_quot_of_multiple(a.x as int, s);
    lemma_quot_of_multiple(a.y as int, s);
}

proof fn lemma_quot_of_multiple(v: int, s: int)
    requires
        s != 0,
    ensures
        quot(v * s, s) == v,
{
    let m: int = if s > 0 { s } else { -s };
    let w: int = if s > 0 { v } else { -v };
    assert(v * s == w * m) by (nonlinear_arith)
        requires
            m == (if s > 0 { s } else { -s }),
            w == (if s > 0 { v } else { -v }),
    ;
    if w >= 0 {
        vstd::arithmetic::div_mod::lemma_div_by_multiple(w, m);
        assert(w * m >= 0) by (nonlinear_arith)
            requires
                w >= 0,
                m > 0,
        ;
        assert(quot_pos(w * m, m) == w);
    } else {
        vstd::arithmetic::div_mod::lemma_div_by_multiple(-w, m);
        assert(w * m < 0) by (nonlinear_arith)
            requires
                w < 0,
                m > 0,
        ;
        assert(-(w * m) == (-w) * m) by (nonlinear_arith);
        assert(quot_pos(w * m, m) == w);
    }
}

/// Negating twice gives back `a`.
pub proof fn lemma_neg_involutive(a: Vec2)
    requires
        a.x != i32::MIN,
        a.y != i32::MIN,
    ensures
        a.neg_spec().neg_spec() == a,
{
}

/// The squared distance is symmetric and never negative.
pub proof fn lemma_dist_sq_symmetric(a: Vec2, b: Vec2)
    ensures
        a.dist_sq_spec(b) == b.dist_sq_spec(a),
        a.dist_sq_spec(b) >= 0,
{
    assert((a.x - b.x) * (a.x - b.x) == (b.x - a.x) * (b.x - a.x)) by (nonlinear_arith);
    assert((a.y - b.y) * (a.y - b.y) == (b.y - a.y) * (b.y - a.y)) by (nonlinear_arith);
    assert((a.x - b.x) * (a.x - b.x) >= 0) by (nonlinear_arith);
    assert((a.y - b.y) * (a.y - b.y) >= 0) by (nonlinear_arith);
}

/// The midpoint does not depend on the order of its arguments.
pub proof fn lemma_midpoint_symmetric(a: Vec2, b: Vec2)
    ensures
        a.midpoint_spec(b) == b.midpoint_spec(a),
{
}

/// A left turn undoes a right turn, and a right turn undoes a left turn.
pub proof fn lemma_left_right_inverse(a: Vec2)
    requires
        a.x != i32::MIN,
        a.y != i32::MIN,
    ensures
        a.left_spec().right_spec() == a,
        a.right_spec().left_spec() == a,
{
}

/// Swapping two non-collinear edges reverses the winding order; collinear
/// edges wind neither way.
pub proof fn lemma_widdershins_antisymmetric(u: Vec2, v: Vec2)
    ensures
        cross_of(u, v) != 0 ==> u.widdershins_spec(v) == !v.widdershins_spec(u),
        cross_of(u, v) == 0 ==> !u.widdershins_spec(v) && !v.widdershins_spec(u),
{
    assert(u.y * v.x == v.x * u.y && u.x * v.y == v.y * u.x) by (nonlinear_arith);
}

} // verus!
