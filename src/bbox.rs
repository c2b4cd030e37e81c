//! The cubic bounding volume at the root of an octree, and its growth.
use vstd::prelude::*;
use crate::scalar::{in_i32, in_i64};
use crate::vec3::{Vec3, min3, max3};

verus! {

/// An axis-aligned cube of side `2 * half_len` centred at `center`.
///
/// A `half_len` that is not positive marks the empty, unsized box.
#[derive(Clone, Copy, Debug, PartialEq, Eq, Structural)]
pub struct BBox {
    pub center: Vec3,
    pub half_len: i64,
}

/// The mathematical cube that a `BBox` stands for.
pub struct Cube {
    pub cx: int,
    pub cy: int,
    pub cz: int,
    pub h: int,
}

impl Cube {
    /// The lowest corner coordinate (over all three axes); the least
    /// centre coordinate when the cube is unsized.
    pub open spec fn low(self) -> int {
        if self.h > 0 {
            min3(self.cx, self.cy, self.cz) - self.h
        } else {
            min3(self.cx, self.cy, self.cz)
        }
    }

    /// The highest corner coordinate (over all three axes); the greatest
    /// centre coordinate when the cube is unsized.
    pub open spec fn high(self) -> int {
        if self.h > 0 {
            max3(self.cx, self.cy, self.cz) + self.h
        } else {
            max3(self.cx, self.cy, self.cz)
        }
    }

    /// The corner coordinate that growth toward `p` moves the centre to.
    pub open spec fn growth_corner(self, p: Vec3) -> int {
        if p.min_spec() < self.low() {
            self.low()
        } else {
            self.high()
        }
    }

    /// The cube after one growth step toward `p`: centred on the chosen
    /// corner, with twice the half length.
    pub open spec fn extended(self, p: Vec3) -> Cube {
        let m = self.growth_corner(p);
        Cube { cx: m, cy: m, cz: m, h: 2 * self.h }
    }

    /// `p` lies in the half-open cube `[c - h, c + h)` on every axis.
    pub open spec fn holds(self, p: Vec3) -> bool {
        &&& self.cx - self.h <= p.x < self.cx + self.h
        &&& self.cy - self.h <= p.y < self.cy + self.h
        &&& self.cz - self.h <= p.z < self.cz + self.h
    }

    /// The centre lies on the main diagonal: all three coordinates agree.
    pub open spec fn is_diagonal(self) -> bool {
        self.cx == self.cy && self.cy == self.cz
    }

    /// `self` is one of the eight octants of `big`: half its size, with its
    /// centre a half length away from `big`'s centre on every axis.
    pub open spec fn is_octant_of(self, big: Cube) -> bool {
        &&& self.h > 0
        &&& big.h == 2 * self.h
        &&& (big.cx == self.cx - self.h || big.cx == self.cx + self.h)
        &&& (big.cy == self.cy - self.h || big.cy == self.cy + self.h)
        &&& (big.cz == self.cz - self.h || big.cz == self.cz + self.h)
    }
}

impl View for BBox {
    type V = Cube;

    open spec fn view(&self) -> Cube {
        Cube {
            cx: self.center.x as int,
            cy: self.center.y as int,
            cz: self.center.z as int,
            h: self.half_len as int,
        }
    }
}

impl BBox {
    /// Growing toward `p` keeps the centre and the half length representable.
    pub open spec fn can_extend(self, p: Vec3) -> bool {
        in_i32(self@.growth_corner(p)) && in_i64(2 * self.half_len)
    }

    /// The empty, unsized box.
    pub fn empty() -> (r: BBox)
        ensures
            r@ == (Cube { cx: 0, cy: 0, cz: 0, h: -1 }),
    {
        BBox { center: Vec3::new(0, 0, 0), half_len: -1 }
    }

    /// The cube of side 2 centred at `p`.
    pub fn new(p: Vec3) -> (r: BBox)
        ensures
            r.center == p,
            r.half_len == 1,
            r@ == (Cube { cx: p.x as int, cy: p.y as int, cz: p.z as int, h: 1 }),
    {
        BBox { center: p, half_len: 1 }
    }

    /// The lowest corner coordinate.
    fn min_p(&self) -> (r: i128)
        ensures
            r == self@.low(),
    {
        if self.half_len > 0 {
            self.center.min_p() as i128 - self.half_len as i128
        } else {
            self.center.min_p() as i128
        }
    }

    /// The highest corner coordinate.
    fn max_p(&self) -> (r: i128)
        ensures
            r == self@.high(),
    {
        if self.half_len > 0 {
            self.center.max_p() as i128 + self.half_len as i128
        } else {
            self.center.max_p() as i128
        }
    }

    /// The centre after growth toward `p`: the lower corner when `p` reaches
    /// below the box, else the upper corner, on all three axes.
    fn move_center(&self, p: Vec3) -> (r: Vec3)
        requires
            in_i32(self@.growth_corner(p)),
        ensures
            r.x == self@.growth_corner(p),
            r.y == self@.growth_corner(p),
            r.z == self@.growth_corner(p),
    {
        let min_p = self.min_p();
        if (p.min_p() as i128) < min_p {
            let m = min_p as i32;
            Vec3::new(m, m, m)
        } else {
            let m = self.max_p() as i32;
            Vec3::new(m, m, m)
        }
    }

    /// Grows the box toward `p`: the centre moves to a corner and the half
    /// length doubles, so the old box becomes one octant of the new one.
    /// The box grows on every call, whether or not it held `p` already.
    pub fn extend(&mut self, p: Vec3)
        requires
            old(self).can_extend(p),
        ensures
            final(self)@ == old(self)@.extended(p),
    {
        self.center = self.move_center(p);
        self.half_len = self.half_len * 2;
    }

    /// `p` lies in the half-open box `[center - half_len, center + half_len)`
    /// on every axis.
    pub fn contains(&self, p: Vec3) -> (r: bool)
        ensures
            r == self@.holds(p),
    {
        let hl: i128 = self.half_len as i128;
        let x: i128 = self.center.x as i128;
        let y: i128 = self.center.y as i128;
        let z: i128 = self.center.z as i128;
        (p.x as i128 >= x - hl) && ((p.x as i128) < x + hl) && (p.y as i128 >= y - hl) && ((
        p.y as i128) < y + hl) && (p.z as i128 >= z - hl) && ((p.z as i128) < z + hl)
    }
}

/// The cube reached from `b` by growing toward each point of `ps` in turn.
pub open spec fn grown(b: Cube, ps: Seq<Vec3>) -> Cube
    decreases ps.len(),
{
    if ps.len() == 0 {
        b
    } else {
        grown(b, ps.drop_last()).extended(ps.last())
    }
}

/// Every point of an octant lies in the enclosing cube.
pub proof fn lemma_octant_inside(small: Cube, big: Cube, q: Vec3)
    requires
        small.is_octant_of(big),
        small.holds(q),
    ensures
        big.holds(q),
{
}

/// One growth step from a cube centred on the diagonal doubles the half
/// length, keeps the centre on the diagonal, and turns the old cube into one
/// octant of the new one, so that nothing the old cube held is lost.
pub proof fn lemma_extend_grows(b: Cube, p: Vec3)
    requires
        b.is_diagonal(),
    ensures
        b.extended(p).h == 2 * b.h,
        b.extended(p).is_diagonal(),
        b.h > 0 ==> b.is_octant_of(b.extended(p)),
        forall|q: Vec3| b.holds(q) ==> #[trigger] b.extended(p).holds(q),
{
    assert forall|q: Vec3| b.holds(q) implies #[trigger] b.extended(p).holds(q) by {
        lemma_octant_inside(b, b.extended(p), q);
    }
}

/// Which points a single growth step captures: for a cube centred at
/// `(c, c, c)` with half length `h`, growth toward a point that reaches below
/// the cube yields `[c - 3h, c + h)` on every axis, and otherwise
/// `[c - h, c + 3h)`.
pub proof fn lemma_extend_captures(b: Cube, p: Vec3)
    requires
        b.is_diagonal(),
        b.h > 0,
    ensures
        b.extended(p).holds(p) <==> (if p.min_spec() < b.cx - b.h {
            b.cx - 3 * b.h <= p.min_spec() && p.max_spec() < b.cx + b.h
        } else {
            p.max_spec() < b.cx + 3 * b.h
        }),
{
}

/// Growing a cube centred on the diagonal toward a sequence of points keeps
/// every point that an earlier cube held, and keeps each point that its own
/// step captured: the final cube holds all of them, and its half length is
/// the first one doubled once per point.
pub proof fn lemma_grown_holds_all(b: Cube, ps: Seq<Vec3>)
    requires
        b.is_diagonal(),
        forall|i: int|
            0 <= i < ps.len() ==> (#[trigger] grown(b, ps.take(i))).extended(ps[i]).holds(ps[i]),
    ensures
        grown(b, ps).is_diagonal(),
        grown(b, ps).h == b.h * vstd::arithmetic::power2::pow2(ps.len() as nat),
        forall|q: Vec3| b.holds(q) ==> #[trigger] grown(b, ps).holds(q),
        forall|i: int| 0 <= i < ps.len() ==> grown(b, ps).holds(#[trigger] ps[i]),
    decreases ps.len(),
{
    if ps.len() > 0 {
        let n = ps.len() - 1;
        let front = ps.drop_last();
        assert forall|i: int| 0 <= i < front.len() implies (#[trigger] grown(
            b,
            front.take(i),
        )).extended(front[i]).holds(front[i]) by {
            assert(front.take(i) == ps.take(i));
            assert(grown(b, ps.take(i)).extended(ps[i]).holds(ps[i]));
        }
        lemma_grown_holds_all(b, front);
        let prev = grown(b, front);
        lemma_extend_grows(prev, ps.last());
        assert(ps.take(n) == front);
        assert(prev.extended(ps[n]).holds(ps[n]));
        vstd::arithmetic::power2::lemma_pow2_unfold(ps.len() as nat);
        assert(b.h * vstd::arithmetic::power2::pow2(ps.len() as nat) == 2 * (b.h
            * vstd::arithmetic::power2::pow2(n as nat))) by (nonlinear_arith)
            requires
                vstd::arithmetic::power2::pow2(ps.len() as nat) == 2
                    * vstd::arithmetic::power2::pow2(n as nat),
        ;
        assert forall|q: Vec3| b.holds(q) implies #[trigger] grown(b, ps).holds(q) by {
            assert(prev.holds(q));
        }
        assert forall|i: int| 0 <= i < ps.len() implies grown(b, ps).holds(#[trigger] ps[i]) by {
            if i < n {
                assert(front[i] == ps[i]);
                assert(prev.holds(front[i]));
            }
        }
    } else {
        vstd::arithmetic::power2::lemma2_to64();
    }
}

} // verus!
