use octree_geom::bbox::BBox;
use octree_geom::scalar::{div_toward_zero, scalar_lerp};
use octree_geom::vec2::{intersection, RatVec2, Vec2};
use octree_geom::vec3::Vec3;

#[test]
fn vec2_operations() {
    let a = Vec2::new(2, 1);
    let b = Vec2::new(3, 4);
    assert_eq!(a.add(b), Vec2::new(5, 5));
    assert_eq!(b.sub(a), Vec2::new(1, 3));
    assert_eq!(a.scale(2), Vec2::new(4, 2));
    assert_eq!(a.div(2), Vec2::new(1, 0));
    assert_eq!(a.neg(), Vec2::new(-2, -1));
    assert_eq!(a.dist_sq(b), 10);
    assert_eq!(b.dist_sq(Vec2::zero()), 25);
    assert_eq!(a.midpoint(b), Vec2::new(2, 2));
    assert_eq!(a.left(), Vec2::new(-1, 2));
    assert_eq!(a.right(), Vec2::new(1, -2));
    assert_eq!(a.cross(b), 5);
    assert_eq!(b.cross(a), -5);
}

#[test]
fn zero_vector() {
    assert_eq!(Vec2::zero(), Vec2 { x: 0, y: 0 });
}

#[test]
fn division_rounds_toward_zero() {
    assert_eq!(Vec2::new(-7, 7).div(2), Vec2::new(-3, 3));
    assert_eq!(Vec2::new(-7, 7).div(-2), Vec2::new(3, -3));
    assert_eq!(div_toward_zero(i32::MIN, 1), i32::MIN);
    assert_eq!(div_toward_zero(i32::MIN, -2), 1 << 30);
    assert_eq!(div_toward_zero(5, -1), -5);
}

#[test]
fn add_sub_scale_div_neg_invert() {
    let pairs = [(Vec2::new(2, 1), Vec2::new(3, 4)), (Vec2::new(-9, 17), Vec2::new(40, -3))];
    for (a, b) in pairs {
        assert_eq!(a.add(b).sub(b), a);
        assert_eq!(a.neg().neg(), a);
        for s in [1, -1, 3, -7] {
            assert_eq!(a.scale(s).div(s), a);
        }
    }
}

#[test]
fn dist_sq_is_symmetric() {
    let a = Vec2::new(-5, 8);
    let b = Vec2::new(7, -1);
    assert_eq!(a.dist_sq(b), b.dist_sq(a));
    assert_eq!(a.dist_sq(b), 225);
    let extreme = Vec2::new(i32::MIN, i32::MIN);
    let other = Vec2::new(i32::MAX, i32::MAX);
    assert_eq!(extreme.dist_sq(other), 2 * (u32::MAX as i128) * (u32::MAX as i128));
}

#[test]
fn midpoint_is_symmetric() {
    let a = Vec2::new(-3, 5);
    let b = Vec2::new(0, 0);
    assert_eq!(a.midpoint(b), b.midpoint(a));
    assert_eq!(a.midpoint(b), Vec2::new(-1, 2));
    let big = Vec2::new(i32::MAX, i32::MIN);
    assert_eq!(big.midpoint(big), big);
}

#[test]
fn left_and_right_undo_each_other() {
    let a = Vec2::new(6, -11);
    assert_eq!(a.left().right(), a);
    assert_eq!(a.right().left(), a);
}

#[test]
fn widdershins_order() {
    let u = Vec2::new(1, 0);
    let v = Vec2::new(0, 1);
    assert!(u.widdershins(v));
    assert!(!v.widdershins(u));
    let w = Vec2::new(3, 0);
    assert!(!u.widdershins(w));
    assert!(!w.widdershins(u));
    let n = Vec2::new(-2, 0);
    assert!(!u.widdershins(n));
    assert!(!n.widdershins(u));
}

#[test]
fn intersection_of_parallel_lines_is_none() {
    let r = intersection(Vec2::new(0, 0), Vec2::new(1, 0), Vec2::new(0, 1), Vec2::new(1, 1));
    assert_eq!(r, None);
    let same = intersection(Vec2::new(0, 0), Vec2::new(1, 1), Vec2::new(2, 2), Vec2::new(5, 5));
    assert_eq!(same, None);
}

#[test]
fn intersection_of_crossing_lines() {
    let r = intersection(Vec2::new(0, 0), Vec2::new(2, 2), Vec2::new(0, 2), Vec2::new(2, 0));
    assert_eq!(r, Some(RatVec2 { xn: -8, yn: -8, den: -8 }));
    let half = intersection(Vec2::new(0, 0), Vec2::new(1, 0), Vec2::new(1, 1), Vec2::new(2, 3));
    assert_eq!(half, Some(RatVec2 { xn: 1, yn: 0, den: 2 }));
}

#[test]
fn intersection_may_lie_outside_segments() {
    let r = intersection(Vec2::new(0, 0), Vec2::new(1, 0), Vec2::new(5, -1), Vec2::new(5, 1));
    let p = r.unwrap();
    assert_eq!(p.xn, 5 * p.den);
    assert_eq!(p.yn, 0);
}

#[test]
fn lerp_reversed_convention() {
    let a = Vec2::new(10, -4);
    let b = Vec2::new(2, 6);
    assert_eq!(a.lerp(b, 0), b);
    assert_eq!(a.lerp(b, 1), a);
    assert_eq!(a.lerp(b, 2), Vec2::new(18, -14));
    assert_eq!(scalar_lerp(7, 3, 0), 3);
    assert_eq!(scalar_lerp(7, 3, 1), 7);
    assert_eq!(scalar_lerp(7, 3, -1), -1);
}

#[test]
fn vec3_operations() {
    let a = Vec3::new(4, -2, 9);
    let b = Vec3::new(1, 2, 3);
    assert_eq!(a.min_p(), -2);
    assert_eq!(a.max_p(), 9);
    assert_eq!(a.midpoint(b), Vec3::new(2, 0, 6));
    assert_eq!(b.midpoint(a), a.midpoint(b));
    assert_eq!(a.dist_sq(b), 9 + 16 + 36);
    assert_eq!(b.dist_sq(a), a.dist_sq(b));
}

#[test]
fn bbox_first_point_then_extend() {
    let mut b = BBox::new(Vec3::new(0, 0, 0));
    assert_eq!(b.half_len, 1);
    assert!(b.contains(Vec3::new(0, 0, 0)));
    assert!(b.contains(Vec3::new(-1, -1, -1)));
    assert!(!b.contains(Vec3::new(1, 0, 0)));
    b.extend(Vec3::new(2, 0, 0));
    assert_eq!(b.half_len, 2);
    assert_eq!(b.center, Vec3::new(1, 1, 1));
    assert!(b.contains(Vec3::new(1, 0, 0)));
    assert!(b.contains(Vec3::new(2, 0, 0)));
    assert!(b.contains(Vec3::new(-1, -1, -1)));
}

#[test]
fn bbox_grows_toward_lower_corner() {
    let mut b = BBox::new(Vec3::new(0, 0, 0));
    b.extend(Vec3::new(-5, 0, 0));
    assert_eq!(b.center, Vec3::new(-1, -1, -1));
    assert_eq!(b.half_len, 2);
    assert!(b.contains(Vec3::new(-3, -3, -3)));
    assert!(!b.contains(Vec3::new(-5, 0, 0)));
}

#[test]
fn bbox_grows_even_when_point_is_inside() {
    let mut b = BBox::new(Vec3::new(3, 3, 3));
    b.extend(Vec3::new(3, 3, 3));
    assert_eq!(b.half_len, 2);
    assert_eq!(b.center, Vec3::new(4, 4, 4));
}

#[test]
fn bbox_empty_holds_nothing() {
    let mut b = BBox::empty();
    assert_eq!(b.half_len, -1);
    assert!(!b.contains(Vec3::new(0, 0, 0)));
    b.extend(Vec3::new(-4, 1, 1));
    assert_eq!(b.center, Vec3::new(0, 0, 0));
    assert_eq!(b.half_len, -2);
    assert!(!b.contains(Vec3::new(0, 0, 0)));
}

#[test]
fn bbox_each_box_is_an_octant_of_the_next() {
    let mut b = BBox::new(Vec3::new(5, 5, 5));
    let probes = [Vec3::new(-20, 3, 7), Vec3::new(40, 40, 1), Vec3::new(0, 0, 0), Vec3::new(-100, 9, 9)];
    for p in probes {
        let before = b;
        b.extend(p);
        assert_eq!(b.half_len, 2 * before.half_len);
        assert_eq!((b.center.x - before.center.x).abs() as i64, before.half_len);
        assert_eq!((b.center.y - before.center.y).abs() as i64, before.half_len);
        assert_eq!((b.center.z - before.center.z).abs() as i64, before.half_len);
        let h = before.half_len as i32;
        let c = before.center.x;
        for q in [Vec3::new(c - h, c - h, c - h), Vec3::new(c + h - 1, c + h - 1, c + h - 1), Vec3::new(c, c - h, c + h - 1)] {
            assert!(before.contains(q));
            assert!(b.contains(q));
        }
    }
}

#[test]
fn bbox_keeps_every_captured_point() {
    let mut state: u64 = 0x2545_f491_4f6c_dd1d;
    let mut b = BBox::new(Vec3::new(0, 0, 0));
    let mut kept = vec![Vec3::new(0, 0, 0)];
    for _ in 0..12 {
        let h = b.half_len;
        let mut coord = || {
            state = state.wrapping_mul(6364136223846793005).wrapping_add(1442695040888963407);
            ((state >> 33) as i64 % (3 * h)) as i32 - h as i32
        };
        let p = Vec3::new(coord(), coord(), coord());
        b.extend(p);
        if b.contains(p) {
            kept.push(p);
        }
        for q in &kept {
            assert!(b.contains(*q));
        }
    }
    assert_eq!(b.half_len, 1 << 12);
    assert!(kept.len() > 1);
}
