//! Vector and box tests: exact fixed-point arithmetic, containment,
//! growth, overlap, plane crossings and the face-intersection engine.
//! Coordinates are in units of 1/1000 block (SCALE = 1000).

use voxel_collision::aabb::AABB;
use voxel_collision::rat::{Rat, RatVec3};
use voxel_collision::vec3::{Axis, Vector3f, SCALE};

fn v(x: i64, y: i64, z: i64) -> Vector3f {
    Vector3f::new(x, y, z)
}

fn unit_box() -> AABB {
    AABB::new(&v(0, 0, 0), &v(1000, 1000, 1000))
}

#[test]
fn scale_is_one_thousand() {
    assert_eq!(SCALE, 1000);
}

#[test]
fn vector_add_subtract() {
    let a = v(1500, -2000, 250);
    let b = v(500, 3000, -250);
    let s = a.add(&b);
    assert_eq!((s.x, s.y, s.z), (2000, 1000, 0));
    let d = a.subtract(&b);
    assert_eq!((d.x, d.y, d.z), (1000, -5000, 500));
}

#[test]
fn vector_absolute_equals_axis() {
    let a = v(-1500, 0, 250);
    let ab = a.absolute();
    assert_eq!((ab.x, ab.y, ab.z), (1500, 0, 250));
    assert!(a.equals(&v(-1500, 0, 250)));
    assert!(!a.equals(&v(-1500, 0, 251)));
    assert_eq!(a.axis(Axis::X), -1500);
    assert_eq!(a.axis(Axis::Y), 0);
    assert_eq!(a.axis(Axis::Z), 250);
}

#[test]
fn vector_floor_round_ceil() {
    let a = v(1500, -1500, 2000);
    let f = a.floor();
    assert_eq!((f.x, f.y, f.z), (1000, -2000, 2000));
    let c = a.ceil();
    assert_eq!((c.x, c.y, c.z), (2000, -1000, 2000));
    // Halves round away from zero.
    let r = a.round();
    assert_eq!((r.x, r.y, r.z), (2000, -2000, 2000));
    let r2 = v(1499, -1499, 501).round();
    assert_eq!((r2.x, r2.y, r2.z), (1000, -1000, 1000));
}

#[test]
fn vector_dot_square_length() {
    // (1, 2, 3) . (4, 5, 6) = 32 block^2: numerator in unit^2, over SCALE^2.
    let a = v(1000, 2000, 3000);
    let b = v(4000, 5000, 6000);
    let d = a.dot(&b);
    assert_eq!(d.num, 32_000_000);
    assert_eq!(d.den, 1_000_000);
    let sq = a.square_length();
    assert_eq!(sq.num, 14_000_000);
    assert_eq!(sq.den, 1_000_000);
}

#[test]
fn vector_cross_multiply_lerp() {
    // (1,0,0) x (0,1,0) = (0,0,1), on the unit scale with denominator SCALE.
    let x = v(1000, 0, 0);
    let y = v(0, 1000, 0);
    let c = x.cross(&y);
    assert_eq!((c.nx, c.ny, c.nz, c.den), (0, 0, 1_000_000, 1000));

    // (1, 2, -3) * (3/2) = (1.5, 3, -4.5).
    let a = v(1000, 2000, -3000);
    let m = a.multiply(&Rat { num: 3, den: 2 });
    assert_eq!((m.nx, m.ny, m.nz, m.den), (3000, 6000, -9000, 2));

    // lerp((0,0,0) -> (2,4,6), 1/4) = (0.5, 1, 1.5).
    let o = v(0, 0, 0);
    let e = v(2000, 4000, 6000);
    let l = o.lerp(&e, &Rat { num: 1, den: 4 });
    assert_eq!((l.nx, l.ny, l.nz, l.den), (500 * 4, 1000 * 4, 1500 * 4, 4));
}

#[test]
fn rational_helpers() {
    let half = Rat { num: 1, den: 2 };
    let two_quarters = Rat { num: 2, den: 4 };
    let third = Rat { num: 1, den: 3 };
    assert!(half.eq_value(&two_quarters));
    assert!(!half.eq_value(&third));
    assert!(third.le(&half));
    assert!(!half.le(&third));
    assert_eq!(Rat::from_int(-7).num, -7);
    let p = RatVec3::from_vector(&v(10, 20, 30));
    assert_eq!((p.nx, p.ny, p.nz, p.den), (10, 20, 30, 1));
    assert_eq!(p.axis_num(Axis::Y), 20);
    // |(3/1, 4/1, 0)|^2 in block^2 terms: 25e6 unit^2 over SCALE^2.
    let q = RatVec3 { nx: 3000, ny: 4000, nz: 0, den: 1 };
    let sq = q.square_length();
    assert_eq!(sq.num, 25_000_000);
    assert_eq!(sq.den, 1_000_000);
}

#[test]
fn contains_and_within_inclusive_bounds() {
    let b = unit_box();
    // Inside and on every corner and face: both tests agree and accept.
    for p in [
        v(500, 500, 500),
        v(0, 0, 0),
        v(1000, 1000, 1000),
        v(0, 1000, 500),
        v(1000, 0, 0),
    ] {
        assert!(b.contains(&p));
        assert!(b.within(&p));
    }
    for p in [v(-1, 500, 500), v(500, 1001, 500), v(500, 500, -1)] {
        assert!(!b.contains(&p));
        assert!(!b.within(&p));
    }
}

#[test]
fn translate_moves_both_corners() {
    let b = AABB::new(&v(-1000, 0, 500), &v(1000, 2000, 1500));
    let t = b.translate(&v(100, -200, 300));
    assert!(t.min.equals(&v(-900, -200, 800)));
    assert!(t.max.equals(&v(1100, 1800, 1800)));
}

#[test]
fn expand_is_directional() {
    let mut b = unit_box();
    let e = b.expand(&v(500, -500, 0));
    assert!(e.min.equals(&v(0, -500, 0)));
    assert!(e.max.equals(&v(1500, 1000, 1000)));
    // The box itself is unchanged.
    assert!(b.min.equals(&v(0, 0, 0)));
    assert!(b.max.equals(&v(1000, 1000, 1000)));
}

#[test]
fn grow_and_shrink_round_trip() {
    let b = AABB::new(&v(-1000, -2000, -3000), &v(1000, 2000, 3000));
    let g = b.grow(250);
    assert!(g.min.equals(&v(-1250, -2250, -3250)));
    assert!(g.max.equals(&v(1250, 2250, 3250)));
    let back = g.grow(-250);
    assert!(back.min.equals(&b.min));
    assert!(back.max.equals(&b.max));
}

#[test]
fn intersects_excludes_contact() {
    let b = unit_box();
    // Sharing only the x = 1000 face: no intersection either way round.
    let touching = AABB::new(&v(1000, 0, 0), &v(2000, 1000, 1000));
    assert!(!b.intersects(&touching));
    assert!(!touching.intersects(&b));
    // A strictly positive overlap on every axis intersects.
    let overlapping = AABB::new(&v(999, -500, -500), &v(2000, 500, 500));
    assert!(b.intersects(&overlapping));
    assert!(overlapping.intersects(&b));
    // A gap on one axis does not.
    let apart = AABB::new(&v(1001, 0, 0), &v(2000, 1000, 1000));
    assert!(!b.intersects(&apart));
}

#[test]
fn on_line_interpolates_between() {
    let a = v(0, 0, 0);
    let b = v(1000, 2000, 3000);
    // Crossing x = 0.5: half way, so y = 1 and z = 1.5 exactly.
    let p = AABB::on_line(Axis::X, &a, &b, 500).unwrap();
    assert_eq!(p.den, 1000);
    assert_eq!(p.nx, 500 * 1000);
    assert_eq!(p.ny, 1000 * 1000);
    assert_eq!(p.nz, 1500 * 1000);
}

#[test]
fn on_line_outside_or_parallel_is_none() {
    let a = v(0, 0, 0);
    let b = v(1000, 2000, 3000);
    assert!(AABB::on_line(Axis::X, &a, &b, -1).is_none());
    assert!(AABB::on_line(Axis::X, &a, &b, 1001).is_none());
    // Endpoints themselves are crossings (fraction 0 and 1).
    assert!(AABB::on_line(Axis::X, &a, &b, 0).is_some());
    assert!(AABB::on_line(Axis::X, &a, &b, 1000).is_some());
    // A segment parallel to the plane never crosses it.
    let flat = v(0, 2000, 3000);
    assert!(AABB::on_line(Axis::X, &a, &flat, 500).is_none());
    assert!(AABB::on_line(Axis::X, &a, &flat, 0).is_none());
}

#[test]
fn on_line_works_against_the_direction() {
    // The same crossing from the reversed segment: the denominator is
    // normalized positive and the point is identical.
    let a = v(0, 0, 0);
    let b = v(1000, 2000, 3000);
    let p = AABB::on_line(Axis::X, &b, &a, 500).unwrap();
    assert_eq!(p.den, 1000);
    assert_eq!(p.nx, 500 * 1000);
    assert_eq!(p.ny, 1000 * 1000);
    assert_eq!(p.nz, 1500 * 1000);
}

#[test]
fn within_axis_checks_the_two_axes() {
    let b = unit_box();
    let inside = RatVec3 { nx: 500, ny: 500, nz: 500, den: 1 };
    assert!(b.within_axis(vec![Axis::Y, Axis::Z], &inside));
    let above = RatVec3 { nx: 500, ny: 1500, nz: 500, den: 1 };
    assert!(!b.within_axis(vec![Axis::Y, Axis::Z], &above));
    // The x coordinate does not matter to a [Y, Z] test.
    let far_x = RatVec3 { nx: 99_000, ny: 500, nz: 500, den: 1 };
    assert!(b.within_axis(vec![Axis::Y, Axis::Z], &far_x));
    // More than two axes: no test is made.
    assert!(!b.within_axis(vec![Axis::X, Axis::Y, Axis::Z], &inside));
}

#[test]
fn intercept_hits_the_near_face() {
    // Ray (-5, 0.5, 0.5) -> (5, 0.5, 0.5) against the unit box strikes the
    // -X face at (0, 0.5, 0.5), squared distance 0.5 block^2.
    let b = unit_box();
    let hit = AABB::intercept(&b, &v(-5000, 500, 500), &v(5000, 500, 500)).unwrap();
    assert_eq!(hit.position.den, 10_000);
    assert_eq!(hit.position.nx, 0);
    assert_eq!(hit.position.ny, 500 * 10_000);
    assert_eq!(hit.position.nz, 500 * 10_000);
    // 0.5 block^2 exactly.
    assert_eq!(hit.distance.num * 2, hit.distance.den);
}

#[test]
fn intercept_from_inside_hits_the_far_face() {
    // Starting at the box's centre and leaving through +X: the -X crossing
    // lies behind the start, so only the +X face is hit.
    let b = unit_box();
    let hit = AABB::intercept(&b, &v(500, 500, 500), &v(5000, 500, 500)).unwrap();
    assert_eq!(hit.position.den, 4500);
    assert_eq!(hit.position.nx, 1000 * 4500);
    assert_eq!(hit.position.ny, 500 * 4500);
    assert_eq!(hit.position.nz, 500 * 4500);
    // 1.5 block^2 exactly.
    assert_eq!(hit.distance.num * 2, hit.distance.den * 3);
}

#[test]
fn intercept_misses() {
    let b = unit_box();
    // The segment passes above the box.
    assert!(AABB::intercept(&b, &v(-5000, 2500, 500), &v(5000, 2500, 500)).is_none());
    // The segment stops short of the box.
    assert!(AABB::intercept(&b, &v(-5000, 500, 500), &v(-2000, 500, 500)).is_none());
}

#[test]
fn intercept_first_face_wins_ties() {
    // A box symmetric about the origin, pierced through: both x faces are
    // equally far from the origin; the -X face comes first in enumeration
    // order and wins.
    let b = AABB::new(&v(-1000, -1000, -1000), &v(1000, 1000, 1000));
    let hit = AABB::intercept(&b, &v(-5000, 0, 0), &v(5000, 0, 0)).unwrap();
    assert_eq!(hit.position.den, 10_000);
    assert_eq!(hit.position.nx, -1000 * 10_000);
    assert_eq!(hit.position.ny, 0);
    assert_eq!(hit.position.nz, 0);
}
