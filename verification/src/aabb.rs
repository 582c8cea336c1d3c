//! Axis-aligned bounding boxes: containment, translation, growth, the
//! separating-axis overlap test, and the segment-face intersection engine.

use vstd::prelude::*;

use crate::hit::HitResult;
use crate::rat::{rv_axis, rv_wf, Rat, RatVec3};
use crate::vec3::{
    add_fits, add_fits3, axis_of, lemma_mul_bounds, Axis, Vector3f, RANGE_LIMIT,
};

verus! {

/// Bound on the coordinate magnitudes accepted by the plane-crossing
/// routine, chosen so that every crossing numerator fits in `i128`.
pub const GEOM_LIMIT: i64 = 1_000_000_000;

/// An axis-aligned box given by its minimum and maximum corners.
///
/// The corner ordering `min.x <= max.x` (and likewise for y and z) is
/// expected but deliberately not enforced at construction: callers maintain
/// it, and an inverted box silently fails the containment and overlap tests,
/// exactly as their contracts state.
#[derive(Clone, Copy, Debug, PartialEq, Eq, Structural)]
pub struct AABB {
    pub min: Vector3f,
    pub max: Vector3f,
}

/// The point `v` lies inside `b`, bounds inclusive, on all three axes.
pub open spec fn inside(b: AABB, v: Vector3f) -> bool {
    b.min.x <= v.x <= b.max.x && b.min.y <= v.y <= b.max.y && b.min.z <= v.z <= b.max.z
}

/// The overlap margin of `a` and `b` is strictly positive on every axis:
/// the contact-excluding overlap test. A shared face (zero margin) or a gap
/// does not count as an intersection.
pub open spec fn overlapping(a: AABB, b: AABB) -> bool {
    b.max.x - a.min.x > 0 && a.max.x - b.min.x > 0 && b.max.y - a.min.y > 0 && a.max.y - b.min.y
        > 0 && b.max.z - a.min.z > 0 && a.max.z - b.min.z > 0
}

impl AABB {
    /// A box from its two corners.
    pub fn new(min: &Vector3f, max: &Vector3f) -> (r: AABB)
        ensures
            r.min == *min,
            r.max == *max,
    {
        AABB { min: *min, max: *max }
    }

    /// The box shifted by `v`: both corners move by `v`.
    pub fn translate(&self, v: &Vector3f) -> (r: AABB)
        requires
            add_fits3(self.min, *v),
            add_fits3(self.max, *v),
        ensures
            r.min.x == self.min.x + v.x,
            r.min.y == self.min.y + v.y,
            r.min.z == self.min.z + v.z,
            r.max.x == self.max.x + v.x,
            r.max.y == self.max.y + v.y,
            r.max.z == self.max.z + v.z,
    {
        AABB::new(&self.min.add(v), &self.max.add(v))
    }

    /// Asymmetric growth in the direction of `v`: on each axis a negative
    /// component moves the minimum corner down, a non-negative one moves the
    /// maximum corner up. The box itself is left unchanged.
    pub fn expand(&mut self, v: &Vector3f) -> (r: AABB)
        requires
            add_fits3(old(self).min, *v),
            add_fits3(old(self).max, *v),
        ensures
            *final(self) == *old(self),
            r.min.x == if v.x < 0 { old(self).min.x + v.x } else { old(self).min.x as int },
            r.max.x == if v.x < 0 { old(self).max.x as int } else { old(self).max.x + v.x },
            r.min.y == if v.y < 0 { old(self).min.y + v.y } else { old(self).min.y as int },
            r.max.y == if v.y < 0 { old(self).max.y as int } else { old(self).max.y + v.y },
            r.min.z == if v.z < 0 { old(self).min.z + v.z } else { old(self).min.z as int },
            r.max.z == if v.z < 0 { old(self).max.z as int } else { old(self).max.z + v.z },
    {
        let mut min_clone = self.min;
        let mut max_clone = self.max;

        if v.x < 0 {
            min_clone.x = min_clone.x + v.x;
        } else {
            max_clone.x = max_clone.x + v.x;
        }

        if v.y < 0 {
            min_clone.y = min_clone.y + v.y;
        } else {
            max_clone.y = max_clone.y + v.y;
        }

        if v.z < 0 {
            min_clone.z = min_clone.z + v.z;
        } else {
            max_clone.z = max_clone.z + v.z;
        }

        AABB { min: min_clone, max: max_clone }
    }

    /// Inclusive containment test on all three axes.
    pub fn contains(&self, v: &Vector3f) -> (r: bool)
        ensures
            r == inside(*self, *v),
    {
        self.min.x <= v.x && v.x <= self.max.x && self.min.y <= v.y && v.y <= self.max.y
            && self.min.z <= v.z && v.z <= self.max.z
    }

    /// Inclusive containment test, agreeing with `contains` on every input.
    pub fn within(&self, v: &Vector3f) -> (r: bool)
        ensures
            r == inside(*self, *v),
    {
        if v.x < self.min.x || v.x > self.max.x {
            return false;
        }
        if v.y < self.min.y || v.y > self.max.y {
            return false;
        }
        v.z >= self.min.z && v.z <= self.max.z
    }

    /// Symmetric padding: the minimum corner pulled in by `grow_scale` units
    /// on every axis and the maximum corner pushed out by the same amount
    /// (or the reverse for a negative `grow_scale`).
    pub fn grow(&self, grow_scale: i64) -> (r: AABB)
        requires
            add_fits(self.min.x as int, -(grow_scale as int)),
            add_fits(self.min.y as int, -(grow_scale as int)),
            add_fits(self.min.z as int, -(grow_scale as int)),
            add_fits(self.max.x as int, grow_scale as int),
            add_fits(self.max.y as int, grow_scale as int),
            add_fits(self.max.z as int, grow_scale as int),
        ensures
            r.min.x == self.min.x - grow_scale,
            r.min.y == self.min.y - grow_scale,
            r.min.z == self.min.z - grow_scale,
            r.max.x == self.max.x + grow_scale,
            r.max.y == self.max.y + grow_scale,
            r.max.z == self.max.z + grow_scale,
    {
        let v = Vector3f::new(grow_scale, grow_scale, grow_scale);
        AABB::new(&self.min.subtract(&v), &self.max.add(&v))
    }

    /// The contact-excluding overlap test: true exactly when the overlap
    /// margin is strictly positive on every axis. A shared face (zero
    /// margin) or a gap is reported as not intersecting; with exact
    /// arithmetic no tolerance band is needed to keep contact out.
    pub fn intersects(&self, aabb: &AABB) -> (r: bool)
        requires
            sub_fits_box(*aabb, *self),
            sub_fits_box(*self, *aabb),
        ensures
            r == overlapping(*self, *aabb),
    {
        if aabb.max.x - self.min.x <= 0 || self.max.x - aabb.min.x <= 0 {
            return false;
        }
        if aabb.max.y - self.min.y <= 0 || self.max.y - aabb.min.y <= 0 {
            return false;
        }
        aabb.max.z - self.min.z > 0 && self.max.z - aabb.min.z > 0
    }

    /// Where the segment `vec_a -> vec_b` crosses the plane `axis = value`:
    /// the exact crossing point when the interpolation fraction lies in
    /// `[0, 1]`, and `None` when the crossing lies outside the segment or the
    /// segment is parallel to the plane (a zero denominator can reach no
    /// plane but its own, and a crossing within its own plane is not a single
    /// point).
    ///
    /// The returned point has the queried axis pinned exactly to `value` and
    /// the other two axes linearly interpolated, all over the positive
    /// denominator `ol_d`.
    pub fn on_line(axis: Axis, vec_a: &Vector3f, vec_b: &Vector3f, value: i64) -> (r: Option<
        RatVec3,
    >)
        requires
            crate::vec3::bounded3(*vec_a, GEOM_LIMIT as int),
            crate::vec3::bounded3(*vec_b, GEOM_LIMIT as int),
            -GEOM_LIMIT <= value <= GEOM_LIMIT,
        ensures
            (r is Some) == ol_hits(axis, *vec_a, *vec_b, value as int),
            r matches Some(p) ==> p.den == ol_d(axis, *vec_a, *vec_b) && p.nx == ol_num(
                axis,
                *vec_a,
                *vec_b,
                value as int,
                Axis::X,
            ) && p.ny == ol_num(axis, *vec_a, *vec_b, value as int, Axis::Y) && p.nz == ol_num(
                axis,
                *vec_a,
                *vec_b,
                value as int,
                Axis::Z,
            ),
    {
        let axis_a = vec_a.axis(axis);
        let axis_b = vec_b.axis(axis);
        let den: i64 = axis_b - axis_a;

        if den == 0 {
            return None;
        }
        let fnum: i64 = value - axis_a;
        if den > 0 {
            if fnum < 0 || fnum > den {
                return None;
            }
        } else {
            if fnum > 0 || fnum < den {
                return None;
            }
        }
        let d: i128 = if den > 0 {
            den as i128
        } else {
            -(den as i128)
        };
        let f: i128 = if den > 0 {
            fnum as i128
        } else {
            -(fnum as i128)
        };
        proof {
            lemma_mul_bounds(value as int, GEOM_LIMIT as int, d as int, 2 * GEOM_LIMIT as int);
            lemma_mul_bounds(vec_a.x as int, GEOM_LIMIT as int, d as int, 2 * GEOM_LIMIT as int);
            lemma_mul_bounds(vec_a.y as int, GEOM_LIMIT as int, d as int, 2 * GEOM_LIMIT as int);
            lemma_mul_bounds(vec_a.z as int, GEOM_LIMIT as int, d as int, 2 * GEOM_LIMIT as int);
            lemma_mul_bounds(
                vec_b.x - vec_a.x,
                2 * GEOM_LIMIT as int,
                f as int,
                2 * GEOM_LIMIT as int,
            );
            lemma_mul_bounds(
                vec_b.y - vec_a.y,
                2 * GEOM_LIMIT as int,
                f as int,
                2 * GEOM_LIMIT as int,
            );
            lemma_mul_bounds(
                vec_b.z - vec_a.z,
                2 * GEOM_LIMIT as int,
                f as int,
                2 * GEOM_LIMIT as int,
            );
        }
        let vector = RatVec3 {
            nx: if matches!(axis, Axis::X) {
                (value as i128) * d
            } else {
                (vec_a.x as i128) * d + ((vec_b.x as i128) - (vec_a.x as i128)) * f
            },
            ny: if matches!(axis, Axis::Y) {
                (value as i128) * d
            } else {
                (vec_a.y as i128) * d + ((vec_b.y as i128) - (vec_a.y as i128)) * f
            },
            nz: if matches!(axis, Axis::Z) {
                (value as i128) * d
            } else {
                (vec_a.z as i128) * d + ((vec_b.z as i128) - (vec_a.z as i128)) * f
            },
            den: d,
        };
        Some(vector)
    }

    /// Whether `vector` lies within the box's bounds on the two axes given:
    /// the second axis is checked first, then the first. True only when
    /// exactly two axes are supplied and both bounds tests pass.
    pub fn within_axis(&self, axis: Vec<Axis>, vector: &RatVec3) -> (r: bool)
        requires
            axis@.len() >= 2,
            rv_wf(*vector),
            vector.den <= GEOM_LIMIT as i128,
            crate::vec3::bounded3(self.min, GEOM_LIMIT as int),
            crate::vec3::bounded3(self.max, GEOM_LIMIT as int),
        ensures
            r == (axis@.len() == 2 && in_axis(*self, axis@[1], *vector) && in_axis(
                *self,
                axis@[0],
                *vector,
            )),
    {
        if axis.len() != 2 {
            return false;
        }
        let first = axis[0];
        let second = axis[1];
        proof {
            lemma_mul_bounds(
                axis_of(self.min, second),
                GEOM_LIMIT as int,
                vector.den as int,
                GEOM_LIMIT as int,
            );
            lemma_mul_bounds(
                axis_of(self.max, second),
                GEOM_LIMIT as int,
                vector.den as int,
                GEOM_LIMIT as int,
            );
            lemma_mul_bounds(
                axis_of(self.min, first),
                GEOM_LIMIT as int,
                vector.den as int,
                GEOM_LIMIT as int,
            );
            lemma_mul_bounds(
                axis_of(self.max, first),
                GEOM_LIMIT as int,
                vector.den as int,
                GEOM_LIMIT as int,
            );
        }
        let vec_axis_a = vector.axis_num(first);
        let vec_axis_b = vector.axis_num(second);

        if vec_axis_b < (self.min.axis(second) as i128) * vector.den || vec_axis_b > (self.max.axis(
            second,
        ) as i128) * vector.den {
            return false;
        }
        vec_axis_a >= (self.min.axis(first) as i128) * vector.den && vec_axis_a <= (self.max.axis(
            first,
        ) as i128) * vector.den
    }

    /// The nearest face hit of the segment `start -> end` against the six
    /// faces of `aabb`: each face plane is crossed with `on_line`, crossings
    /// outside the box's extent on the two orthogonal axes are discarded,
    /// and among the valid crossings the one whose squared distance from the
    /// origin is smallest wins, the earliest face in enumeration order
    /// (-X, +X, -Y, +Y, -Z, +Z) winning ties.
    pub fn intercept(aabb: &AABB, start: &Vector3f, end: &Vector3f) -> (r: Option<HitResult>)
        requires
            crate::vec3::bounded3(aabb.min, RANGE_LIMIT as int),
            crate::vec3::bounded3(aabb.max, RANGE_LIMIT as int),
            crate::vec3::bounded3(*start, RANGE_LIMIT as int),
            crate::vec3::bounded3(*end, RANGE_LIMIT as int),
        ensures
            (r is Some) == (best_face(*aabb, *start, *end, 6) >= 0),
            r matches Some(h) ==> ({
                let k = best_face(*aabb, *start, *end, 6);
                &&& h.position.den == ol_d(face_axis(k), *start, *end)
                &&& h.position.nx == cand_num(*aabb, *start, *end, k, Axis::X)
                &&& h.position.ny == cand_num(*aabb, *start, *end, k, Axis::Y)
                &&& h.position.nz == cand_num(*aabb, *start, *end, k, Axis::Z)
                &&& h.distance.num == dist_num(*aabb, *start, *end, k)
                &&& h.distance.den == dist_den2(*aabb, *start, *end, k) * (
                crate::vec3::SCALE * crate::vec3::SCALE)
            }),
    {
        let mut best_i: i64 = -1;
        let mut best_pos: Option<RatVec3> = None;
        let mut best_dist: Rat = Rat { num: 0, den: 1 };
        let mut best_num: i128 = 0;
        let mut best_d2: i128 = 1;
        let mut i: usize = 0;

        while i < 6
            invariant
                crate::vec3::bounded3(aabb.min, RANGE_LIMIT as int),
                crate::vec3::bounded3(aabb.max, RANGE_LIMIT as int),
                crate::vec3::bounded3(*start, RANGE_LIMIT as int),
                crate::vec3::bounded3(*end, RANGE_LIMIT as int),
                0 <= i <= 6,
                best_i == best_face(*aabb, *start, *end, i as int),
                best_i == -1 <==> best_pos is None,
                best_pos matches Some(p) ==> ({
                    let k = best_i as int;
                    &&& 0 <= k < i
                    &&& cand_valid(*aabb, *start, *end, k)
                    &&& p.den == ol_d(face_axis(k), *start, *end)
                    &&& p.nx == cand_num(*aabb, *start, *end, k, Axis::X)
                    &&& p.ny == cand_num(*aabb, *start, *end, k, Axis::Y)
                    &&& p.nz == cand_num(*aabb, *start, *end, k, Axis::Z)
                    &&& best_num == dist_num(*aabb, *start, *end, k)
                    &&& best_d2 == dist_den2(*aabb, *start, *end, k)
                    &&& best_dist.num == best_num
                    &&& best_dist.den == best_d2 * (crate::vec3::SCALE * crate::vec3::SCALE)
                    &&& 0 <= best_num <= DIST_NUM_LIMIT
                    &&& 0 < best_d2 <= DIST_DEN_LIMIT
                }),
            decreases 6 - i,
        {
            let (fa, fv) = face_of(aabb, i);
            let crossing = AABB::on_line(fa, start, end, fv);
            match crossing {
                None => {},
                Some(p) => {
                    proof {
                        lemma_cand_bounds(fa, *start, *end, fv as int);
                    }
                    if aabb.within_axis(AABB::get_axis(fa), &p) {
                        let dist = p.square_length();
                        let d2: i128 = p.den * p.den;
                        proof {
                            lemma_dist_bounds(p.nx as int, p.ny as int, p.nz as int, p.den as int);
                        }
                        let replace: bool = match best_pos {
                            None => true,
                            Some(_) => {
                                proof {
                                    lemma_mul_bounds(
                                        dist.num as int,
                                        DIST_NUM_LIMIT as int,
                                        best_d2 as int,
                                        DIST_DEN_LIMIT as int,
                                    );
                                    lemma_mul_bounds(
                                        best_num as int,
                                        DIST_NUM_LIMIT as int,
                                        d2 as int,
                                        DIST_DEN_LIMIT as int,
                                    );
                                }
                                dist.num * best_d2 < best_num * d2
                            },
                        };
                        if replace {
                            best_i = i as i64;
                            best_pos = Some(p);
                            best_dist = dist;
                            best_num = dist.num;
                            best_d2 = d2;
                        }
                    }
                },
            }
            i = i + 1;
        }

        match best_pos {
            None => None,
            Some(p) => Some(HitResult { distance: best_dist, position: p }),
        }
    }

    /// The two axes orthogonal to `axis`, in the fixed order the
    /// intersection engine checks them.
    fn get_axis(axis: Axis) -> (r: Vec<Axis>)
        ensures
            r@.len() == 2,
            r@[0] == other_axis_1(axis),
            r@[1] == other_axis_2(axis),
    {
        match axis {
            Axis::X => vec![Axis::Y, Axis::Z],
            Axis::Y => vec![Axis::X, Axis::Z],
            Axis::Z => vec![Axis::X, Axis::Y],
        }
    }
}

/// Largest squared-distance numerator a valid crossing can have under
/// `RANGE_LIMIT` coordinates.
const DIST_NUM_LIMIT: i128 = 6_750_000_000_000_000_000_000_000;

/// Largest squared crossing denominator under `RANGE_LIMIT` coordinates.
const DIST_DEN_LIMIT: i128 = 1_000_000_000_000;

/// The denominator of the crossing fraction: the signed extent of the
/// segment along `a`.
pub open spec fn ol_den(a: Axis, va: Vector3f, vb: Vector3f) -> int {
    axis_of(vb, a) - axis_of(va, a)
}

/// The segment `va -> vb` crosses the plane `a = v` in a single point: the
/// segment moves along `a` and the interpolation fraction lies in `[0, 1]`.
pub open spec fn ol_hits(a: Axis, va: Vector3f, vb: Vector3f, v: int) -> bool {
    let den = ol_den(a, va, vb);
    &&& den != 0
    &&& if den > 0 {
        0 <= v - axis_of(va, a) <= den
    } else {
        den <= v - axis_of(va, a) <= 0
    }
}

/// The positive denominator of the crossing point: the absolute extent of
/// the segment along `a`.
pub open spec fn ol_d(a: Axis, va: Vector3f, vb: Vector3f) -> int {
    let den = ol_den(a, va, vb);
    if den >= 0 {
        den
    } else {
        -den
    }
}

/// The numerator of the crossing fraction, normalized to the positive
/// denominator `ol_d`; it lies in `[0, ol_d]` exactly when the segment
/// crosses the plane.
pub open spec fn ol_f(a: Axis, va: Vector3f, vb: Vector3f, v: int) -> int {
    if ol_den(a, va, vb) >= 0 {
        v - axis_of(va, a)
    } else {
        -(v - axis_of(va, a))
    }
}

/// The numerator of component `w` of the crossing point, over denominator
/// `ol_d`: the crossed axis is pinned exactly to `v`, the other two are
/// linearly interpolated.
pub open spec fn ol_num(a: Axis, va: Vector3f, vb: Vector3f, v: int, w: Axis) -> int {
    if w == a {
        v * ol_d(a, va, vb)
    } else {
        axis_of(va, w) * ol_d(a, va, vb) + (axis_of(vb, w) - axis_of(va, w)) * ol_f(a, va, vb, v)
    }
}

/// The rational coordinate `n / d` lies within the box's bounds on axis `w`
/// (bounds inclusive, `d` positive).
pub open spec fn inb(b: AABB, w: Axis, n: int, d: int) -> bool {
    axis_of(b.min, w) * d <= n <= axis_of(b.max, w) * d
}

/// The rational point `p` lies within the box's bounds on axis `w`.
pub open spec fn in_axis(b: AABB, w: Axis, p: RatVec3) -> bool {
    inb(b, w, rv_axis(p, w), p.den as int)
}

/// The axis of face `i` in enumeration order -X, +X, -Y, +Y, -Z, +Z.
pub open spec fn face_axis(i: int) -> Axis {
    if i < 2 {
        Axis::X
    } else if i < 4 {
        Axis::Y
    } else {
        Axis::Z
    }
}

/// The plane coordinate of face `i` of box `b`.
pub open spec fn face_value(b: AABB, i: int) -> int {
    if i == 0 {
        b.min.x as int
    } else if i == 1 {
        b.max.x as int
    } else if i == 2 {
        b.min.y as int
    } else if i == 3 {
        b.max.y as int
    } else if i == 4 {
        b.min.z as int
    } else {
        b.max.z as int
    }
}

/// The first axis orthogonal to `a`, in the order the engine checks them.
pub open spec fn other_axis_1(a: Axis) -> Axis {
    match a {
        Axis::X => Axis::Y,
        Axis::Y => Axis::X,
        Axis::Z => Axis::X,
    }
}

/// The second axis orthogonal to `a`.
pub open spec fn other_axis_2(a: Axis) -> Axis {
    match a {
        Axis::X => Axis::Z,
        Axis::Y => Axis::Z,
        Axis::Z => Axis::Y,
    }
}

/// The numerator of component `w` of the crossing of the segment with face
/// `i` of box `b`.
pub open spec fn cand_num(b: AABB, s: Vector3f, e: Vector3f, i: int, w: Axis) -> int {
    ol_num(face_axis(i), s, e, face_value(b, i), w)
}

/// Face `i` yields a valid hit: the segment crosses its plane, and the
/// crossing lies within the box's extent on the two orthogonal axes.
pub open spec fn cand_valid(b: AABB, s: Vector3f, e: Vector3f, i: int) -> bool {
    let fa = face_axis(i);
    let d = ol_d(fa, s, e);
    &&& ol_hits(fa, s, e, face_value(b, i))
    &&& inb(b, other_axis_2(fa), cand_num(b, s, e, i, other_axis_2(fa)), d)
    &&& inb(b, other_axis_1(fa), cand_num(b, s, e, i, other_axis_1(fa)), d)
}

/// The squared-distance numerator of face `i`'s crossing (denominator
/// `dist_den2`).
pub open spec fn dist_num(b: AABB, s: Vector3f, e: Vector3f, i: int) -> int {
    cand_num(b, s, e, i, Axis::X) * cand_num(b, s, e, i, Axis::X) + cand_num(b, s, e, i, Axis::Y)
        * cand_num(b, s, e, i, Axis::Y) + cand_num(b, s, e, i, Axis::Z) * cand_num(
        b,
        s,
        e,
        i,
        Axis::Z,
    )
}

/// The squared denominator of face `i`'s crossing, in unit^2 terms.
pub open spec fn dist_den2(b: AABB, s: Vector3f, e: Vector3f, i: int) -> int {
    ol_d(face_axis(i), s, e) * ol_d(face_axis(i), s, e)
}

/// Face `i`'s crossing is strictly nearer the origin than face `j`'s.
pub open spec fn dless(b: AABB, s: Vector3f, e: Vector3f, i: int, j: int) -> bool {
    dist_num(b, s, e, i) * dist_den2(b, s, e, j) < dist_num(b, s, e, j) * dist_den2(b, s, e, i)
}

/// The winning face among the first `i` faces: the valid face of smallest
/// squared distance, the earliest such face winning ties; `-1` when no face
/// among them is valid.
pub open spec fn best_face(b: AABB, s: Vector3f, e: Vector3f, i: int) -> int
    decreases i,
{
    if i <= 0 {
        -1
    } else {
        let p = best_face(b, s, e, i - 1);
        if cand_valid(b, s, e, i - 1) && (p == -1 || dless(b, s, e, i - 1, p)) {
            i - 1
        } else {
            p
        }
    }
}

/// The axis and plane coordinate of face `i`.
fn face_of(b: &AABB, i: usize) -> (r: (Axis, i64))
    requires
        i < 6,
    ensures
        r.0 == face_axis(i as int),
        r.1 == face_value(*b, i as int),
{
    match i {
        0 => (Axis::X, b.min.x),
        1 => (Axis::X, b.max.x),
        2 => (Axis::Y, b.min.y),
        3 => (Axis::Y, b.max.y),
        4 => (Axis::Z, b.min.z),
        _ => (Axis::Z, b.max.z),
    }
}

/// Bounds on a crossing's denominator and numerators when the segment and
/// plane coordinates are within `RANGE_LIMIT`.
proof fn lemma_cand_bounds(a: Axis, va: Vector3f, vb: Vector3f, v: int)
    requires
        crate::vec3::bounded3(va, RANGE_LIMIT as int),
        crate::vec3::bounded3(vb, RANGE_LIMIT as int),
        -RANGE_LIMIT <= v <= RANGE_LIMIT,
        ol_hits(a, va, vb, v),
    ensures
        0 < ol_d(a, va, vb) <= 1_000_000,
        0 <= ol_f(a, va, vb, v) <= ol_d(a, va, vb),
        -1_500_000_000_000 <= ol_num(a, va, vb, v, Axis::X) <= 1_500_000_000_000,
        -1_500_000_000_000 <= ol_num(a, va, vb, v, Axis::Y) <= 1_500_000_000_000,
        -1_500_000_000_000 <= ol_num(a, va, vb, v, Axis::Z) <= 1_500_000_000_000,
{
    let d = ol_d(a, va, vb);
    let f = ol_f(a, va, vb, v);
    lemma_mul_bounds(v, 500_000, d, 1_000_000);
    lemma_mul_bounds(axis_of(va, Axis::X), 500_000, d, 1_000_000);
    lemma_mul_bounds(axis_of(va, Axis::Y), 500_000, d, 1_000_000);
    lemma_mul_bounds(axis_of(va, Axis::Z), 500_000, d, 1_000_000);
    lemma_mul_bounds(axis_of(vb, Axis::X) - axis_of(va, Axis::X), 1_000_000, f, 1_000_000);
    lemma_mul_bounds(axis_of(vb, Axis::Y) - axis_of(va, Axis::Y), 1_000_000, f, 1_000_000);
    lemma_mul_bounds(axis_of(vb, Axis::Z) - axis_of(va, Axis::Z), 1_000_000, f, 1_000_000);
}

/// Bounds on a crossing's squared distance, from bounds on its parts.
proof fn lemma_dist_bounds(nx: int, ny: int, nz: int, d: int)
    requires
        -1_500_000_000_000 <= nx <= 1_500_000_000_000,
        -1_500_000_000_000 <= ny <= 1_500_000_000_000,
        -1_500_000_000_000 <= nz <= 1_500_000_000_000,
        0 < d <= 1_000_000,
    ensures
        0 <= nx * nx + ny * ny + nz * nz <= DIST_NUM_LIMIT,
        0 < d * d <= DIST_DEN_LIMIT,
{
    assert(0 <= nx * nx <= 2_250_000_000_000_000_000_000_000) by (nonlinear_arith)
        requires
            -1_500_000_000_000 <= nx <= 1_500_000_000_000,
    ;
    assert(0 <= ny * ny <= 2_250_000_000_000_000_000_000_000) by (nonlinear_arith)
        requires
            -1_500_000_000_000 <= ny <= 1_500_000_000_000,
    ;
    assert(0 <= nz * nz <= 2_250_000_000_000_000_000_000_000) by (nonlinear_arith)
        requires
            -1_500_000_000_000 <= nz <= 1_500_000_000_000,
    ;
    assert(0 < d * d <= 1_000_000_000_000) by (nonlinear_arith)
        requires
            0 < d <= 1_000_000,
    ;
}

/// A valid face's crossing has a positive squared denominator.
proof fn lemma_dd_pos(b: AABB, s: Vector3f, e: Vector3f, j: int)
    requires
        cand_valid(b, s, e, j),
    ensures
        dist_den2(b, s, e, j) > 0,
{
    let d = ol_d(face_axis(j), s, e);
    assert(d * d > 0) by (nonlinear_arith)
        requires
            d > 0,
    ;
}

/// Strict order of fractions carries across a non-strict bound:
/// from `n1/d1 < n2/d2 <= n3/d3` follows `n1/d1 < n3/d3`.
proof fn lemma_frac_lt_trans(n1: int, d1: int, n2: int, d2: int, n3: int, d3: int)
    requires
        d1 > 0,
        d2 > 0,
        d3 > 0,
        n1 * d2 < n2 * d1,
        n2 * d3 <= n3 * d2,
    ensures
        n1 * d3 < n3 * d1,
{
    assert(n1 * d3 < n3 * d1) by (nonlinear_arith)
        requires
            d1 > 0,
            d2 > 0,
            d3 > 0,
            n1 * d2 < n2 * d1,
            n2 * d3 <= n3 * d2,
    ;
}

/// The fold that picks the winning face returns the first valid face of
/// minimal squared distance: no valid face is strictly nearer, and every
/// earlier valid face is strictly farther.
proof fn lemma_best_face_props(b: AABB, s: Vector3f, e: Vector3f, i: int)
    requires
        0 <= i,
    ensures
        -1 <= best_face(b, s, e, i) < i,
        best_face(b, s, e, i) == -1 ==> forall|j: int|
            0 <= j < i ==> !#[trigger] cand_valid(b, s, e, j),
        best_face(b, s, e, i) >= 0 ==> 0 <= best_face(b, s, e, i) < i && cand_valid(
            b,
            s,
            e,
            best_face(b, s, e, i),
        ),
        best_face(b, s, e, i) >= 0 ==> forall|j: int|
            0 <= j < i && #[trigger] cand_valid(b, s, e, j) ==> !dless(
                b,
                s,
                e,
                j,
                best_face(b, s, e, i),
            ),
        best_face(b, s, e, i) >= 0 ==> forall|j: int|
            0 <= j < best_face(b, s, e, i) && #[trigger] cand_valid(b, s, e, j) ==> dless(
                b,
                s,
                e,
                best_face(b, s, e, i),
                j,
            ),
    decreases i,
{
    if i > 0 {
        lemma_best_face_props(b, s, e, i - 1);
        let p = best_face(b, s, e, i - 1);
        let m = i - 1;
        if cand_valid(b, s, e, m) && (p == -1 || dless(b, s, e, m, p)) {
            assert(best_face(b, s, e, i) == m);
            assert forall|j: int| 0 <= j < i && cand_valid(b, s, e, j) implies !dless(
                b,
                s,
                e,
                j,
                m,
            ) && (j < m ==> dless(b, s, e, m, j)) by {
                if j < m {
                    if p == -1 {
                        // the fold found no valid face before m
                        assert(!cand_valid(b, s, e, j));
                    }
                    assert(!dless(b, s, e, j, best_face(b, s, e, i - 1)));
                    lemma_dd_pos(b, s, e, j);
                    lemma_dd_pos(b, s, e, m);
                    lemma_dd_pos(b, s, e, p);
                    lemma_frac_lt_trans(
                        dist_num(b, s, e, m),
                        dist_den2(b, s, e, m),
                        dist_num(b, s, e, p),
                        dist_den2(b, s, e, p),
                        dist_num(b, s, e, j),
                        dist_den2(b, s, e, j),
                    );
                }
            }
        } else {
            assert(best_face(b, s, e, i) == p);
            if p >= 0 && cand_valid(b, s, e, m) {
                assert(!dless(b, s, e, m, p));
            }
        }
    }
}

/// The nearest-face policy of the intersection engine, in full: when no
/// face is valid the engine reports no hit; otherwise the winning face is
/// valid, no valid face is strictly nearer the origin, and every earlier
/// valid face is strictly farther -- so the first face in enumeration order
/// (-X, +X, -Y, +Y, -Z, +Z) wins ties.
pub proof fn lemma_intercept_nearest(b: AABB, s: Vector3f, e: Vector3f)
    ensures
        -1 <= best_face(b, s, e, 6) < 6,
        best_face(b, s, e, 6) == -1 ==> forall|j: int|
            0 <= j < 6 ==> !#[trigger] cand_valid(b, s, e, j),
        best_face(b, s, e, 6) >= 0 ==> 0 <= best_face(b, s, e, 6) < 6 && cand_valid(
            b,
            s,
            e,
            best_face(b, s, e, 6),
        ),
        best_face(b, s, e, 6) >= 0 ==> forall|j: int|
            0 <= j < 6 && #[trigger] cand_valid(b, s, e, j) ==> !dless(
                b,
                s,
                e,
                j,
                best_face(b, s, e, 6),
            ),
        best_face(b, s, e, 6) >= 0 ==> forall|j: int|
            0 <= j < best_face(b, s, e, 6) && #[trigger] cand_valid(b, s, e, j) ==> dless(
                b,
                s,
                e,
                best_face(b, s, e, 6),
                j,
            ),
{
    lemma_best_face_props(b, s, e, 6);
}

/// A plane coordinate strictly between the segment's endpoints on the
/// queried axis is always crossed; one outside their closed span never is.
pub proof fn lemma_on_line_span(a: Axis, va: Vector3f, vb: Vector3f, v: int)
    ensures
        axis_of(va, a) < v < axis_of(vb, a) || axis_of(vb, a) < v < axis_of(va, a) ==> ol_hits(
            a,
            va,
            vb,
            v,
        ),
        v < axis_of(va, a) && v < axis_of(vb, a) ==> !ol_hits(a, va, vb, v),
        v > axis_of(va, a) && v > axis_of(vb, a) ==> !ol_hits(a, va, vb, v),
{
}

/// The six margin differences `a.max - b.min` fit in `i64`.
pub open spec fn sub_fits_box(a: AABB, b: AABB) -> bool {
    add_fits(a.max.x as int, -(b.min.x as int)) && add_fits(a.max.y as int, -(b.min.y as int))
        && add_fits(a.max.z as int, -(b.min.z as int))
}

/// The two containment tests agree everywhere, and a point between the
/// corners (inclusive, componentwise) passes both.
pub proof fn lemma_contains_within_agree(b: AABB, p: Vector3f)
    ensures
        inside(b, p) == (b.min.x <= p.x <= b.max.x && b.min.y <= p.y <= b.max.y && b.min.z <= p.z
            <= b.max.z),
{
}

/// Growing a box by `s` and then by `-s` gives back the original box
/// exactly, for every scalar `s`: the hypotheses are just `grow`'s contract
/// for the two calls, and with exact arithmetic the round trip needs no
/// tolerance. (Running the two calls additionally needs the corners to stay
/// within the machine integers, which is `grow`'s own precondition.)
pub proof fn lemma_grow_inverse(b: AABB, s: i64, grown: AABB, back: AABB)
    requires
        grown.min.x == b.min.x - s,
        grown.min.y == b.min.y - s,
        grown.min.z == b.min.z - s,
        grown.max.x == b.max.x + s,
        grown.max.y == b.max.y + s,
        grown.max.z == b.max.z + s,
        back.min.x == grown.min.x + s,
        back.min.y == grown.min.y + s,
        back.min.z == grown.min.z + s,
        back.max.x == grown.max.x - s,
        back.max.y == grown.max.y - s,
        back.max.z == grown.max.z - s,
    ensures
        back == b,
{
}

/// Two boxes sharing only a boundary face do not intersect; two boxes whose
/// overlap margin is strictly positive on every axis do.
pub proof fn lemma_intersects_contact_excluding(a: AABB, b: AABB)
    ensures
        b.max.x == a.min.x || a.max.x == b.min.x || b.max.y == a.min.y || a.max.y == b.min.y
            || b.max.z == a.min.z || a.max.z == b.min.z ==> !overlapping(a, b),
        b.max.x - a.min.x >= 1 && a.max.x - b.min.x >= 1 && b.max.y - a.min.y >= 1 && a.max.y
            - b.min.y >= 1 && b.max.z - a.min.z >= 1 && a.max.z - b.min.z >= 1 ==> overlapping(
            a,
            b,
        ),
{
}

} // verus!
