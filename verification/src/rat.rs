//! Exact rational scalars and rational 3D points.
//!
//! A `Rat` is a plain fraction `num / den` with a positive denominator; a
//! `RatVec3` is a point whose three coordinates share one positive
//! denominator, on the same fixed-point unit scale as `Vector3f`
//! (`SCALE` units per block). Plane crossings and squared hit distances are
//! exact values of these types.

use vstd::prelude::*;

use crate::vec3::lemma_mul_bounds;

verus! {

/// An exact fraction `num / den`.
#[derive(Clone, Copy, Debug, PartialEq, Eq, Structural)]
pub struct Rat {
    pub num: i128,
    pub den: i128,
}

/// A 3D point with exact rational coordinates `nx / den`, `ny / den`,
/// `nz / den`, in fixed-point units.
#[derive(Clone, Copy, Debug, PartialEq, Eq, Structural)]
pub struct RatVec3 {
    pub nx: i128,
    pub ny: i128,
    pub nz: i128,
    pub den: i128,
}

/// A fraction is well formed when its denominator is positive.
pub open spec fn rat_wf(r: Rat) -> bool {
    r.den > 0
}

/// A rational point is well formed when its denominator is positive.
pub open spec fn rv_wf(p: RatVec3) -> bool {
    p.den > 0
}

/// The two fractions stand for the same value.
pub open spec fn rat_eq(a: Rat, b: Rat) -> bool {
    a.num * b.den == b.num * a.den
}

/// `a` stands for a value no greater than `b` (denominators positive).
pub open spec fn rat_le(a: Rat, b: Rat) -> bool {
    a.num * b.den <= b.num * a.den
}

/// The product `a * b` fits in `i128`.
pub open spec fn mul_fits(a: int, b: int) -> bool {
    i128::MIN <= a * b <= i128::MAX
}

/// Every numerator of `p`, and its denominator, is at most `lim` in
/// magnitude.
pub open spec fn rv_bounded(p: RatVec3, lim: int) -> bool {
    -lim <= p.nx <= lim && -lim <= p.ny <= lim && -lim <= p.nz <= lim && p.den <= lim
}

impl Rat {
    /// A fraction from an integer.
    pub fn from_int(n: i64) -> (r: Rat)
        ensures
            r.num == n,
            r.den == 1,
    {
        Rat { num: n as i128, den: 1 }
    }

    /// Exact comparison by cross multiplication.
    pub fn le(&self, other: &Rat) -> (r: bool)
        requires
            rat_wf(*self),
            rat_wf(*other),
            mul_fits(self.num as int, other.den as int),
            mul_fits(other.num as int, self.den as int),
        ensures
            r == rat_le(*self, *other),
    {
        self.num * other.den <= other.num * self.den
    }

    /// Exact equality of values by cross multiplication.
    pub fn eq_value(&self, other: &Rat) -> (r: bool)
        requires
            rat_wf(*self),
            rat_wf(*other),
            mul_fits(self.num as int, other.den as int),
            mul_fits(other.num as int, self.den as int),
        ensures
            r == rat_eq(*self, *other),
    {
        self.num * other.den == other.num * self.den
    }
}

impl RatVec3 {
    /// A rational point from a fixed-point vector.
    pub fn from_vector(v: &crate::vec3::Vector3f) -> (r: RatVec3)
        ensures
            r.nx == v.x,
            r.ny == v.y,
            r.nz == v.z,
            r.den == 1,
    {
        RatVec3 { nx: v.x as i128, ny: v.y as i128, nz: v.z as i128, den: 1 }
    }

    /// The numerator of the component selected by `axis`.
    pub fn axis_num(&self, axis: crate::vec3::Axis) -> (r: i128)
        ensures
            r == rv_axis(*self, axis),
    {
        match axis {
            crate::vec3::Axis::X => self.nx,
            crate::vec3::Axis::Y => self.ny,
            crate::vec3::Axis::Z => self.nz,
        }
    }

    /// Exact squared Euclidean length, in block^2 terms: the coordinates are
    /// in units, so the squared unit length is divided by `SCALE^2` as well.
    pub fn square_length(&self) -> (r: Rat)
        requires
            rv_wf(*self),
            rv_bounded(*self, 1_000_000_000_000_000_000),
            self.den <= 1_000_000_000_000_000,
        ensures
            r.num == self.nx * self.nx + self.ny * self.ny + self.nz * self.nz,
            r.den == self.den * self.den * (crate::vec3::SCALE * crate::vec3::SCALE),
    {
        proof {
            let lim: int = 1_000_000_000_000_000_000;
            lemma_mul_bounds(self.nx as int, lim, self.nx as int, lim);
            lemma_mul_bounds(self.ny as int, lim, self.ny as int, lim);
            lemma_mul_bounds(self.nz as int, lim, self.nz as int, lim);
            let dlim: int = 1_000_000_000_000_000;
            lemma_mul_bounds(self.den as int, dlim, self.den as int, dlim);
            lemma_mul_bounds(self.den * self.den, dlim * dlim, 1_000_000, 1_000_000);
        }
        Rat {
            num: self.nx * self.nx + self.ny * self.ny + self.nz * self.nz,
            den: self.den * self.den * ((crate::vec3::SCALE as i128) * (crate::vec3::SCALE
                as i128)),
        }
    }
}

/// The numerator of the component of `p` selected by `a`.
pub open spec fn rv_axis(p: RatVec3, a: crate::vec3::Axis) -> int {
    match a {
        crate::vec3::Axis::X => p.nx as int,
        crate::vec3::Axis::Y => p.ny as int,
        crate::vec3::Axis::Z => p.nz as int,
    }
}

} // verus!
