//! Fixed-point 3D vectors and the axis enumeration.
//!
//! A coordinate is an `i64` count of fixed-point units; `SCALE` units make
//! one block, so the block value of a coordinate `x` is `x / SCALE`.
//! All operations here are exact integer arithmetic.

use vstd::prelude::*;

use crate::rat::{Rat, RatVec3};

verus! {

/// Fixed-point units per block: a coordinate of one block is `SCALE` units.
pub const SCALE: i64 = 1000;

/// Bound on coordinate magnitudes accepted by the product-forming vector
/// operations (`dot`, `cross`, `multiply`, `lerp`), chosen so that every
/// intermediate product fits comfortably in `i128`.
pub const COORD_LIMIT: i64 = 1_000_000_000_000;

/// Bound on the coordinate magnitudes accepted by the intersection engine
/// and the block traversal, chosen so that every exact cross-multiplied
/// comparison they make fits the machine integers.
pub const RANGE_LIMIT: i64 = 500_000;

/// One of the three coordinate axes.
#[derive(Clone, Copy, Debug, PartialEq, Eq, Structural)]
pub enum Axis {
    X,
    Y,
    Z,
}

/// A 3D point or direction in fixed-point units (`SCALE` units per block).
#[derive(Clone, Copy, Debug, PartialEq, Eq, Structural)]
pub struct Vector3f {
    pub x: i64,
    pub y: i64,
    pub z: i64,
}

/// The component of `v` selected by `a`.
pub open spec fn axis_of(v: Vector3f, a: Axis) -> int {
    match a {
        Axis::X => v.x as int,
        Axis::Y => v.y as int,
        Axis::Z => v.z as int,
    }
}

/// Both `a + b` and every other sum formed here must fit in `i64`.
pub open spec fn add_fits(a: int, b: int) -> bool {
    i64::MIN <= a + b <= i64::MAX
}

/// All three component sums of `a` and `b` fit in `i64`.
pub open spec fn add_fits3(a: Vector3f, b: Vector3f) -> bool {
    add_fits(a.x as int, b.x as int) && add_fits(a.y as int, b.y as int) && add_fits(
        a.z as int,
        b.z as int,
    )
}

/// All three component differences `a - b` fit in `i64`.
pub open spec fn sub_fits3(a: Vector3f, b: Vector3f) -> bool {
    add_fits(a.x as int, -(b.x as int)) && add_fits(a.y as int, -(b.y as int)) && add_fits(
        a.z as int,
        -(b.z as int),
    )
}

/// Every component of `v` is at most `lim` in magnitude.
pub open spec fn bounded3(v: Vector3f, lim: int) -> bool {
    -lim <= v.x as int <= lim && -lim <= v.y as int <= lim && -lim <= v.z as int <= lim
}

/// The greatest multiple of `SCALE` at most `x`: the block floor of a
/// coordinate, still in units.
pub open spec fn floor_units(x: int) -> int {
    SCALE as int * (x / (SCALE as int))
}

/// The least multiple of `SCALE` at least `x`.
pub open spec fn ceil_units(x: int) -> int {
    SCALE as int * ((x + SCALE as int - 1) / (SCALE as int))
}

/// The multiple of `SCALE` nearest to `x`, halves rounded away from zero.
pub open spec fn round_units(x: int) -> int {
    if x >= 0 {
        SCALE as int * ((x + SCALE as int / 2) / (SCALE as int))
    } else {
        -(SCALE as int * ((-x + SCALE as int / 2) / (SCALE as int)))
    }
}

/// Euclidean floor division of a coordinate by `SCALE`, as executable code.
/// Rust's `/` truncates toward zero; this rounds toward minus infinity,
/// matching the mathematical `/` of specifications.
pub(crate) fn div_floor_scale(x: i64) -> (q: i64)
    ensures
        q as int == x as int / (SCALE as int),
{
    let t: i64 = x / SCALE;
    if x % SCALE != 0 && x < 0 {
        t - 1
    } else {
        t
    }
}

impl Vector3f {
    /// A vector from its three components, in fixed-point units.
    pub fn new(x: i64, y: i64, z: i64) -> (r: Vector3f)
        ensures
            r == (Vector3f { x, y, z }),
    {
        Vector3f { x, y, z }
    }

    /// Component-wise sum.
    pub fn add(&self, other: &Vector3f) -> (r: Vector3f)
        requires
            add_fits3(*self, *other),
        ensures
            r.x == self.x + other.x,
            r.y == self.y + other.y,
            r.z == self.z + other.z,
    {
        Vector3f { x: self.x + other.x, y: self.y + other.y, z: self.z + other.z }
    }

    /// Component-wise difference.
    pub fn subtract(&self, other: &Vector3f) -> (r: Vector3f)
        requires
            sub_fits3(*self, *other),
        ensures
            r.x == self.x - other.x,
            r.y == self.y - other.y,
            r.z == self.z - other.z,
    {
        Vector3f { x: self.x - other.x, y: self.y - other.y, z: self.z - other.z }
    }

    /// Component-wise absolute value.
    pub fn absolute(&self) -> (r: Vector3f)
        requires
            self.x != i64::MIN,
            self.y != i64::MIN,
            self.z != i64::MIN,
        ensures
            r.x == if self.x >= 0 { self.x as int } else { -(self.x as int) },
            r.y == if self.y >= 0 { self.y as int } else { -(self.y as int) },
            r.z == if self.z >= 0 { self.z as int } else { -(self.z as int) },
    {
        Vector3f {
            x: if self.x >= 0 { self.x } else { -self.x },
            y: if self.y >= 0 { self.y } else { -self.y },
            z: if self.z >= 0 { self.z } else { -self.z },
        }
    }

    /// Exact dot product, as a rational in block^2 terms: the numerator is the
    /// sum of the unit products, over denominator `SCALE * SCALE`.
    pub fn dot(&self, other: &Vector3f) -> (r: Rat)
        requires
            bounded3(*self, COORD_LIMIT as int),
            bounded3(*other, COORD_LIMIT as int),
        ensures
            r.num == self.x * other.x + self.y * other.y + self.z * other.z,
            r.den == SCALE * SCALE,
    {
        proof {
            lemma_abs_mul_bound(self.x as int, other.x as int, COORD_LIMIT as int);
            lemma_abs_mul_bound(self.y as int, other.y as int, COORD_LIMIT as int);
            lemma_abs_mul_bound(self.z as int, other.z as int, COORD_LIMIT as int);
        }
        let n: i128 = (self.x as i128) * (other.x as i128) + (self.y as i128) * (other.y as i128)
            + (self.z as i128) * (other.z as i128);
        Rat { num: n, den: (SCALE as i128) * (SCALE as i128) }
    }

    /// Exact squared length, in block^2 terms.
    pub fn square_length(&self) -> (r: Rat)
        requires
            bounded3(*self, COORD_LIMIT as int),
        ensures
            r.num == self.x * self.x + self.y * self.y + self.z * self.z,
            r.den == SCALE * SCALE,
    {
        self.dot(self)
    }

    /// Exact scaling by a rational factor; the result is a rational vector on
    /// the same unit scale.
    pub fn multiply(&self, scalar: &Rat) -> (r: RatVec3)
        requires
            bounded3(*self, COORD_LIMIT as int),
            0 < scalar.den <= COORD_LIMIT,
            -COORD_LIMIT <= scalar.num <= COORD_LIMIT,
        ensures
            r.nx == self.x * scalar.num,
            r.ny == self.y * scalar.num,
            r.nz == self.z * scalar.num,
            r.den == scalar.den,
    {
        proof {
            lemma_abs_mul_bound(self.x as int, scalar.num as int, COORD_LIMIT as int);
            lemma_abs_mul_bound(self.y as int, scalar.num as int, COORD_LIMIT as int);
            lemma_abs_mul_bound(self.z as int, scalar.num as int, COORD_LIMIT as int);
        }
        RatVec3 {
            nx: (self.x as i128) * scalar.num,
            ny: (self.y as i128) * scalar.num,
            nz: (self.z as i128) * scalar.num,
            den: scalar.den,
        }
    }

    /// Exact cross product, as a rational vector on the unit scale: each
    /// numerator is a difference of unit products, over denominator `SCALE`.
    pub fn cross(&self, other: &Vector3f) -> (r: RatVec3)
        requires
            bounded3(*self, COORD_LIMIT as int),
            bounded3(*other, COORD_LIMIT as int),
        ensures
            r.nx == self.y * other.z - self.z * other.y,
            r.ny == self.z * other.x - self.x * other.z,
            r.nz == self.x * other.y - self.y * other.x,
            r.den == SCALE,
    {
        proof {
            lemma_abs_mul_bound(self.y as int, other.z as int, COORD_LIMIT as int);
            lemma_abs_mul_bound(self.z as int, other.y as int, COORD_LIMIT as int);
            lemma_abs_mul_bound(self.z as int, other.x as int, COORD_LIMIT as int);
            lemma_abs_mul_bound(self.x as int, other.z as int, COORD_LIMIT as int);
            lemma_abs_mul_bound(self.x as int, other.y as int, COORD_LIMIT as int);
            lemma_abs_mul_bound(self.y as int, other.x as int, COORD_LIMIT as int);
        }
        RatVec3 {
            nx: (self.y as i128) * (other.z as i128) - (self.z as i128) * (other.y as i128),
            ny: (self.z as i128) * (other.x as i128) - (self.x as i128) * (other.z as i128),
            nz: (self.x as i128) * (other.y as i128) - (self.y as i128) * (other.x as i128),
            den: SCALE as i128,
        }
    }

    /// Exact linear interpolation `self + (other - self) * t`, as a rational
    /// vector on the unit scale with denominator `t.den`.
    pub fn lerp(&self, other: &Vector3f, t: &Rat) -> (r: RatVec3)
        requires
            bounded3(*self, COORD_LIMIT as int),
            bounded3(*other, COORD_LIMIT as int),
            0 < t.den <= COORD_LIMIT,
            -COORD_LIMIT <= t.num <= COORD_LIMIT,
        ensures
            r.nx == self.x * t.den + (other.x - self.x) * t.num,
            r.ny == self.y * t.den + (other.y - self.y) * t.num,
            r.nz == self.z * t.den + (other.z - self.z) * t.num,
            r.den == t.den,
    {
        proof {
            lemma_abs_mul_bound(self.x as int, t.den as int, COORD_LIMIT as int);
            lemma_abs_mul_bound(self.y as int, t.den as int, COORD_LIMIT as int);
            lemma_abs_mul_bound(self.z as int, t.den as int, COORD_LIMIT as int);
            lemma_abs_mul_bound((other.x - self.x) as int, t.num as int, 2 * COORD_LIMIT as int);
            lemma_abs_mul_bound((other.y - self.y) as int, t.num as int, 2 * COORD_LIMIT as int);
            lemma_abs_mul_bound((other.z - self.z) as int, t.num as int, 2 * COORD_LIMIT as int);
        }
        RatVec3 {
            nx: (self.x as i128) * t.den + ((other.x as i128) - (self.x as i128)) * t.num,
            ny: (self.y as i128) * t.den + ((other.y as i128) - (self.y as i128)) * t.num,
            nz: (self.z as i128) * t.den + ((other.z as i128) - (self.z as i128)) * t.num,
            den: t.den,
        }
    }

    /// Component-wise block floor: each coordinate moves down to the nearest
    /// multiple of `SCALE`.
    pub fn floor(&self) -> (r: Vector3f)
        requires
            self.x as int - SCALE >= i64::MIN,
            self.y as int - SCALE >= i64::MIN,
            self.z as int - SCALE >= i64::MIN,
        ensures
            r.x == floor_units(self.x as int),
            r.y == floor_units(self.y as int),
            r.z == floor_units(self.z as int),
    {
        proof {
            lemma_floor_units_bounds(self.x as int);
            lemma_floor_units_bounds(self.y as int);
            lemma_floor_units_bounds(self.z as int);
        }
        Vector3f {
            x: SCALE * div_floor_scale(self.x),
            y: SCALE * div_floor_scale(self.y),
            z: SCALE * div_floor_scale(self.z),
        }
    }

    /// Component-wise block ceiling: each coordinate moves up to the nearest
    /// multiple of `SCALE`.
    pub fn ceil(&self) -> (r: Vector3f)
        requires
            self.x as int + SCALE <= i64::MAX,
            self.y as int + SCALE <= i64::MAX,
            self.z as int + SCALE <= i64::MAX,
        ensures
            r.x == ceil_units(self.x as int),
            r.y == ceil_units(self.y as int),
            r.z == ceil_units(self.z as int),
    {
        proof {
            lemma_floor_units_bounds(self.x as int + SCALE - 1);
            lemma_floor_units_bounds(self.y as int + SCALE - 1);
            lemma_floor_units_bounds(self.z as int + SCALE - 1);
        }
        Vector3f {
            x: SCALE * div_floor_scale(self.x + (SCALE - 1)),
            y: SCALE * div_floor_scale(self.y + (SCALE - 1)),
            z: SCALE * div_floor_scale(self.z + (SCALE - 1)),
        }
    }

    /// Component-wise rounding to the nearest multiple of `SCALE`, halves
    /// away from zero.
    pub fn round(&self) -> (r: Vector3f)
        requires
            -i64::MAX + SCALE <= self.x as int <= i64::MAX - SCALE,
            -i64::MAX + SCALE <= self.y as int <= i64::MAX - SCALE,
            -i64::MAX + SCALE <= self.z as int <= i64::MAX - SCALE,
        ensures
            r.x == round_units(self.x as int),
            r.y == round_units(self.y as int),
            r.z == round_units(self.z as int),
    {
        Vector3f {
            x: round_coord(self.x),
            y: round_coord(self.y),
            z: round_coord(self.z),
        }
    }

    /// Exact component equality.
    pub fn equals(&self, other: &Vector3f) -> (r: bool)
        ensures
            r == (self.x == other.x && self.y == other.y && self.z == other.z),
    {
        self.x == other.x && self.y == other.y && self.z == other.z
    }

    /// The component selected by `axis`.
    pub fn axis(&self, axis: Axis) -> (r: i64)
        ensures
            r == axis_of(*self, axis),
    {
        match axis {
            Axis::X => self.x,
            Axis::Y => self.y,
            Axis::Z => self.z,
        }
    }
}

/// One coordinate rounded to the nearest multiple of `SCALE`, halves away
/// from zero.
fn round_coord(x: i64) -> (r: i64)
    requires
        -i64::MAX + SCALE <= x as int <= i64::MAX - SCALE,
    ensures
        r == round_units(x as int),
{
    proof {
        lemma_floor_units_bounds(x as int + SCALE as int / 2);
        lemma_floor_units_bounds(-(x as int) + SCALE as int / 2);
    }
    if x >= 0 {
        SCALE * div_floor_scale(x + SCALE / 2)
    } else {
        -(SCALE * div_floor_scale(-x + SCALE / 2))
    }
}

/// The block floor of a coordinate is at most the coordinate and less than
/// one block below it, and is a multiple of `SCALE`.
pub proof fn lemma_floor_units_bounds(x: int)
    ensures
        x - (SCALE as int) < floor_units(x) <= x,
        floor_units(x) % (SCALE as int) == 0,
{
    let s = SCALE as int;
    vstd::arithmetic::div_mod::lemma_fundamental_div_mod(x, s);
    vstd::arithmetic::div_mod::lemma_mod_bound(x, s);
    vstd::arithmetic::div_mod::lemma_mod_multiples_basic(x / s, s);
}

/// Magnitude bound of a product from magnitude bounds of the factors.
pub proof fn lemma_abs_mul_bound(a: int, b: int, lim: int)
    requires
        -lim <= a <= lim,
        -lim <= b <= lim,
        0 <= lim,
    ensures
        -(lim * lim) <= a * b <= lim * lim,
{
    assert(-(lim * lim) <= a * b <= lim * lim) by (nonlinear_arith)
        requires
            -lim <= a <= lim,
            -lim <= b <= lim,
            0 <= lim,
    ;
}

/// Magnitude bound of a product from two different magnitude bounds.
pub proof fn lemma_mul_bounds(a: int, la: int, b: int, lb: int)
    requires
        -la <= a <= la,
        -lb <= b <= lb,
        0 <= la,
        0 <= lb,
    ensures
        -(la * lb) <= a * b <= la * lb,
{
    assert(-(la * lb) <= a * b <= la * lb) by (nonlinear_arith)
        requires
            -la <= a <= la,
            -lb <= b <= lb,
            0 <= la,
            0 <= lb,
    ;
}

} // verus!
