//! Voxel-grid ray traversal: a 3D digital differential analyzer that steps
//! through the integer blocks a segment passes, in order, with exact
//! rational traversal parameters.

use vstd::prelude::*;

use crate::rat::Rat;
use crate::vec3::{
    bounded3, div_floor_scale, floor_units, lemma_floor_units_bounds, lemma_mul_bounds, Vector3f,
    RANGE_LIMIT, SCALE,
};
use vstd::arithmetic::div_mod::{
    lemma_div_plus_one, lemma_div_pos_is_pos, lemma_fundamental_div_mod, lemma_mod_bound,
};

verus! {

/// The traversal state of the 3D digital differential analyzer, as the
/// proofs see it: the current block corner (in units, multiples of `SCALE`),
/// and for each axis the step direction (one block either way), and the traversal
/// parameter of the next boundary crossing as the exact fraction
/// `num / den`. A zero denominator stands for an infinite parameter: that
/// axis never reaches another boundary.
pub struct DdaState {
    pub bx: int,
    pub by: int,
    pub bz: int,
    pub sx: int,
    pub sy: int,
    pub sz: int,
    pub nx: int,
    pub ny: int,
    pub nz: int,
    pub dx: int,
    pub dy: int,
    pub dz: int,
}

/// The traversal parameter `n / d` has not yet passed the end of the
/// segment (`n / d <= 1`, and the axis is moving at all).
pub open spec fn tle1(n: int, d: int) -> bool {
    d != 0 && n <= d
}

/// The parameter `n1 / d1` is strictly smaller than `n2 / d2`, an infinite
/// parameter (zero denominator) comparing greater than every finite one.
pub open spec fn tlt(n1: int, d1: int, n2: int, d2: int) -> bool {
    d1 != 0 && (d2 == 0 || n1 * d2 < n2 * d1)
}

/// Some axis has not yet stepped past the end of the segment.
pub open spec fn dda_continue(st: DdaState) -> bool {
    tle1(st.nx, st.dx) || tle1(st.ny, st.dy) || tle1(st.nz, st.dz)
}

/// The next step goes along x: its parameter is strictly the smallest.
pub open spec fn dda_pick_x(st: DdaState) -> bool {
    tlt(st.nx, st.dx, st.ny, st.dy) && tlt(st.nx, st.dx, st.nz, st.dz)
}

/// The next step goes along y: x does not win, and y beats z.
pub open spec fn dda_pick_y(st: DdaState) -> bool {
    !dda_pick_x(st) && tlt(st.ny, st.dy, st.nz, st.dz)
}

/// One traversal step: the winning axis advances its block coordinate by
/// its step and its boundary parameter by one whole block.
pub open spec fn dda_next(st: DdaState) -> DdaState {
    if dda_pick_x(st) {
        DdaState { bx: st.bx + st.sx, nx: st.nx + SCALE, ..st }
    } else if dda_pick_y(st) {
        DdaState { by: st.by + st.sy, ny: st.ny + SCALE, ..st }
    } else {
        DdaState { bz: st.bz + st.sz, nz: st.nz + SCALE, ..st }
    }
}

/// Well-formedness of one axis of the traversal state: the denominator is a
/// bounded segment extent, the numerator stays within one block of the
/// `[-SCALE, den]` working range, the step is one block either way, and the
/// block coordinate is tied to the numerator (each advances in lock step,
/// so `SCALE * b - s * n` never changes).
pub open spec fn axis_wf(b: int, s: int, n: int, d: int) -> bool {
    &&& 0 <= d <= 2 * RANGE_LIMIT
    &&& (s == SCALE || s == -SCALE)
    &&& (d != 0 ==> -SCALE <= n <= d + SCALE)
    &&& (d != 0 ==> -600_000_000 <= SCALE * b - s * n <= 600_000_000)
    &&& (d == 0 ==> n == 0 && -600_000 <= b <= 600_000)
}

/// Well-formedness of the whole traversal state.
pub open spec fn dda_wf(st: DdaState) -> bool {
    axis_wf(st.bx, st.sx, st.nx, st.dx) && axis_wf(st.by, st.sy, st.ny, st.dy) && axis_wf(
        st.bz,
        st.sz,
        st.nz,
        st.dz,
    )
}

/// How many more steps one axis can take before its parameter passes the
/// end of the segment.
pub open spec fn rem_steps(n: int, d: int) -> int {
    if d == 0 || n > d {
        0
    } else {
        (d - n) / (SCALE as int) + 1
    }
}

/// How many more steps the traversal can take in all: the termination
/// measure of the walk.
pub open spec fn dda_measure(st: DdaState) -> int {
    rem_steps(st.nx, st.dx) + rem_steps(st.ny, st.dy) + rem_steps(st.nz, st.dz)
}

/// A fraction at most one stays at most one across a smaller-or-equal
/// fraction: from `n1/d1 <= n2/d2 <= 1` follows `n1/d1 <= 1`.
proof fn lemma_frac_le(n1: int, d1: int, n2: int, d2: int)
    requires
        d1 > 0,
        d2 > 0,
        n1 * d2 <= n2 * d1,
        n2 <= d2,
    ensures
        n1 <= d1,
{
    assert(n1 <= d1) by (nonlinear_arith)
        requires
            d1 > 0,
            d2 > 0,
            n1 * d2 <= n2 * d1,
            n2 <= d2,
    ;
}

/// While the traversal continues, the winning axis is finite and has not
/// yet passed the end of the segment.
proof fn lemma_pick_in_range(st: DdaState)
    requires
        dda_wf(st),
        dda_continue(st),
    ensures
        dda_pick_x(st) ==> st.dx != 0 && st.nx <= st.dx,
        dda_pick_y(st) ==> st.dy != 0 && st.ny <= st.dy,
        !dda_pick_x(st) && !dda_pick_y(st) ==> st.dz != 0 && st.nz <= st.dz,
{
    if dda_pick_x(st) {
        if !tle1(st.nx, st.dx) {
            if tle1(st.ny, st.dy) {
                lemma_frac_le(st.nx, st.dx, st.ny, st.dy);
            } else {
                lemma_frac_le(st.nx, st.dx, st.nz, st.dz);
            }
        }
    } else if dda_pick_y(st) {
        if !tle1(st.ny, st.dy) {
            if tle1(st.nz, st.dz) {
                lemma_frac_le(st.ny, st.dy, st.nz, st.dz);
            } else if tle1(st.nx, st.dx) {
                if !tlt(st.nx, st.dx, st.ny, st.dy) {
                    lemma_frac_le(st.ny, st.dy, st.nx, st.dx);
                } else {
                    // x beats y but loses overall, so x does not beat z.
                    lemma_frac_le(st.nz, st.dz, st.nx, st.dx);
                    lemma_frac_le(st.ny, st.dy, st.nz, st.dz);
                }
            }
        }
    } else {
        if !tle1(st.nz, st.dz) {
            if tle1(st.nx, st.dx) {
                if st.dz == 0 {
                } else if !tlt(st.nx, st.dx, st.nz, st.dz) {
                    lemma_frac_le(st.nz, st.dz, st.nx, st.dx);
                } else if !tlt(st.nx, st.dx, st.ny, st.dy) {
                    // y at most x, and z at most y since y does not win.
                    lemma_frac_le(st.ny, st.dy, st.nx, st.dx);
                    lemma_frac_le(st.nz, st.dz, st.ny, st.dy);
                }
            } else if tle1(st.ny, st.dy) {
                if st.dz != 0 && !tlt(st.ny, st.dy, st.nz, st.dz) {
                    lemma_frac_le(st.nz, st.dz, st.ny, st.dy);
                }
            }
        }
    }
}

/// A step of one moving axis preserves its well-formedness: the block
/// coordinate and the numerator advance in lock step.
proof fn lemma_step_axis_wf(b: int, s: int, n: int, d: int)
    requires
        axis_wf(b, s, n, d),
        d != 0,
        n <= d,
    ensures
        axis_wf(b + s, s, n + SCALE, d),
{
    assert(SCALE * (b + s) - s * (n + SCALE) == SCALE * b - s * n) by (nonlinear_arith);
}

/// One step preserves well-formedness.
proof fn lemma_next_wf(st: DdaState)
    requires
        dda_wf(st),
        dda_continue(st),
    ensures
        dda_wf(dda_next(st)),
{
    lemma_pick_in_range(st);
    if dda_pick_x(st) {
        lemma_step_axis_wf(st.bx, st.sx, st.nx, st.dx);
    } else if dda_pick_y(st) {
        lemma_step_axis_wf(st.by, st.sy, st.ny, st.dy);
    } else {
        lemma_step_axis_wf(st.bz, st.sz, st.nz, st.dz);
    }
}

/// Remaining step counts are never negative.
proof fn lemma_rem_steps_nonneg(n: int, d: int)
    ensures
        rem_steps(n, d) >= 0,
{
    if !(d == 0 || n > d) {
        lemma_div_pos_is_pos(d - n, SCALE as int);
    }
}

/// One step of the winning axis spends exactly one of its remaining steps.
proof fn lemma_rem_steps_dec(n: int, d: int)
    requires
        d != 0,
        n <= d,
    ensures
        rem_steps(n + SCALE, d) == rem_steps(n, d) - 1,
{
    let s = SCALE as int;
    if n + s > d {
        assert(0 <= d - n < s);
        assert((d - n) / s == 0) by {
            vstd::arithmetic::div_mod::lemma_basic_div(d - n, s);
        }
    } else {
        lemma_div_plus_one(d - n - s, s);
        lemma_div_pos_is_pos(d - n - s, s);
    }
}

/// The termination measure strictly decreases with each step and never goes
/// below zero.
proof fn lemma_measure_decreases(st: DdaState)
    requires
        dda_wf(st),
        dda_continue(st),
    ensures
        0 <= dda_measure(dda_next(st)) < dda_measure(st),
{
    lemma_pick_in_range(st);
    lemma_rem_steps_nonneg(st.nx, st.dx);
    lemma_rem_steps_nonneg(st.ny, st.dy);
    lemma_rem_steps_nonneg(st.nz, st.dz);
    let st2 = dda_next(st);
    lemma_rem_steps_nonneg(st2.nx, st2.dx);
    lemma_rem_steps_nonneg(st2.ny, st2.dy);
    lemma_rem_steps_nonneg(st2.nz, st2.dz);
    if dda_pick_x(st) {
        lemma_rem_steps_dec(st.nx, st.dx);
    } else if dda_pick_y(st) {
        lemma_rem_steps_dec(st.ny, st.dy);
    } else {
        lemma_rem_steps_dec(st.nz, st.dz);
    }
}

/// The blocks the traversal still visits after the state `st`, in order:
/// each step advances the axis whose boundary parameter is smallest (ties
/// broken x, then y, then z) and records the new block.
pub open spec fn dda_path(st: DdaState) -> Seq<(int, int, int)>
    decreases dda_measure(st)
        when dda_wf(st)
        via dda_path_decreases
{
    if !dda_continue(st) {
        Seq::empty()
    } else {
        let st2 = dda_next(st);
        seq![(st2.bx, st2.by, st2.bz)] + dda_path(st2)
    }
}

#[via_fn]
proof fn dda_path_decreases(st: DdaState) {
    if dda_continue(st) {
        lemma_measure_decreases(st);
        lemma_next_wf(st);
    }
}

/// The starting numerator of one axis, from the signed segment extent `ds`
/// along it: the exact boundary-offset formula of the traversal, derived
/// from the fractional part of the extent itself.
pub open spec fn init_num(ds: int) -> int {
    if ds == 0 {
        0
    } else if ds > 0 {
        SCALE + ds % (SCALE as int)
    } else {
        -(ds % (SCALE as int))
    }
}

/// The starting denominator of one axis: the absolute segment extent, zero
/// meaning the axis never steps.
pub open spec fn init_den(ds: int) -> int {
    if ds >= 0 {
        ds
    } else {
        -ds
    }
}

/// The step of one axis of the walk: one block in the direction of travel.
/// A zero extent keeps a positive step as a placeholder: such an axis has an
/// infinite boundary parameter and never steps, so the value is never added.
pub open spec fn init_sdir(ds: int) -> int {
    if ds >= 0 {
        SCALE as int
    } else {
        -(SCALE as int)
    }
}

/// The starting state of the traversal of the segment `s -> e`: the block
/// floor of `s`, and per axis the boundary parameters of the extent
/// `e - s`.
pub open spec fn dda_init(s: Vector3f, e: Vector3f) -> DdaState {
    DdaState {
        bx: floor_units(s.x as int),
        by: floor_units(s.y as int),
        bz: floor_units(s.z as int),
        sx: init_sdir(e.x - s.x),
        sy: init_sdir(e.y - s.y),
        sz: init_sdir(e.z - s.z),
        nx: init_num(e.x - s.x),
        ny: init_num(e.y - s.y),
        nz: init_num(e.z - s.z),
        dx: init_den(e.x - s.x),
        dy: init_den(e.y - s.y),
        dz: init_den(e.z - s.z),
    }
}

/// The full sequence of blocks the segment `s -> e` passes through, in
/// visiting order and in units: empty when the endpoints are equal,
/// otherwise the block floor of `s` followed by the walk.
pub open spec fn traverse_seq(s: Vector3f, e: Vector3f) -> Seq<(int, int, int)> {
    if s.x == e.x && s.y == e.y && s.z == e.z {
        Seq::empty()
    } else {
        seq![(floor_units(s.x as int), floor_units(s.y as int), floor_units(s.z as int))]
            + dda_path(dda_init(s, e))
    }
}

/// The integer view of a fixed-point vector.
pub open spec fn view3(v: Vector3f) -> (int, int, int) {
    (v.x as int, v.y as int, v.z as int)
}

/// The fixed-point vector with the given integer view.
pub open spec fn vec_of(t: (int, int, int)) -> Vector3f {
    Vector3f { x: t.0 as i64, y: t.1 as i64, z: t.2 as i64 }
}

/// The starting state of a bounded segment is well formed.
proof fn lemma_init_wf(s: Vector3f, e: Vector3f)
    requires
        bounded3(s, RANGE_LIMIT as int),
        bounded3(e, RANGE_LIMIT as int),
    ensures
        dda_wf(dda_init(s, e)),
{
    lemma_init_axis_wf(s.x as int, e.x as int);
    lemma_init_axis_wf(s.y as int, e.y as int);
    lemma_init_axis_wf(s.z as int, e.z as int);
}

/// The starting state of one bounded axis is well formed.
proof fn lemma_init_axis_wf(sc: int, ec: int)
    requires
        -RANGE_LIMIT <= sc <= RANGE_LIMIT,
        -RANGE_LIMIT <= ec <= RANGE_LIMIT,
    ensures
        axis_wf(floor_units(sc), init_sdir(ec - sc), init_num(ec - sc), init_den(ec - sc)),
{
    let sv = SCALE as int;
    let ds = ec - sc;
    lemma_floor_units_bounds(sc);
    let b = floor_units(sc);
    if ds != 0 {
        lemma_mod_bound(ds, sv);
        if ds > 0 {
            // num = SCALE + ds % SCALE <= ds + SCALE on either side of SCALE.
            if ds < sv {
                vstd::arithmetic::div_mod::lemma_small_mod(ds as nat, sv as nat);
            }
        }
        assert(-600_000_000 <= sv * b - init_sdir(ds) * init_num(ds) <= 600_000_000) by {
            assert(-501_000_000 <= sv * b <= 500_000_000) by (nonlinear_arith)
                requires
                    sv == 1000,
                    -501_000 <= b <= 500_000,
            ;
            assert(init_sdir(ds) * init_num(ds) == if ds >= 0 {
                sv * init_num(ds)
            } else {
                -(sv * init_num(ds))
            });
            assert(-2_000_000 <= sv * init_num(ds) <= 2_000_000) by (nonlinear_arith)
                requires
                    sv == 1000,
                    -2000 <= init_num(ds) <= 2000,
            ;
        }
    }
}

/// The block traversal routines, grouped as associated functions.
pub struct Raycaster {}

impl Raycaster {
    /// The component-wise sign vector of `vector`, on the fixed-point scale:
    /// one block (`SCALE` units) for a positive component, minus one block
    /// for a negative one, and exactly zero for a zero component (a
    /// non-moving axis has no direction of travel).
    pub fn sign(vector: &Vector3f) -> (r: Vector3f)
        ensures
            r.x == sign_units(vector.x as int),
            r.y == sign_units(vector.y as int),
            r.z == sign_units(vector.z as int),
    {
        Vector3f {
            x: sign_coord(vector.x),
            y: sign_coord(vector.y),
            z: sign_coord(vector.z),
        }
    }

    /// The signed distance from `n` down to its block floor: `floor(n) - n`
    /// in units, always in `(-SCALE, 0]`.
    pub fn boundary(n: i64) -> (r: i64)
        requires
            n as int - SCALE >= i64::MIN,
        ensures
            r == floor_units(n as int) - n,
            -(SCALE as int) < r <= 0,
    {
        proof {
            lemma_floor_units_bounds(n as int);
        }
        let t: i64 = crate::vec3::div_floor_scale(n);
        SCALE * t - n
    }

    /// The per-axis advance of the traversal parameter for one whole block,
    /// as an exact fraction `step / direction` (a pure number: both arguments
    /// are on the same unit scale). `None` stands for an infinite advance: a
    /// zero step, or a zero direction component, never reaches a boundary.
    pub fn step_size(step: &Vector3f, direction: &Vector3f) -> (r: (
        Option<Rat>,
        Option<Rat>,
        Option<Rat>,
    ))
        requires
            step.x != i64::MIN,
            step.y != i64::MIN,
            step.z != i64::MIN,
            direction.x != i64::MIN,
            direction.y != i64::MIN,
            direction.z != i64::MIN,
        ensures
            r.0 == step_size_axis(step.x as int, direction.x as int),
            r.1 == step_size_axis(step.y as int, direction.y as int),
            r.2 == step_size_axis(step.z as int, direction.z as int),
    {
        (
            step_size_coord(step.x, direction.x),
            step_size_coord(step.y, direction.y),
            step_size_coord(step.z, direction.z),
        )
    }

    /// The blocks the segment `start -> end` passes through, in visiting
    /// order: exactly the sequence `traverse_seq` of the exact traversal.
    /// Empty when the endpoints are exactly equal; otherwise it begins at
    /// the block floor of `start` and each later entry steps one block along
    /// the axis whose boundary parameter is smallest.
    pub fn block_path(start: &Vector3f, end: &Vector3f) -> (path: Vec<Vector3f>)
        requires
            bounded3(*start, RANGE_LIMIT as int),
            bounded3(*end, RANGE_LIMIT as int),
        ensures
            path@.len() == traverse_seq(*start, *end).len(),
            forall|i: int|
                0 <= i < path@.len() ==> view3(path@[i]) == traverse_seq(*start, *end)[i],
    {
        if start.equals(end) {
            return Vec::new();
        }
        let fs = start.floor();
        let mut path: Vec<Vector3f> = Vec::new();
        path.push(fs);

        let ax = init_axis(start.x, end.x);
        let ay = init_axis(start.y, end.y);
        let az = init_axis(start.z, end.z);
        let mut nx = ax.0;
        let mut ny = ay.0;
        let mut nz = az.0;
        let dx = ax.1;
        let dy = ay.1;
        let dz = az.1;
        let sx = ax.2;
        let sy = ay.2;
        let sz = az.2;
        let mut bx = fs.x;
        let mut by = fs.y;
        let mut bz = fs.z;

        proof {
            lemma_init_wf(*start, *end);
            assert(mk_state(
                bx as int,
                by as int,
                bz as int,
                sx as int,
                sy as int,
                sz as int,
                nx as int,
                ny as int,
                nz as int,
                dx as int,
                dy as int,
                dz as int,
            ) == dda_init(*start, *end));
            assert(views_of(path@) =~= seq![view3(fs)]);
        }

        while (dx != 0 && nx <= dx) || (dy != 0 && ny <= dy) || (dz != 0 && nz <= dz)
            invariant
                dx == init_den(end.x - start.x),
                dy == init_den(end.y - start.y),
                dz == init_den(end.z - start.z),
                sx == init_sdir(end.x - start.x),
                sy == init_sdir(end.y - start.y),
                sz == init_sdir(end.z - start.z),
                dda_wf(
                    mk_state(
                        bx as int,
                        by as int,
                        bz as int,
                        sx as int,
                        sy as int,
                        sz as int,
                        nx as int,
                        ny as int,
                        nz as int,
                        dx as int,
                        dy as int,
                        dz as int,
                    ),
                ),
                traverse_seq(*start, *end) =~= views_of(path@) + dda_path(
                    mk_state(
                        bx as int,
                        by as int,
                        bz as int,
                        sx as int,
                        sy as int,
                        sz as int,
                        nx as int,
                        ny as int,
                        nz as int,
                        dx as int,
                        dy as int,
                        dz as int,
                    ),
                ),
            decreases dda_measure(
                mk_state(
                    bx as int,
                    by as int,
                    bz as int,
                    sx as int,
                    sy as int,
                    sz as int,
                    nx as int,
                    ny as int,
                    nz as int,
                    dx as int,
                    dy as int,
                    dz as int,
                ),
            ),
        {
            let ghost st = mk_state(
                bx as int,
                by as int,
                bz as int,
                sx as int,
                sy as int,
                sz as int,
                nx as int,
                ny as int,
                nz as int,
                dx as int,
                dy as int,
                dz as int,
            );
            proof {
                lemma_pick_in_range(st);
                lemma_next_wf(st);
                lemma_measure_decreases(st);
                lemma_block_bound(bx as int, sx as int, nx as int, dx as int);
                lemma_block_bound(by as int, sy as int, ny as int, dy as int);
                lemma_block_bound(bz as int, sz as int, nz as int, dz as int);
            }
            if tlt_e(nx, dx, ny, dy) && tlt_e(nx, dx, nz, dz) {
                bx = bx + sx;
                nx = nx + SCALE;
            } else if tlt_e(ny, dy, nz, dz) {
                by = by + sy;
                ny = ny + SCALE;
            } else {
                bz = bz + sz;
                nz = nz + SCALE;
            }
            let b = Vector3f { x: bx, y: by, z: bz };
            proof {
                let st2 = mk_state(
                    bx as int,
                    by as int,
                    bz as int,
                    sx as int,
                    sy as int,
                    sz as int,
                    nx as int,
                    ny as int,
                    nz as int,
                    dx as int,
                    dy as int,
                    dz as int,
                );
                assert(st2 == dda_next(st));
                assert(dda_path(st) =~= seq![(st2.bx, st2.by, st2.bz)] + dda_path(st2));
                assert(views_of(path@.push(b)) =~= views_of(path@) + seq![view3(b)]);
                assert(traverse_seq(*start, *end) =~= views_of(path@.push(b)) + dda_path(st2));
            }
            path.push(b);
        }
        proof {
            let st = mk_state(
                bx as int,
                by as int,
                bz as int,
                sx as int,
                sy as int,
                sz as int,
                nx as int,
                ny as int,
                nz as int,
                dx as int,
                dy as int,
                dz as int,
            );
            assert(dda_path(st) =~= Seq::empty());
            assert(traverse_seq(*start, *end) =~= views_of(path@));
        }
        path
    }

    /// Walks the blocks of the segment `start -> end` in visiting order,
    /// calling `condition` on each, and stops at the first block where it
    /// returns true. Returns that block, or `None` when the segment is
    /// exhausted (or empty: exactly equal endpoints make no calls at all).
    pub fn transverse_blocks<F: Fn(Vector3f) -> bool>(
        start: &Vector3f,
        end: &Vector3f,
        condition: F,
    ) -> (r: Option<Vector3f>)
        requires
            bounded3(*start, RANGE_LIMIT as int),
            bounded3(*end, RANGE_LIMIT as int),
            forall|i: int|
                0 <= i < traverse_seq(*start, *end).len() ==> call_requires(
                    condition,
                    (vec_of(#[trigger] traverse_seq(*start, *end)[i]),),
                ),
        ensures
            r is None ==> forall|i: int|
                0 <= i < traverse_seq(*start, *end).len() ==> call_ensures(
                    condition,
                    (vec_of(#[trigger] traverse_seq(*start, *end)[i]),),
                    false,
                ),
            r matches Some(v) ==> exists|i: int|
                {
                    &&& 0 <= i < traverse_seq(*start, *end).len()
                    &&& view3(v) == #[trigger] traverse_seq(*start, *end)[i]
                    &&& call_ensures(condition, (v,), true)
                    &&& forall|j: int|
                        0 <= j < i ==> call_ensures(
                            condition,
                            (vec_of(#[trigger] traverse_seq(*start, *end)[j]),),
                            false,
                        )
                },
            start.x == end.x && start.y == end.y && start.z == end.z ==> r is None,
    {
        let path = Raycaster::block_path(start, end);
        let mut k: usize = 0;
        while k < path.len()
            invariant
                bounded3(*start, RANGE_LIMIT as int),
                bounded3(*end, RANGE_LIMIT as int),
                forall|i: int|
                    0 <= i < traverse_seq(*start, *end).len() ==> call_requires(
                        condition,
                        (vec_of(#[trigger] traverse_seq(*start, *end)[i]),),
                    ),
                path@.len() == traverse_seq(*start, *end).len(),
                forall|i: int|
                    0 <= i < path@.len() ==> view3(path@[i]) == traverse_seq(*start, *end)[i],
                0 <= k <= path@.len(),
                forall|j: int|
                    0 <= j < k ==> call_ensures(
                        condition,
                        (vec_of(#[trigger] traverse_seq(*start, *end)[j]),),
                        false,
                    ),
            decreases path@.len() - k,
        {
            let b = path[k];
            proof {
                assert(view3(b) == traverse_seq(*start, *end)[k as int]);
                assert(b == vec_of(traverse_seq(*start, *end)[k as int]));
            }
            if condition(b) {
                return Some(b);
            }
            k = k + 1;
        }
        None
    }
}

/// The spec traversal state assembled from its twelve components.
pub open spec fn mk_state(
    bx: int,
    by: int,
    bz: int,
    sx: int,
    sy: int,
    sz: int,
    nx: int,
    ny: int,
    nz: int,
    dx: int,
    dy: int,
    dz: int,
) -> DdaState {
    DdaState { bx, by, bz, sx, sy, sz, nx, ny, nz, dx, dy, dz }
}

/// The integer views of a sequence of fixed-point vectors.
pub open spec fn views_of(s: Seq<Vector3f>) -> Seq<(int, int, int)> {
    s.map_values(|v: Vector3f| view3(v))
}

/// A moving, well-formed axis keeps its block coordinate within the working
/// band of the traversal.
proof fn lemma_block_bound(b: int, s: int, n: int, d: int)
    requires
        axis_wf(b, s, n, d),
    ensures
        -1_601_000 <= b <= 1_601_000,
{
    if d != 0 {
        assert(s * n == if s == SCALE {
            (SCALE as int) * n
        } else {
            -((SCALE as int) * n)
        }) by (nonlinear_arith)
            requires
                s == SCALE || s == -(SCALE as int),
        ;
        assert(-1_001_000 <= n <= 1_001_000);
        assert(-1_601_000_000 <= SCALE * b <= 1_601_000_000);
    }
}

/// Euclidean remainder of a coordinate by `SCALE`, in `[0, SCALE)`.
fn emod_scale(x: i64) -> (r: i64)
    requires
        x as int - SCALE >= i64::MIN,
    ensures
        r == (x as int) % (SCALE as int),
{
    proof {
        lemma_floor_units_bounds(x as int);
        lemma_fundamental_div_mod(x as int, SCALE as int);
        lemma_mod_bound(x as int, SCALE as int);
    }
    let q = div_floor_scale(x);
    x - SCALE * q
}

/// The starting numerator, denominator and step of one axis, from the
/// segment's endpoint coordinates along it.
fn init_axis(sc: i64, ec: i64) -> (r: (i64, i64, i64))
    requires
        -RANGE_LIMIT <= sc <= RANGE_LIMIT,
        -RANGE_LIMIT <= ec <= RANGE_LIMIT,
    ensures
        r.0 == init_num(ec - sc),
        r.1 == init_den(ec - sc),
        r.2 == init_sdir(ec - sc),
{
    let ds = ec - sc;
    if ds == 0 {
        (0, 0, SCALE)
    } else if ds > 0 {
        (SCALE + emod_scale(ds), ds, SCALE)
    } else {
        (-emod_scale(ds), -ds, -SCALE)
    }
}

/// Exact comparison of two boundary parameters, a zero denominator standing
/// for infinity.
fn tlt_e(n1: i64, d1: i64, n2: i64, d2: i64) -> (r: bool)
    requires
        -SCALE <= n1 as int <= d1 + SCALE,
        0 <= d1 <= 2 * RANGE_LIMIT,
        -SCALE <= n2 as int <= d2 + SCALE,
        0 <= d2 <= 2 * RANGE_LIMIT,
    ensures
        r == tlt(n1 as int, d1 as int, n2 as int, d2 as int),
{
    proof {
        lemma_mul_bounds(n1 as int, 1_001_000, d2 as int, 1_000_000);
        lemma_mul_bounds(n2 as int, 1_001_000, d1 as int, 1_000_000);
    }
    d1 != 0 && (d2 == 0 || n1 * d2 < n2 * d1)
}

/// The advance fraction of one axis: `step / direction` with the denominator
/// made positive, or `None` when either argument is zero.
/// The sign of one coordinate, on the fixed-point scale: one block for a
/// positive value, minus one block for a negative one, zero for zero.
pub open spec fn sign_units(x: int) -> int {
    if x > 0 {
        SCALE as int
    } else if x < 0 {
        -(SCALE as int)
    } else {
        0
    }
}

/// One component of `sign`.
fn sign_coord(x: i64) -> (r: i64)
    ensures
        r == sign_units(x as int),
{
    if x > 0 {
        SCALE
    } else if x < 0 {
        -SCALE
    } else {
        0
    }
}

pub open spec fn step_size_axis(step: int, direction: int) -> Option<Rat> {
    if step == 0 || direction == 0 {
        None
    } else if direction > 0 {
        Some(Rat { num: step as i128, den: direction as i128 })
    } else {
        Some(Rat { num: -step as i128, den: -direction as i128 })
    }
}

/// One component of `step_size`.
fn step_size_coord(step: i64, direction: i64) -> (r: Option<Rat>)
    requires
        step != i64::MIN,
        direction != i64::MIN,
    ensures
        r == step_size_axis(step as int, direction as int),
{
    if step == 0 || direction == 0 {
        None
    } else if direction > 0 {
        Some(Rat { num: step as i128, den: direction as i128 })
    } else {
        Some(Rat { num: -(step as i128), den: -(direction as i128) })
    }
}

} // verus!
