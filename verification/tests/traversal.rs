//! Block-traversal tests: the exact 3D DDA walk, its visiting order, and
//! the early-stop behaviour of the predicate-driven traversal.

use std::cell::RefCell;

use voxel_collision::ray::Raycaster;
use voxel_collision::rat::Rat;
use voxel_collision::vec3::Vector3f;

fn v(x: i64, y: i64, z: i64) -> Vector3f {
    Vector3f::new(x, y, z)
}

fn triple(p: &Vector3f) -> (i64, i64, i64) {
    (p.x, p.y, p.z)
}

#[test]
fn sign_is_one_block_each_way_and_zero_when_still() {
    let s = Raycaster::sign(&v(2500, -1, 0));
    assert_eq!((s.x, s.y, s.z), (1000, -1000, 0));
}

#[test]
fn boundary_is_distance_to_block_floor() {
    assert_eq!(Raycaster::boundary(0), 0);
    assert_eq!(Raycaster::boundary(3000), 0);
    assert_eq!(Raycaster::boundary(2500), -500);
    assert_eq!(Raycaster::boundary(-2500), -500);
    assert_eq!(Raycaster::boundary(-1), -999);
}

#[test]
fn step_size_is_step_over_direction() {
    let direction = v(2000, 0, -4000);
    let step = Raycaster::sign(&direction);
    assert_eq!((step.x, step.y, step.z), (1000, 0, -1000));
    let (sx, sy, sz) = Raycaster::step_size(&step, &direction);
    assert_eq!(sx, Some(Rat { num: 1000, den: 2000 }));
    // A zero step means an infinite advance: that axis never moves.
    assert_eq!(sy, None);
    assert_eq!(sz, Some(Rat { num: 1000, den: 4000 }));
    // A zero direction never advances either.
    let (_, _, zz) = Raycaster::step_size(&v(1000, 1000, 1000), &v(1000, 1000, 0));
    assert_eq!(zz, None);
}

#[test]
fn straight_walk_visits_four_blocks() {
    // (0.5, 0.5, 0.5) -> (3.5, 0.5, 0.5) passes blocks 0, 1, 2, 3 along x.
    let path = Raycaster::block_path(&v(500, 500, 500), &v(3500, 500, 500));
    let got: Vec<(i64, i64, i64)> = path.iter().map(triple).collect();
    assert_eq!(got, vec![(0, 0, 0), (1000, 0, 0), (2000, 0, 0), (3000, 0, 0)]);
}

#[test]
fn traversal_calls_predicate_on_each_block_in_order() {
    let seen: RefCell<Vec<(i64, i64, i64)>> = RefCell::new(Vec::new());
    let r = Raycaster::transverse_blocks(&v(500, 500, 500), &v(3500, 500, 500), |b: Vector3f| {
        seen.borrow_mut().push((b.x, b.y, b.z));
        false
    });
    assert!(r.is_none());
    assert_eq!(*seen.borrow(), vec![(0, 0, 0), (1000, 0, 0), (2000, 0, 0), (3000, 0, 0)]);
}

#[test]
fn equal_endpoints_make_no_calls() {
    let calls: RefCell<u32> = RefCell::new(0);
    let r = Raycaster::transverse_blocks(&v(500, 500, 500), &v(500, 500, 500), |_b: Vector3f| {
        *calls.borrow_mut() += 1;
        false
    });
    assert!(r.is_none());
    assert_eq!(*calls.borrow(), 0);
    assert_eq!(Raycaster::block_path(&v(500, 500, 500), &v(500, 500, 500)).len(), 0);
}

#[test]
fn immediate_hit_makes_exactly_one_call() {
    let calls: RefCell<u32> = RefCell::new(0);
    let r = Raycaster::transverse_blocks(&v(500, 500, 500), &v(3500, 500, 500), |_b: Vector3f| {
        *calls.borrow_mut() += 1;
        true
    });
    assert_eq!(*calls.borrow(), 1);
    let hit = r.unwrap();
    assert_eq!(triple(&hit), (0, 0, 0));
}

#[test]
fn traversal_stops_at_the_hit_block() {
    let calls: RefCell<u32> = RefCell::new(0);
    let r = Raycaster::transverse_blocks(&v(500, 500, 500), &v(3500, 500, 500), |b: Vector3f| {
        *calls.borrow_mut() += 1;
        b.x == 2000
    });
    assert_eq!(*calls.borrow(), 3);
    assert_eq!(triple(&r.unwrap()), (2000, 0, 0));
}

#[test]
fn diagonal_walk_breaks_ties_toward_y() {
    // (0.5, 0.5, 0.5) -> (2.5, 2.5, 0.5): equal boundary parameters on x and
    // y; the nested strict comparisons step y first on a tie.
    let path = Raycaster::block_path(&v(500, 500, 500), &v(2500, 2500, 500));
    let got: Vec<(i64, i64, i64)> = path.iter().map(triple).collect();
    assert_eq!(
        got,
        vec![(0, 0, 0), (0, 1000, 0), (1000, 1000, 0), (1000, 2000, 0), (2000, 2000, 0)],
    );
}

#[test]
fn negative_walk_follows_the_boundary_formula() {
    // (0.5, ...) -> (-1.5, ...): the boundary offset comes from the
    // direction's own fractional part, so the walk starts stepping at
    // parameter zero and takes three steps.
    let path = Raycaster::block_path(&v(500, 500, 500), &v(-1500, 500, 500));
    let got: Vec<(i64, i64, i64)> = path.iter().map(triple).collect();
    assert_eq!(got, vec![(0, 0, 0), (-1000, 0, 0), (-2000, 0, 0), (-3000, 0, 0)]);
}

#[test]
fn short_segment_stays_in_the_first_block() {
    let path = Raycaster::block_path(&v(100, 100, 100), &v(200, 150, 120));
    let got: Vec<(i64, i64, i64)> = path.iter().map(triple).collect();
    assert_eq!(got, vec![(0, 0, 0)]);
}
