//! The result of a successful box-segment intersection.

use vstd::prelude::*;

use crate::rat::{Rat, RatVec3};

verus! {

/// A face hit: the exact crossing point and its exact squared Euclidean
/// length (in block^2 terms) measured from the coordinate origin.
#[derive(Clone, Copy, Debug, PartialEq, Eq, Structural)]
pub struct HitResult {
    pub distance: Rat,
    pub position: RatVec3,
}

} // verus!
