//! Spatial acceleration, deliberately absent.

use vstd::prelude::*;

verus! {

/// A placeholder for a bounding-volume hierarchy over the world's
/// surfaces. The nearest-hit search is a linear scan of the world's
/// members; no acceleration structure is built or consulted, and any
/// future one must meet the same intersection contract the spheres do.
pub struct BVHTree {}

} // verus!
