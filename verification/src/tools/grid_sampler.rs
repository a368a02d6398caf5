//! How gridded fields are sampled at a point.

use vstd::prelude::*;

verus! {

/// Interpolation used to read a gridded field at a point between grid nodes.
#[derive(Debug, Clone, Copy, PartialEq, Eq)]
pub enum SampleMethod {
    /// Linear in the value.
    Bilinear,
    /// Linear in the square of the value (wave energy), for heights.
    BilinearEnergy,
    /// Linear in the unit vector of the angle, for directions.
    BilinearAngular,
}

} // verus!
