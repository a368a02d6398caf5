//! The grid point of a National Weather Service forecast office, as its
//! points endpoint names it.

use vstd::prelude::*;

verus! {

#[derive(Clone, Debug)]
pub struct NwsGridPointProperties {
    pub grid_id: String,
    pub grid_x: usize,
    pub grid_y: usize,
}

#[derive(Clone, Debug)]
pub struct NwsGridPointData {
    pub properties: NwsGridPointProperties,
}

} // verus!
