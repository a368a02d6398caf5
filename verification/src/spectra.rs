//! Directional wave spectra: axes and projections.

use vstd::prelude::*;

verus! {

/// The axes of a directional spectrum.
#[derive(Clone, Copy, Debug, PartialEq, Eq)]
pub enum SpectralAxis {
    Frequency,
    Direction,
}

/// Pre-computed mapping from cartesian pixel indices to spectral indices.
/// Used to accelerate repeated projections when the frequency/direction grid
/// remains constant across multiple spectra.
#[derive(Clone, Debug)]
pub struct CartesianProjectionMap {
    /// The size of the cartesian projection (size x size pixels)
    pub size: usize,
    /// Mapping from pixel index to spectral index (None for pixels outside
    /// the valid region)
    pub indices: Vec<Option<usize>>,
}

} // verus!
