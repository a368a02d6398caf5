//! Units attached to measured values.

use vstd::prelude::*;

verus! {

/// The unit a measured value is expressed in.
#[derive(Debug, Clone, Copy, PartialEq, Eq, Structural, PartialOrd, Ord)]
pub enum Unit {
    Meters,
    Feet,
    NauticalMiles,
    Seconds,
    Degrees,
    MetersPerSecond,
    MetersSquaredPerHertz,
    KiloWattsPerMeter,
    Celsius,
    HectaPascal,
    Percent,
    Unknown,
}

/// How the direction bins of a spectrum are measured: the meteorological
/// (cartesian) convention, the direction the waves come from, or the
/// direction they travel towards.
#[derive(Debug, Clone, Copy, PartialEq, Eq, Structural)]
pub enum DirectionConvention {
    Met,
    From,
    Towards,
}

} // verus!
