//! Named places whose coordinates were read from text.
//!
//! A coordinate is held as the decimal text of its magnitude, which Rust's
//! float `from_str` accepts, and whether it lies south or west: its value
//! is the magnitude's absolute value, negated in that case.

use vstd::prelude::*;

use crate::text::copy_string;

verus! {

#[derive(Clone, Debug)]
pub struct Coordinate {
    pub magnitude: String,
    pub negative: bool,
}

#[derive(Clone, Debug)]
pub struct Location {
    pub name: String,
    pub latitude: Coordinate,
    pub longitude: Coordinate,
}

impl Coordinate {
    /// The text of the magnitude, and whether the value is negated.
    pub open spec fn view_pair(self) -> (Seq<char>, bool) {
        (self.magnitude@, self.negative)
    }
}

impl Coordinate {
    /// A copy of the same coordinate.
    pub fn copy(&self) -> (c: Coordinate)
        ensures
            c.view_pair() == self.view_pair(),
    {
        Coordinate { magnitude: copy_string(&self.magnitude), negative: self.negative }
    }
}

impl Location {
    /// The place `name` at the given coordinates.
    pub fn new(latitude: Coordinate, longitude: Coordinate, name: String) -> (l: Location)
        ensures
            l.latitude == latitude,
            l.longitude == longitude,
            l.name == name,
    {
        Location { name, latitude, longitude }
    }
}

} // verus!
