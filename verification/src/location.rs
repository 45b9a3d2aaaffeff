use vstd::prelude::*;

use crate::coord::Point;

verus! {

/// A stop of the network: a named place with a projected position, shared by
/// reference across all trips that visit it.
#[derive(Debug, PartialEq)]
pub struct Location {
    pub name: String,
    pub position: Point,
}

impl Location {
    pub fn new(name: String, position: Point) -> (r: Location)
        ensures
            r == (Location { name, position }),
    {
        Location { name, position }
    }
}

} // verus!
