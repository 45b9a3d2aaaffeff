use vstd::prelude::*;

verus! {

/// A position in the planar simulation coordinate system.
///
/// All positions in the network graph (shape waypoints, stop locations,
/// node positions) share this one coordinate frame; the projection from
/// geographic latitude/longitude into it happens before values enter the
/// import pipeline.
#[derive(Clone, Copy, Debug, PartialEq, Eq, Structural)]
pub struct Point {
    pub x: i64,
    pub y: i64,
}

impl Point {
    pub fn new(x: i64, y: i64) -> (r: Point)
        ensures
            r == (Point { x, y }),
    {
        Point { x, y }
    }
}

} // verus!
