use vstd::prelude::*;

use crate::coord::Point;

verus! {

/// An RGB color.
#[derive(Clone, Copy, Debug, PartialEq, Eq, Structural)]
pub struct Color {
    pub red: u8,
    pub green: u8,
    pub blue: u8,
}

impl Color {
    pub fn new(red: u8, green: u8, blue: u8) -> (r: Color)
        ensures
            r == (Color { red, green, blue }),
    {
        Color { red, green, blue }
    }
}

/// The kind of a transit line.
#[derive(Clone, Copy, Debug, PartialEq, Eq, Structural)]
pub enum Kind {
    Railway,
    SuburbanRailway,
    UrbanRailway,
    Tram,
    Bus,
    WaterTransport,
}

/// The fallback color of each line kind, used when the feed supplies no
/// explicit brand color for a line.
pub open spec fn kind_default_color(kind: Kind) -> Color {
    match kind {
        Kind::Railway => Color { red: 227, green: 0, blue: 27 },
        Kind::SuburbanRailway => Color { red: 0, green: 114, blue: 56 },
        Kind::UrbanRailway => Color { red: 0, green: 51, blue: 153 },
        Kind::Tram => Color { red: 204, green: 0, blue: 0 },
        Kind::Bus => Color { red: 149, green: 39, blue: 110 },
        Kind::WaterTransport => Color { red: 0, green: 128, blue: 192 },
    }
}

impl Kind {
    /// The kind-derived default color.
    pub fn color(self) -> (r: Color)
        ensures
            r == kind_default_color(self),
    {
        match self {
            Kind::Railway => Color { red: 227, green: 0, blue: 27 },
            Kind::SuburbanRailway => Color { red: 0, green: 114, blue: 56 },
            Kind::UrbanRailway => Color { red: 0, green: 51, blue: 153 },
            Kind::Tram => Color { red: 204, green: 0, blue: 0 },
            Kind::Bus => Color { red: 149, green: 39, blue: 110 },
            Kind::WaterTransport => Color { red: 0, green: 128, blue: 192 },
        }
    }
}

/// The direction of a trip along its line.
#[derive(Clone, Copy, Debug, PartialEq, Eq, Structural)]
pub enum Direction {
    Upstream,
    Downstream,
}

/// A station of the live network.
#[derive(Clone, Debug, PartialEq)]
pub struct Station {
    pub name: String,
    pub position: Point,
}

impl Station {
    pub fn new(name: String, position: Point) -> (r: Station)
        ensures
            r == (Station { name, position }),
    {
        Station { name, position }
    }

    /// An independent copy holding the same station.
    pub fn duplicate(&self) -> (r: Station)
        ensures
            r == *self,
    {
        Station { name: self.name.clone(), position: self.position }
    }
}

/// A node of a live line's path: a waypoint, carrying the station it stops
/// at where it is one.
#[derive(Debug, PartialEq)]
pub struct Node {
    pub position: Point,
    pub station: Option<Station>,
}

impl Node {
    pub fn new(position: Point, station: Option<Station>) -> (r: Node)
        ensures
            r == (Node { position, station }),
    {
        Node { position, station }
    }

    /// An independent copy holding the same node.
    pub fn duplicate(&self) -> (r: Node)
        ensures
            r == *self,
    {
        let station = match &self.station {
            Some(s) => Some(s.duplicate()),
            None => None,
        };
        Node { position: self.position, station }
    }
}

/// An independent copy of a sequence of time offsets.
pub fn copy_offsets(offsets: &Vec<i64>) -> (r: Vec<i64>)
    ensures
        r@ == offsets@,
{
    let mut r: Vec<i64> = Vec::new();
    let mut i: usize = 0;
    while i < offsets.len()
        invariant
            i <= offsets@.len(),
            r@ == offsets@.take(i as int),
        decreases offsets@.len() - i,
    {
        r.push(offsets[i]);
        i += 1;
        proof {
            assert(r@ =~= offsets@.take(i as int));
        }
    }
    proof {
        assert(r@ =~= offsets@);
    }
    r
}

/// A realized vehicle run of a live line, with its concrete stop-time
/// offsets in seconds since service-day start.
#[derive(Debug, PartialEq)]
pub struct Train {
    pub kind: Kind,
    pub direction: Direction,
    pub arrivals: Vec<i64>,
    pub departures: Vec<i64>,
}

/// A line of the live network: dense-indexed, directly owned by the
/// simulation.
#[derive(Debug, PartialEq)]
pub struct Line {
    pub name: String,
    pub color: Color,
    pub kind: Kind,
    pub nodes: Vec<Node>,
    pub trains: Vec<Train>,
}

impl Line {
    pub fn new(name: String, color: Color, kind: Kind, nodes: Vec<Node>, trains: Vec<Train>)
        -> (r: Line)
        ensures
            r == (Line { name, color, kind, nodes, trains }),
    {
        Line { name, color, kind, nodes, trains }
    }
}

/// Lines that share one color, drawn together by the renderer.
#[derive(Debug, PartialEq)]
pub struct LineGroup {
    pub color: Color,
    pub lines: Vec<Line>,
}

impl LineGroup {
    pub fn new(color: Color, lines: Vec<Line>) -> (r: LineGroup)
        ensures
            r == (LineGroup { color, lines }),
    {
        LineGroup { color, lines }
    }
}

} // verus!
