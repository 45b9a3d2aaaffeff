use vstd::prelude::*;

use crate::sim;
use crate::sim::{copy_offsets, Color, Direction, Kind};

verus! {

/// The live train `t` is the unfrozen form of the durable train `d` on a
/// line of the given kind.
pub open spec fn train_unfrozen(t: sim::Train, d: Train, kind: Kind) -> bool {
    &&& t.kind == kind
    &&& t.direction == d.direction
    &&& t.arrivals@ == d.arrivals@
    &&& t.departures@ == d.departures@
}

/// The live line `l` is the unfrozen form of the durable line `d`, colored
/// with its group's color.
pub open spec fn line_unfrozen(l: sim::Line, d: Line, color: Color) -> bool {
    &&& l.name == d.name
    &&& l.color == color
    &&& l.kind == d.kind
    &&& l.nodes@ == d.nodes@
    &&& l.trains@.len() == d.trains@.len()
    &&& forall|i: int| 0 <= i < d.trains@.len()
        ==> train_unfrozen(#[trigger] l.trains@[i], d.trains@[i], d.kind)
}

/// A durable train of the serializable graph, carrying its stop-time
/// offsets inline, in seconds since service-day start.
#[derive(Debug, PartialEq)]
pub struct Train {
    pub direction: Direction,
    pub arrivals: Vec<i64>,
    pub departures: Vec<i64>,
}

impl Train {
    fn unfreeze(&self, kind: Kind) -> (r: sim::Train)
        ensures
            train_unfrozen(r, *self, kind),
    {
        sim::Train {
            kind,
            direction: self.direction,
            arrivals: copy_offsets(&self.arrivals),
            departures: copy_offsets(&self.departures),
        }
    }
}

/// A durable line of the serializable graph. Its color lives on the group
/// it belongs to.
#[derive(Debug, PartialEq)]
pub struct Line {
    pub name: String,
    pub kind: Kind,
    pub nodes: Vec<sim::Node>,
    pub trains: Vec<Train>,
}

impl Line {
    pub fn new(name: String, kind: Kind, nodes: Vec<sim::Node>, trains: Vec<Train>) -> (r: Line)
        ensures
            r == (Line { name, kind, nodes, trains }),
    {
        Line { name, kind, nodes, trains }
    }

    fn unfreeze(&self, color: Color) -> (r: sim::Line)
        ensures
            line_unfrozen(r, *self, color),
    {
        let mut nodes: Vec<sim::Node> = Vec::new();
        let mut i: usize = 0;
        while i < self.nodes.len()
            invariant
                i <= self.nodes@.len(),
                nodes@ == self.nodes@.take(i as int),
            decreases self.nodes@.len() - i,
        {
            nodes.push(self.nodes[i].duplicate());
            i += 1;
            proof {
                assert(nodes@ =~= self.nodes@.take(i as int));
            }
        }
        proof {
            assert(nodes@ =~= self.nodes@);
        }
        let mut trains: Vec<sim::Train> = Vec::new();
        let mut j: usize = 0;
        while j < self.trains.len()
            invariant
                j <= self.trains@.len(),
                trains@.len() == j,
                forall|k: int| 0 <= k < j
                    ==> train_unfrozen(#[trigger] trains@[k], self.trains@[k], self.kind),
            decreases self.trains@.len() - j,
        {
            trains.push(self.trains[j].unfreeze(self.kind));
            j += 1;
        }
        sim::Line {
            name: self.name.clone(),
            color,
            kind: self.kind,
            nodes,
            trains,
        }
    }
}

/// A durable group of lines sharing one color.
#[derive(Debug, PartialEq)]
pub struct LineGroup {
    pub color: Color,
    pub lines: Vec<Line>,
}

impl LineGroup {
    pub fn new(color: Color, lines: Vec<Line>) -> (r: LineGroup)
        ensures
            r == (LineGroup { color, lines }),
    {
        LineGroup { color, lines }
    }

    /// Converts the durable group into its live form, unfreezing each line
    /// under the group's color. The transform is total: a durable group
    /// needs no cross-references resolved beyond its own contents.
    pub fn unfreeze(&self) -> (r: sim::LineGroup)
        ensures
            r.color == self.color,
            r.lines@.len() == self.lines@.len(),
            forall|i: int| 0 <= i < self.lines@.len()
                ==> line_unfrozen(#[trigger] r.lines@[i], self.lines@[i], self.color),
    {
        let mut lines: Vec<sim::Line> = Vec::new();
        let mut i: usize = 0;
        while i < self.lines.len()
            invariant
                i <= self.lines@.len(),
                lines@.len() == i,
                forall|k: int| 0 <= k < i
                    ==> line_unfrozen(#[trigger] lines@[k], self.lines@[k], self.color),
            decreases self.lines@.len() - i,
        {
            lines.push(self.lines[i].unfreeze(self.color));
            i += 1;
        }
        sim::LineGroup { color: self.color, lines }
    }
}

} // verus!
