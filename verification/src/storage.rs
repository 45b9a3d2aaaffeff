use vstd::prelude::*;

use crate::coord::Point;
use crate::sim;
use crate::sim::{copy_offsets, Color, Direction, Kind};

verus! {

/// Which table a dangling reference pointed into.
#[derive(Clone, Copy, Debug, PartialEq, Eq, Structural)]
pub enum StructuralTarget {
    Station,
    Schedule,
}

/// A durable graph referred to a station or schedule index that does not
/// exist. This is a fatal consistency-check failure: it means the import
/// stages admitted an inconsistent graph, not that the input was merely
/// malformed.
#[derive(Clone, Copy, Debug, PartialEq, Eq, Structural)]
pub struct StructuralError {
    pub target: StructuralTarget,
    pub index: usize,
}

/// A node of a durable line's path: a waypoint, carrying the index of the
/// station it stops at where it is one.
#[derive(Clone, Copy, Debug, PartialEq, Eq, Structural)]
pub struct Node {
    pub position: Point,
    pub station: Option<usize>,
}

/// The node's station reference resolves against a station table of the
/// given size.
pub open spec fn node_ok(d: Node, n_stations: int) -> bool {
    match d.station {
        Some(s) => (s as int) < n_stations,
        None => true,
    }
}

/// The live node `n` is the loaded form of the durable node `d`: same
/// position, with the station reference resolved against the table.
pub open spec fn node_loaded(n: sim::Node, d: Node, stations: Seq<sim::Station>) -> bool {
    &&& n.position == d.position
    &&& match d.station {
        Some(s) => n.station == Some(stations[s as int]),
        None => n.station == None::<sim::Station>,
    }
}

impl Node {
    pub fn new(position: Point, station: Option<usize>) -> (r: Node)
        ensures
            r == (Node { position, station }),
    {
        Node { position, station }
    }

    /// The station this node stops at, where it is one.
    pub fn station(&self) -> (r: Option<usize>)
        ensures
            r == self.station,
    {
        self.station
    }

    /// Resolves the node against the station table; fails exactly when the
    /// station reference dangles, reporting the dangling index.
    pub fn load(&self, stations: &Vec<sim::Station>) -> (r: Result<sim::Node, StructuralError>)
        ensures
            (r matches Ok(..)) == node_ok(*self, stations@.len() as int),
            r matches Ok(n) ==> node_loaded(n, *self, stations@),
            r matches Err(e) ==> self.station == Some(e.index)
                && e.index >= stations@.len()
                && e.target == StructuralTarget::Station,
    {
        match self.station {
            Some(s) => {
                if s < stations.len() {
                    Ok(sim::Node { position: self.position, station: Some(stations[s].duplicate()) })
                } else {
                    Err(StructuralError { target: StructuralTarget::Station, index: s })
                }
            },
            None => Ok(sim::Node { position: self.position, station: None }),
        }
    }
}

/// A stop-time schedule of the durable graph, shared by the trains that
/// follow it; offsets in seconds since service-day start.
#[derive(Debug, PartialEq)]
pub struct Schedule {
    pub arrivals: Vec<i64>,
    pub departures: Vec<i64>,
}

impl Schedule {
    pub fn new(arrivals: Vec<i64>, departures: Vec<i64>) -> (r: Schedule)
        ensures
            r == (Schedule { arrivals, departures }),
    {
        Schedule { arrivals, departures }
    }
}

/// A durable train: its direction and the index of its schedule in the
/// schedule table.
#[derive(Clone, Copy, Debug, PartialEq, Eq, Structural)]
pub struct Train {
    pub direction: Direction,
    pub schedule: usize,
}

/// The train's schedule reference resolves against a schedule table of the
/// given size.
pub open spec fn train_ok(d: Train, n_schedules: int) -> bool {
    (d.schedule as int) < n_schedules
}

/// The live train `t` is the loaded form of the durable train `d` on a line
/// of the given kind, with its schedule resolved against the table.
pub open spec fn train_loaded(t: sim::Train, d: Train, kind: Kind, schedules: Seq<Schedule>)
    -> bool {
    &&& t.kind == kind
    &&& t.direction == d.direction
    &&& t.arrivals@ == schedules[d.schedule as int].arrivals@
    &&& t.departures@ == schedules[d.schedule as int].departures@
}

impl Train {
    pub fn new(direction: Direction, schedule: usize) -> (r: Train)
        ensures
            r == (Train { direction, schedule }),
    {
        Train { direction, schedule }
    }

    /// Resolves the train against the schedule table; fails exactly when
    /// the schedule reference dangles, reporting the dangling index.
    pub fn load(&self, kind: Kind, schedules: &Vec<Schedule>)
        -> (r: Result<sim::Train, StructuralError>)
        ensures
            (r matches Ok(..)) == train_ok(*self, schedules@.len() as int),
            r matches Ok(t) ==> train_loaded(t, *self, kind, schedules@),
            r matches Err(e) ==> e == (StructuralError {
                target: StructuralTarget::Schedule,
                index: self.schedule,
            }) && self.schedule >= schedules@.len(),
    {
        if self.schedule < schedules.len() {
            let schedule = &schedules[self.schedule];
            Ok(sim::Train {
                kind,
                direction: self.direction,
                arrivals: copy_offsets(&schedule.arrivals),
                departures: copy_offsets(&schedule.departures),
            })
        } else {
            Err(StructuralError { target: StructuralTarget::Schedule, index: self.schedule })
        }
    }
}

/// Every node of the sequence resolves against a station table of the given
/// size.
pub open spec fn nodes_ok(nodes: Seq<Node>, n_stations: int) -> bool {
    forall|i: int| 0 <= i < nodes.len() ==> node_ok(#[trigger] nodes[i], n_stations)
}

/// Every train of the sequence resolves against a schedule table of the
/// given size.
pub open spec fn trains_ok(trains: Seq<Train>, n_schedules: int) -> bool {
    forall|i: int| 0 <= i < trains.len() ==> train_ok(#[trigger] trains[i], n_schedules)
}

/// The live line `l` is the loaded form of the durable line `d` with its
/// references resolved against the given station and schedule tables.
pub open spec fn line_loaded(
    l: sim::Line,
    d: Line,
    stations: Seq<sim::Station>,
    schedules: Seq<Schedule>,
) -> bool {
    &&& l.name == d.name
    &&& l.color == d.color
    &&& l.kind == d.kind
    &&& l.nodes@.len() == d.nodes@.len()
    &&& forall|i: int| 0 <= i < d.nodes@.len()
        ==> node_loaded(#[trigger] l.nodes@[i], d.nodes@[i], stations)
    &&& l.trains@.len() == d.trains@.len()
    &&& forall|i: int| 0 <= i < d.trains@.len()
        ==> train_loaded(#[trigger] l.trains@[i], d.trains@[i], d.kind, schedules)
}

/// A durable line of the storage graph: string/index-friendly, convertible
/// into the live representation by `load`.
#[derive(Debug, PartialEq)]
pub struct Line {
    pub name: String,
    pub color: Color,
    pub kind: Kind,
    pub nodes: Vec<Node>,
    pub trains: Vec<Train>,
}

impl Line {
    pub fn new(name: String, color: Color, kind: Kind, nodes: Vec<Node>, trains: Vec<Train>)
        -> (r: Line)
        ensures
            r == (Line { name, color, kind, nodes, trains }),
    {
        Line { name, color, kind, nodes, trains }
    }

    /// The line stops at station `s`: some node of its path is that station.
    pub open spec fn spec_serves(self, s: usize) -> bool {
        exists|i: int| 0 <= i < self.nodes@.len() && (#[trigger] self.nodes@[i]).station == Some(s)
    }

    /// Records this line's kind, exactly once, in the auxiliary index entry
    /// of every station its node sequence stops at.
    pub fn add_to_station_infos(&self, station_infos: &mut Vec<Vec<Kind>>)
        requires
            nodes_ok(self.nodes@, old(station_infos)@.len() as int),
        ensures
            final(station_infos)@.len() == old(station_infos)@.len(),
            forall|s: usize| s < old(station_infos)@.len()
                ==> (#[trigger] final(station_infos)@[s as int])@ == (
                if self.spec_serves(s) && !old(station_infos)@[s as int]@.contains(self.kind) {
                    old(station_infos)@[s as int]@.push(self.kind)
                } else {
                    old(station_infos)@[s as int]@
                }
            ),
    {
        let ghost orig = station_infos@;
        let mut i: usize = 0;
        while i < self.nodes.len()
            invariant
                nodes_ok(self.nodes@, orig.len() as int),
                i <= self.nodes@.len(),
                station_infos@.len() == orig.len(),
                forall|s: usize| s < orig.len()
                    ==> (#[trigger] station_infos@[s as int])@ == (
                    if serves_prefix(self.nodes@, i as int, s) && !orig[s as int]@.contains(
                        self.kind,
                    ) {
                        orig[s as int]@.push(self.kind)
                    } else {
                        orig[s as int]@
                    }
                ),
            decreases self.nodes@.len() - i,
        {
            match self.nodes[i].station() {
                Some(s) => {
                    proof {
                        assert(node_ok(self.nodes@[i as int], orig.len() as int));
                    }
                    let ghost before = station_infos@;
                    if !contains_kind(&station_infos[s], self.kind) {
                        let mut taken: Vec<Kind> = Vec::new();
                        core::mem::swap(&mut station_infos[s], &mut taken);
                        taken.push(self.kind);
                        core::mem::swap(&mut station_infos[s], &mut taken);
                    }
                    proof {
                        assert forall|t: usize| t < orig.len() implies
                            (#[trigger] station_infos@[t as int])@ == (
                            if serves_prefix(self.nodes@, i as int + 1, t) && !orig[t as int]@
                                .contains(self.kind) {
                                orig[t as int]@.push(self.kind)
                            } else {
                                orig[t as int]@
                            }
                        ) by {
                            if t == s {
                                assert(self.nodes@[i as int].station == Some(t));
                                assert(serves_prefix(self.nodes@, i as int + 1, t));
                                if !orig[t as int]@.contains(self.kind) {
                                    if serves_prefix(self.nodes@, i as int, t) {
                                        assert(before[t as int]@
                                            == orig[t as int]@.push(self.kind));
                                        assert(before[t as int]@.contains(self.kind)) by {
                                            assert(before[t as int]@.last() == self.kind);
                                        }
                                    } else {
                                        assert(before[t as int]@ == orig[t as int]@);
                                    }
                                }
                            } else {
                                assert(serves_prefix(self.nodes@, i as int + 1, t)
                                    == serves_prefix(self.nodes@, i as int, t)) by {
                                    if serves_prefix(self.nodes@, i as int + 1, t) {
                                        let w = choose|w: int|
                                            0 <= w < i as int + 1
                                                && (#[trigger] self.nodes@[w]).station
                                                == Some(t);
                                        assert(w < i as int);
                                        assert(serves_prefix(self.nodes@, i as int, t));
                                    }
                                }
                            }
                        }
                    }
                },
                None => {
                    proof {
                        assert forall|t: usize| t < orig.len() implies
                            serves_prefix(self.nodes@, i as int + 1, t)
                                == serves_prefix(self.nodes@, i as int, t) by {
                            if serves_prefix(self.nodes@, i as int + 1, t) {
                                let w = choose|w: int|
                                    0 <= w < i as int + 1
                                        && (#[trigger] self.nodes@[w]).station == Some(t);
                                assert(w < i as int);
                            }
                        }
                    }
                },
            }
            i += 1;
        }
        proof {
            assert(forall|s: usize| serves_prefix(self.nodes@, self.nodes@.len() as int, s)
                == self.spec_serves(s));
        }
    }

    /// Converts the durable line into its live form: resolves the node
    /// sequence's station references against the station table, then each
    /// train's schedule reference against the schedule table. Total given a
    /// well-formed durable graph; a dangling reference is reported as the
    /// structural failure it is, naming the first dangling index met.
    pub fn load(self, stations: &Vec<sim::Station>, schedules: &Vec<Schedule>)
        -> (r: Result<sim::Line, StructuralError>)
        ensures
            (r matches Ok(..)) == (nodes_ok(self.nodes@, stations@.len() as int)
                && trains_ok(self.trains@, schedules@.len() as int)),
            r matches Ok(l) ==> line_loaded(l, self, stations@, schedules@),
            r matches Err(e) ==> (e.target == StructuralTarget::Station ==> exists|i: int|
                0 <= i < self.nodes@.len()
                    && (#[trigger] self.nodes@[i]).station == Some(e.index)
                    && e.index >= stations@.len()
                    && (forall|j: int| 0 <= j < i
                        ==> node_ok(#[trigger] self.nodes@[j], stations@.len() as int))),
            r matches Err(e) ==> (e.target == StructuralTarget::Schedule ==> nodes_ok(
                self.nodes@,
                stations@.len() as int,
            ) && exists|i: int|
                0 <= i < self.trains@.len()
                    && (#[trigger] self.trains@[i]).schedule == e.index
                    && e.index >= schedules@.len()
                    && (forall|j: int| 0 <= j < i
                        ==> train_ok(#[trigger] self.trains@[j], schedules@.len() as int))),
    {
        let mut nodes: Vec<sim::Node> = Vec::new();
        let mut i: usize = 0;
        while i < self.nodes.len()
            invariant
                i <= self.nodes@.len(),
                nodes@.len() == i,
                forall|j: int| 0 <= j < i
                    ==> node_ok(#[trigger] self.nodes@[j], stations@.len() as int),
                forall|j: int| 0 <= j < i
                    ==> node_loaded(#[trigger] nodes@[j], self.nodes@[j], stations@),
            decreases self.nodes@.len() - i,
        {
            match self.nodes[i].load(stations) {
                Ok(n) => nodes.push(n),
                Err(e) => {
                    proof {
                        assert(self.nodes@[i as int].station == Some(e.index));
                        assert(e.target != StructuralTarget::Schedule);
                    }
                    return Err(e);
                },
            }
            i += 1;
        }
        let mut trains: Vec<sim::Train> = Vec::new();
        let mut j: usize = 0;
        while j < self.trains.len()
            invariant
                nodes_ok(self.nodes@, stations@.len() as int),
                nodes@.len() == self.nodes@.len(),
                forall|k: int| 0 <= k < self.nodes@.len()
                    ==> node_loaded(#[trigger] nodes@[k], self.nodes@[k], stations@),
                j <= self.trains@.len(),
                trains@.len() == j,
                forall|k: int| 0 <= k < j
                    ==> train_ok(#[trigger] self.trains@[k], schedules@.len() as int),
                forall|k: int| 0 <= k < j
                    ==> train_loaded(#[trigger] trains@[k], self.trains@[k], self.kind, schedules@),
            decreases self.trains@.len() - j,
        {
            match self.trains[j].load(self.kind, schedules) {
                Ok(t) => trains.push(t),
                Err(e) => {
                    proof {
                        assert(nodes_ok(self.nodes@, stations@.len() as int));
                        assert(self.trains@[j as int].schedule == e.index);
                        assert(e.target != StructuralTarget::Station);
                    }
                    return Err(e);
                },
            }
            j += 1;
        }
        Ok(sim::Line { name: self.name, color: self.color, kind: self.kind, nodes, trains })
    }
}

/// The line's first `n` nodes stop at station `s`.
pub open spec fn serves_prefix(nodes: Seq<Node>, n: int, s: usize) -> bool {
    exists|i: int| 0 <= i < n && (#[trigger] nodes[i]).station == Some(s)
}

fn contains_kind(kinds: &Vec<Kind>, kind: Kind) -> (r: bool)
    ensures
        r == kinds@.contains(kind),
{
    let mut i: usize = 0;
    while i < kinds.len()
        invariant
            i <= kinds@.len(),
            forall|j: int| 0 <= j < i ==> kinds@[j] != kind,
        decreases kinds@.len() - i,
    {
        if kinds[i] == kind {
            return true;
        }
        i += 1;
    }
    proof {
        assert(!kinds@.contains(kind));
    }
    false
}

/// Two live trains hold the same realized run.
pub open spec fn train_congruent(a: sim::Train, b: sim::Train) -> bool {
    &&& a.kind == b.kind
    &&& a.direction == b.direction
    &&& a.arrivals@ == b.arrivals@
    &&& a.departures@ == b.departures@
}

/// Two live lines hold the same network content, compared by deep value
/// equality down to every node, train and offset.
pub open spec fn line_congruent(a: sim::Line, b: sim::Line) -> bool {
    &&& a.name == b.name
    &&& a.color == b.color
    &&& a.kind == b.kind
    &&& a.nodes@ == b.nodes@
    &&& a.trains@.len() == b.trains@.len()
    &&& forall|i: int| 0 <= i < a.trains@.len()
        ==> train_congruent(#[trigger] a.trains@[i], b.trains@[i])
}

/// The freeze/load transform is a pure function of its input: two live
/// lines loaded, by independent calls, from the same well-formed durable
/// line and tables are structurally identical.
pub proof fn lemma_load_pure(
    d: Line,
    stations: Seq<sim::Station>,
    schedules: Seq<Schedule>,
    a: sim::Line,
    b: sim::Line,
)
    requires
        line_loaded(a, d, stations, schedules),
        line_loaded(b, d, stations, schedules),
    ensures
        line_congruent(a, b),
{
    assert forall|i: int| 0 <= i < a.nodes@.len() implies a.nodes@[i] == b.nodes@[i] by {
        assert(node_loaded(a.nodes@[i], d.nodes@[i], stations));
        assert(node_loaded(b.nodes@[i], d.nodes@[i], stations));
    }
    assert(a.nodes@ =~= b.nodes@);
}

} // verus!
