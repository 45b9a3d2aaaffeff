use vstd::prelude::*;

use crate::registry::Registry;
use crate::sim::{kind_default_color, Color, Kind};

verus! {

/// One route variant of a line: the shape it follows and the locations it
/// visits, both as stable registry indices.
#[derive(Debug, PartialEq)]
pub struct Route {
    pub shape: usize,
    pub stops: Vec<usize>,
}

/// A logical line of the import-side graph: one or more route variants
/// grouped under a name, with the color resolved.
#[derive(Debug, PartialEq)]
pub struct Line {
    pub name: String,
    pub color: Color,
    pub kind: Kind,
    pub routes: Vec<Route>,
}

impl Line {
    pub fn new(name: String, color: Color, kind: Kind, routes: Vec<Route>) -> (r: Line)
        ensures
            r == (Line { name, color, kind, routes }),
    {
        Line { name, color, kind, routes }
    }
}

/// The rail-like kinds, whose lines carry canonical brand colors in the feed.
pub open spec fn is_rail_kind(kind: Kind) -> bool {
    kind == Kind::Railway || kind == Kind::SuburbanRailway || kind == Kind::UrbanRailway
}

/// The color a line accumulator resolves to: the explicit color where one
/// was assigned, else the kind-derived default.
pub open spec fn resolved_color(color: Option<Color>, kind: Kind) -> Color {
    match color {
        Some(c) => c,
        None => kind_default_color(kind),
    }
}

/// Accumulator for one external route/line name, merging route variants that
/// share the `(agency, name, kind)` key before they are finalized.
#[derive(Debug, PartialEq)]
pub struct IncompleteLine {
    pub agency_id: String,
    pub name: String,
    pub color: Option<Color>,
    pub kind: Kind,
}

impl IncompleteLine {
    pub fn new(agency_id: String, name: String, kind: Kind) -> (r: IncompleteLine)
        ensures
            r == (IncompleteLine { agency_id, name, color: None, kind }),
    {
        IncompleteLine { agency_id, name, color: None, kind }
    }

    /// For a rail-like kind, adopts the color the name→color table gives
    /// for this line's name, where the table has one; where it has none,
    /// and for every other kind, the line is left unchanged.
    pub fn add_color_when_applicable(&mut self, colors: &Registry<Color>)
        requires
            colors.wf(),
        ensures
            final(self).agency_id == old(self).agency_id,
            final(self).name == old(self).name,
            final(self).kind == old(self).kind,
            is_rail_kind(old(self).kind) && colors@.dom().contains(old(self).name@)
                ==> final(self).color == Some(colors@[old(self).name@]),
            is_rail_kind(old(self).kind) && !colors@.dom().contains(old(self).name@)
                ==> final(self).color == old(self).color,
            !is_rail_kind(old(self).kind) ==> final(self).color == old(self).color,
    {
        match self.kind {
            Kind::Railway | Kind::SuburbanRailway | Kind::UrbanRailway => {
                match colors.get(&self.name) {
                    Some(c) => {
                        self.color = Some(*c);
                    },
                    None => {},
                }
            },
            _ => {},
        }
    }

    /// The two accumulators stand for the same logical line: merging
    /// identity is the `(agency, name, kind)` triple, never a structural or
    /// geometric comparison.
    pub open spec fn same_key(self, other: IncompleteLine) -> bool {
        &&& self.agency_id@ == other.agency_id@
        &&& self.name@ == other.name@
        &&& self.kind == other.kind
    }

    /// Produces the finalized line, with the explicit color if one was set
    /// and the kind-derived default otherwise, and appends it to the
    /// per-agency registry of lines.
    pub fn finish(self, routes: Vec<Route>, lines: &mut Registry<Vec<Line>>)
        requires
            old(lines).wf(),
        ensures
            final(lines).wf(),
            ({
                let line = (Line {
                    name: self.name,
                    color: resolved_color(self.color, self.kind),
                    kind: self.kind,
                    routes,
                });
                let entry = final(lines)@[self.agency_id@];
                &&& final(lines)@ == old(lines)@.insert(self.agency_id@, entry)
                &&& entry@ == (
                    if old(lines)@.dom().contains(self.agency_id@) {
                        old(lines)@[self.agency_id@]@
                    } else {
                        Seq::<Line>::empty()
                    }
                ).push(line)
            }),
    {
        let color = match self.color {
            Some(c) => c,
            None => self.kind.color(),
        };
        let line = Line::new(self.name, color, self.kind, routes);
        let ghost prev = *lines;
        match lines.get_index(&self.agency_id) {
            Some(i) => {
                let mut entry = lines.replace_value(i, Vec::new());
                entry.push(line);
                lines.replace_value(i, entry);
                proof {
                    assert(lines@ =~= prev@.insert(self.agency_id@, lines@[self.agency_id@]));
                }
            },
            None => {
                let mut entry = Vec::new();
                entry.push(line);
                lines.insert(self.agency_id, entry);
                proof {
                    assert(lines@ =~= prev@.insert(self.agency_id@, lines@[self.agency_id@]));
                }
            },
        }
    }
}

/// A raw route/line record: the external route id together with the
/// agency, name and kind that identify its logical line.
#[derive(Debug, PartialEq)]
pub struct RouteRecord {
    pub route_id: String,
    pub agency_id: String,
    pub name: String,
    pub kind: Kind,
}

impl RouteRecord {
    /// The fresh accumulator this record would open.
    pub open spec fn spec_line(self) -> IncompleteLine {
        IncompleteLine { agency_id: self.agency_id, name: self.name, color: None, kind: self.kind }
    }
}

/// Groups raw route records into logical lines: route variants sharing one
/// `(agency, name, kind)` triple merge into a single accumulator, while
/// every external route id is mapped to the internal index of its line —
/// several external routes may collapse onto one internal line.
pub struct LineAssembler {
    lines: Vec<IncompleteLine>,
    id_mapping: Registry<usize>,
}

impl LineAssembler {
    /// The accumulated logical lines; a line's position is its internal
    /// index.
    pub closed spec fn spec_lines(self) -> Seq<IncompleteLine> {
        self.lines@
    }

    /// The external route id → internal line index mapping.
    pub closed spec fn spec_mapping(self) -> Map<Seq<char>, usize> {
        self.id_mapping@
    }

    /// Every mapped index points at a line, and no two lines share the
    /// merge key.
    pub closed spec fn wf(self) -> bool {
        &&& self.id_mapping.wf()
        &&& forall|k: Seq<char>| #[trigger] self.id_mapping@.dom().contains(k)
            ==> self.id_mapping@[k] < self.lines@.len()
        &&& forall|i: int, j: int|
            0 <= i < self.lines@.len() && 0 <= j < self.lines@.len() && i != j
                ==> !(#[trigger] self.lines@[i].same_key(self.lines@[j]))
    }

    /// Some accumulated line shares `line`'s merge key.
    pub closed spec fn spec_has_line(self, line: IncompleteLine) -> bool {
        exists|i: int| 0 <= i < self.lines@.len() && (#[trigger] self.lines@[i]).same_key(line)
    }

    /// The index of the line sharing `line`'s merge key (meaningful only
    /// when there is one).
    pub closed spec fn spec_index_of(self, line: IncompleteLine) -> int {
        choose|i: int| 0 <= i < self.lines@.len() && (#[trigger] self.lines@[i]).same_key(line)
    }

    proof fn lemma_index_of(self, line: IncompleteLine, i: int)
        requires
            self.wf(),
            0 <= i < self.lines@.len(),
            self.lines@[i].same_key(line),
        ensures
            self.spec_has_line(line),
            self.spec_index_of(line) == i,
    {
        assert(self.spec_has_line(line));
        let j = choose|j: int| 0 <= j < self.lines@.len() && (#[trigger] self.lines@[j]).same_key(
            line,
        );
        if j != i {
            assert(self.lines@[i].same_key(self.lines@[j]));
            assert(false);
        }
    }

    pub fn new() -> (r: LineAssembler)
        ensures
            r.wf(),
            r.spec_lines() == Seq::<IncompleteLine>::empty(),
            r.spec_mapping() == Map::<Seq<char>, usize>::empty(),
    {
        LineAssembler { lines: Vec::new(), id_mapping: Registry::new() }
    }

    /// The route id → line index mapping built so far, for resolving trip
    /// records against.
    pub fn mapping(&self) -> (r: &Registry<usize>)
        requires
            self.wf(),
        ensures
            r.wf(),
            r@ == self.spec_mapping(),
    {
        &self.id_mapping
    }

    /// The accumulated logical lines, consuming the assembler; the mapping
    /// refers to a line by its position here.
    pub fn into_lines(self) -> (r: Vec<IncompleteLine>)
        ensures
            r@ == self.spec_lines(),
    {
        self.lines
    }

    fn find_line(&self, record: &RouteRecord) -> (r: Option<usize>)
        requires
            self.wf(),
        ensures
            match r {
                Some(i) => {
                    &&& i < self.spec_lines().len()
                    &&& self.spec_has_line(record.spec_line())
                    &&& i as int == self.spec_index_of(record.spec_line())
                },
                None => !self.spec_has_line(record.spec_line()),
            },
    {
        let mut i: usize = 0;
        while i < self.lines.len()
            invariant
                self.wf(),
                i <= self.lines@.len(),
                forall|j: int| 0 <= j < i
                    ==> !(#[trigger] self.lines@[j]).same_key(record.spec_line()),
            decreases self.lines@.len() - i,
        {
            let line = &self.lines[i];
            if line.agency_id == record.agency_id && line.name == record.name
                && line.kind == record.kind {
                proof {
                    assert(self.lines@[i as int].same_key(record.spec_line()));
                    self.lemma_index_of(record.spec_line(), i as int);
                }
                return Some(i);
            }
            i += 1;
        }
        proof {
            assert(!self.spec_has_line(record.spec_line()));
        }
        None
    }

    /// Applies one route record: merges it into the line sharing its
    /// `(agency, name, kind)` triple, opening a fresh accumulator when
    /// there is none, and maps the record's route id to that line's index.
    pub fn import_route(&mut self, record: RouteRecord)
        requires
            old(self).wf(),
        ensures
            final(self).wf(),
            old(self).spec_has_line(record.spec_line()) ==> {
                &&& final(self).spec_lines() == old(self).spec_lines()
                &&& final(self).spec_mapping() == old(self).spec_mapping().insert(
                    record.route_id@,
                    old(self).spec_index_of(record.spec_line()) as usize,
                )
            },
            !old(self).spec_has_line(record.spec_line()) ==> {
                &&& final(self).spec_lines() == old(self).spec_lines().push(record.spec_line())
                &&& final(self).spec_mapping() == old(self).spec_mapping().insert(
                    record.route_id@,
                    old(self).spec_lines().len() as usize,
                )
            },
    {
        let index = match self.find_line(&record) {
            Some(i) => i,
            None => {
                let i = self.lines.len();
                self.lines.push(IncompleteLine::new(record.agency_id, record.name, record.kind));
                proof {
                    let n = old(self).lines@.len() as int;
                    assert(self.lines@[n] == record.spec_line());
                    assert forall|a: int, b: int|
                        0 <= a < self.lines@.len() && 0 <= b < self.lines@.len() && a != b implies
                        !(self.lines@[a].same_key(self.lines@[b])) by {
                        if a < n && b < n {
                            assert(!(old(self).lines@[a].same_key(old(self).lines@[b])));
                        } else if a < n {
                            if self.lines@[a].same_key(self.lines@[b]) {
                                assert(old(self).lines@[a].same_key(record.spec_line()));
                                assert(old(self).spec_has_line(record.spec_line()));
                            }
                        } else {
                            if self.lines@[a].same_key(self.lines@[b]) {
                                assert(old(self).lines@[b].same_key(record.spec_line()));
                                assert(old(self).spec_has_line(record.spec_line()));
                            }
                        }
                    }
                }
                i
            },
        };
        let ghost mid = *self;
        self.id_mapping.insert(record.route_id, index);
        proof {
            assert forall|k: Seq<char>| #[trigger] self.id_mapping@.dom().contains(k) implies
                self.id_mapping@[k] < self.lines@.len() by {
                if k != record.route_id@ {
                    assert(mid.id_mapping@.dom().contains(k));
                }
            }
        }
    }
}

} // verus!
