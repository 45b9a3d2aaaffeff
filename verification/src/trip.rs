use vstd::prelude::*;

use crate::line::Route;
use crate::location::Location;
use crate::registry::Registry;
use crate::service::Service;
use crate::shape::Shape;
use crate::sim::Direction;

verus! {

/// The entity namespaces a record can refer to.
#[derive(Clone, Copy, Debug, PartialEq, Eq, Structural)]
pub enum EntityKind {
    Route,
    Service,
    Shape,
    Trip,
    Location,
}

/// A record referred to an identifier that has not been registered yet; the
/// import is aborted with the offending id.
#[derive(Debug, PartialEq)]
pub struct UnresolvedReference {
    pub kind: EntityKind,
    pub id: String,
}

/// One stop visit of a trip: the visited location's stable index and the
/// arrival and departure offsets, in seconds since service-day start
/// (offsets may exceed 24h to express post-midnight trips).
#[derive(Clone, Copy, Debug, PartialEq, Eq, Structural)]
pub struct StopVisit {
    pub location: usize,
    pub arrival: i64,
    pub departure: i64,
}

/// Accumulator for one trip: its resolved line index, its service's stable
/// index, its shape id and direction, and the ordered stop visits consumed
/// so far. Stop visits are appended in the order their records arrive; the
/// importer performs no reordering.
#[derive(Debug, PartialEq)]
pub struct TripBuffer {
    pub line: usize,
    pub service: usize,
    pub shape_id: String,
    pub direction: Direction,
    pub stops: Vec<StopVisit>,
}

impl TripBuffer {
    pub fn new(line: usize, service: usize, shape_id: String, direction: Direction)
        -> (r: TripBuffer)
        ensures
            r.line == line,
            r.service == service,
            r.shape_id == shape_id,
            r.direction == direction,
            r.stops@ == Seq::<StopVisit>::empty(),
    {
        TripBuffer { line, service, shape_id, direction, stops: Vec::new() }
    }

    /// Appends one stop visit; nothing else of the buffer changes.
    pub fn add_stop(&mut self, location: usize, arrival: i64, departure: i64)
        ensures
            final(self).stops@ == old(self).stops@.push(
                (StopVisit { location, arrival, departure }),
            ),
            final(self).line == old(self).line,
            final(self).service == old(self).service,
            final(self).shape_id == old(self).shape_id,
            final(self).direction == old(self).direction,
    {
        self.stops.push(StopVisit { location, arrival, departure });
    }

    /// The span between the trip's first and last arrival offsets.
    pub fn ride_span(&self) -> (r: i64)
        requires
            self.stops@.len() > 0,
            i64::MIN <= self.stops@.last().arrival - self.stops@.first().arrival <= i64::MAX,
        ensures
            r == self.stops@.last().arrival - self.stops@.first().arrival,
    {
        self.stops[self.stops.len() - 1].arrival - self.stops[0].arrival
    }

    /// Resolves the buffer into a route of its line: the stable index of
    /// its shape and the visited locations in order. Fails exactly when
    /// the buffer's shape id is not registered.
    pub fn to_route(&self, shapes: &Registry<Shape>) -> (r: Result<Route, UnresolvedReference>)
        requires
            shapes.wf(),
        ensures
            (r matches Ok(..)) == shapes@.dom().contains(self.shape_id@),
            r matches Ok(route) ==> route_resolved(route, *self, *shapes),
            r matches Err(e) ==> e.kind == EntityKind::Shape && e.id == self.shape_id,
    {
        match shapes.get_index(&self.shape_id) {
            Some(shape) => {
                let mut stops: Vec<usize> = Vec::new();
                let mut i: usize = 0;
                while i < self.stops.len()
                    invariant
                        i <= self.stops@.len(),
                        stops@.len() == i,
                        forall|j: int| 0 <= j < i
                            ==> stops@[j] == (#[trigger] self.stops@[j]).location,
                    decreases self.stops@.len() - i,
                {
                    stops.push(self.stops[i].location);
                    i += 1;
                }
                proof {
                    assert(stops@ =~= self.stops@.map_values(|v: StopVisit| v.location));
                }
                Ok(Route { shape, stops })
            },
            None => Err(UnresolvedReference {
                kind: EntityKind::Shape,
                id: self.shape_id.clone(),
            }),
        }
    }
}

/// `route` is the resolved form of `buffer`: the stable index of the
/// buffer's shape, and its visited locations in visit order.
pub open spec fn route_resolved(route: Route, buffer: TripBuffer, shapes: Registry<Shape>) -> bool {
    &&& route.shape as int == shapes.spec_index_of(buffer.shape_id@)
    &&& route.stops@ == buffer.stops@.map_values(|v: StopVisit| v.location)
}

/// A raw trip record: a trip id together with the external route, service
/// and shape ids it refers to, and its direction.
#[derive(Debug, PartialEq)]
pub struct TripRecord {
    pub trip_id: String,
    pub route_id: String,
    pub service_id: String,
    pub shape_id: String,
    pub direction_id: Direction,
}

impl TripRecord {
    /// Resolves the internal line index for the external route id (several
    /// external routes may collapse onto one internal line) and the stable
    /// index of the shared service, and opens a fresh buffer under the trip
    /// id. Fails, leaving the buffers untouched, exactly when the route id
    /// or the service id has not been registered yet.
    pub fn import(
        self,
        id_mapping: &Registry<usize>,
        services: &Registry<Service>,
        buffers: &mut Registry<TripBuffer>,
    ) -> (r: Result<(), UnresolvedReference>)
        requires
            id_mapping.wf(),
            services.wf(),
            old(buffers).wf(),
        ensures
            final(buffers).wf(),
            (r matches Ok(..)) == (id_mapping@.dom().contains(self.route_id@)
                && services@.dom().contains(self.service_id@)),
            r matches Ok(..) ==> ({
                let b = final(buffers)@[self.trip_id@];
                &&& final(buffers)@ == old(buffers)@.insert(self.trip_id@, b)
                &&& b.line == id_mapping@[self.route_id@]
                &&& b.service as int == services.spec_index_of(self.service_id@)
                &&& b.shape_id == self.shape_id
                &&& b.direction == self.direction_id
                &&& b.stops@ == Seq::<StopVisit>::empty()
            }),
            r matches Err(..) ==> *final(buffers) == *old(buffers),
            !id_mapping@.dom().contains(self.route_id@) ==> r == Err::<(), UnresolvedReference>(
                (UnresolvedReference { kind: EntityKind::Route, id: self.route_id }),
            ),
            id_mapping@.dom().contains(self.route_id@)
                && !services@.dom().contains(self.service_id@)
                ==> r == Err::<(), UnresolvedReference>(
                (UnresolvedReference { kind: EntityKind::Service, id: self.service_id }),
            ),
    {
        let line = match id_mapping.get(&self.route_id) {
            Some(l) => *l,
            None => {
                return Err(UnresolvedReference { kind: EntityKind::Route, id: self.route_id });
            },
        };
        let service = match services.get_index(&self.service_id) {
            Some(i) => i,
            None => {
                return Err(UnresolvedReference { kind: EntityKind::Service, id: self.service_id });
            },
        };
        let buffer = TripBuffer::new(line, service, self.shape_id, self.direction_id);
        buffers.insert(self.trip_id, buffer);
        Ok(())
    }
}

/// A raw stop-time record: the trip it belongs to, the visited stop and the
/// arrival and departure offsets in seconds.
#[derive(Debug, PartialEq)]
pub struct StopRecord {
    pub trip_id: String,
    pub stop_id: String,
    pub arrival_time: i64,
    pub departure_time: i64,
}

impl StopRecord {
    /// Appends a stop visit to the buffer of the given trip id. Fails,
    /// leaving the buffers untouched, exactly when the trip id or the stop
    /// id is unknown at this point: trip-defining records must be processed
    /// before that trip's stop records.
    pub fn import(
        self,
        locations: &Registry<Location>,
        buffers: &mut Registry<TripBuffer>,
    ) -> (r: Result<(), UnresolvedReference>)
        requires
            locations.wf(),
            old(buffers).wf(),
        ensures
            final(buffers).wf(),
            (r matches Ok(..)) == (old(buffers)@.dom().contains(self.trip_id@)
                && locations@.dom().contains(self.stop_id@)),
            r matches Ok(..) ==> ({
                let b0 = old(buffers)@[self.trip_id@];
                let b1 = final(buffers)@[self.trip_id@];
                &&& final(buffers)@ == old(buffers)@.insert(self.trip_id@, b1)
                &&& b1.stops@ == b0.stops@.push(
                    (StopVisit {
                        location: locations.spec_index_of(self.stop_id@) as usize,
                        arrival: self.arrival_time,
                        departure: self.departure_time,
                    }),
                )
                &&& b1.line == b0.line
                &&& b1.service == b0.service
                &&& b1.shape_id == b0.shape_id
                &&& b1.direction == b0.direction
            }),
            r matches Err(..) ==> *final(buffers) == *old(buffers),
            !old(buffers)@.dom().contains(self.trip_id@) ==> r == Err::<(), UnresolvedReference>(
                (UnresolvedReference { kind: EntityKind::Trip, id: self.trip_id }),
            ),
            old(buffers)@.dom().contains(self.trip_id@)
                && !locations@.dom().contains(self.stop_id@)
                ==> r == Err::<(), UnresolvedReference>(
                (UnresolvedReference { kind: EntityKind::Location, id: self.stop_id }),
            ),
    {
        let i = match buffers.get_index(&self.trip_id) {
            Some(i) => i,
            None => {
                return Err(UnresolvedReference { kind: EntityKind::Trip, id: self.trip_id });
            },
        };
        let location = match locations.get_index(&self.stop_id) {
            Some(l) => l,
            None => {
                return Err(UnresolvedReference { kind: EntityKind::Location, id: self.stop_id });
            },
        };
        let ghost prev = *buffers;
        // The slot holds a fresh empty buffer while the stop is appended to
        // the taken-out one.
        let mut buffer = buffers.replace_value(
            i,
            TripBuffer::new(0, 0, String::new(), Direction::Upstream),
        );
        buffer.add_stop(location, self.arrival_time, self.departure_time);
        buffers.replace_value(i, buffer);
        proof {
            assert(buffers@ =~= prev@.insert(self.trip_id@, buffers@[self.trip_id@]));
        }
        Ok(())
    }
}

/// The trip buffer at stable index `i` of the store.
pub open spec fn buffer_at(buffers: Registry<TripBuffer>, i: int) -> TripBuffer {
    buffers@[buffers.key_at(i)]
}

/// The stable indices, among the first `n` trip buffers, of the trips that
/// belong to line `line`, in import order.
pub open spec fn line_trip_positions(buffers: Registry<TripBuffer>, line: int, n: int) -> Seq<int>
    decreases n,
{
    if n <= 0 {
        Seq::empty()
    } else {
        let prefix = line_trip_positions(buffers, line, n - 1);
        if buffer_at(buffers, n - 1).line as int == line {
            prefix.push(n - 1)
        } else {
            prefix
        }
    }
}

/// The final pass over the accumulated trips: walks every buffer once and
/// resolves it into a route of its line, so that entry `L` of the result
/// holds, in import order, one route per trip whose line index is `L`.
/// Fails exactly when some trip's shape id is not registered, reporting
/// the first such shape id.
pub fn assemble_routes(buffers: &Registry<TripBuffer>, shapes: &Registry<Shape>, n_lines: usize)
    -> (r: Result<Vec<Vec<Route>>, UnresolvedReference>)
    requires
        buffers.wf(),
        shapes.wf(),
        forall|i: int| 0 <= i < buffers.len()
            ==> (#[trigger] buffer_at(*buffers, i)).line < n_lines,
    ensures
        (r matches Ok(..)) == (forall|i: int| 0 <= i < buffers.len()
            ==> shapes@.dom().contains((#[trigger] buffer_at(*buffers, i)).shape_id@)),
        r matches Ok(routes) ==> routes@.len() == n_lines && (forall|line: int|
            0 <= line < n_lines ==> {
                let positions = line_trip_positions(*buffers, line, buffers.len() as int);
                &&& (#[trigger] routes@[line])@.len() == positions.len()
                &&& forall|j: int| 0 <= j < positions.len() ==> route_resolved(
                    #[trigger] routes@[line]@[j],
                    buffer_at(*buffers, positions[j]),
                    *shapes,
                )
            }),
        r matches Err(e) ==> e.kind == EntityKind::Shape && exists|i: int|
            0 <= i < buffers.len()
                && !shapes@.dom().contains((#[trigger] buffer_at(*buffers, i)).shape_id@)
                && e.id == buffer_at(*buffers, i).shape_id
                && (forall|j: int| 0 <= j < i
                    ==> shapes@.dom().contains((#[trigger] buffer_at(*buffers, j)).shape_id@)),
{
    let mut routes: Vec<Vec<Route>> = Vec::new();
    let mut l: usize = 0;
    while l < n_lines
        invariant
            l <= n_lines,
            routes@.len() == l,
            forall|k: int| 0 <= k < l ==> (#[trigger] routes@[k])@.len() == 0,
        decreases n_lines - l,
    {
        routes.push(Vec::new());
        l += 1;
    }
    let total = buffers.size();
    let mut i: usize = 0;
    while i < total
        invariant
            buffers.wf(),
            shapes.wf(),
            forall|k: int| 0 <= k < buffers.len()
                ==> (#[trigger] buffer_at(*buffers, k)).line < n_lines,
            total == buffers.len(),
            i <= total,
            routes@.len() == n_lines,
            forall|k: int| 0 <= k < i
                ==> shapes@.dom().contains((#[trigger] buffer_at(*buffers, k)).shape_id@),
            forall|line: int| 0 <= line < n_lines ==> {
                let positions = line_trip_positions(*buffers, line, i as int);
                &&& (#[trigger] routes@[line])@.len() == positions.len()
                &&& forall|j: int| 0 <= j < positions.len() ==> route_resolved(
                    #[trigger] routes@[line]@[j],
                    buffer_at(*buffers, positions[j]),
                    *shapes,
                )
            },
        decreases total - i,
    {
        proof {
            buffers.lemma_key_at_contained(i as int);
        }
        let buffer = buffers.value(i);
        match buffer.to_route(shapes) {
            Ok(route) => {
                let line = buffer.line;
                let ghost before = routes@;
                let mut taken: Vec<Route> = Vec::new();
                core::mem::swap(&mut routes[line], &mut taken);
                taken.push(route);
                core::mem::swap(&mut routes[line], &mut taken);
                i += 1;
                proof {
                    assert forall|target: int| 0 <= target < n_lines implies {
                        let positions = line_trip_positions(*buffers, target, i as int);
                        &&& (#[trigger] routes@[target])@.len() == positions.len()
                        &&& forall|j: int| 0 <= j < positions.len() ==> route_resolved(
                            #[trigger] routes@[target]@[j],
                            buffer_at(*buffers, positions[j]),
                            *shapes,
                        )
                    } by {
                        let prefix = line_trip_positions(*buffers, target, i as int - 1);
                        if target == line as int {
                            assert(routes@[target]@ == before[target]@.push(route));
                        } else {
                            assert(routes@[target] == before[target]);
                        }
                    }
                }
            },
            Err(e) => {
                proof {
                    assert(!shapes@.dom().contains(buffer_at(*buffers, i as int).shape_id@));
                }
                return Err(e);
            },
        }
    }
    Ok(routes)
}

} // verus!
