use gtfs_sim::coord::Point;
use gtfs_sim::location::Location;
use gtfs_sim::registry::Registry;
use gtfs_sim::service::{Date, Service};
use gtfs_sim::sim::Direction;
use gtfs_sim::shape::{Shape, ShapeRecord};
use gtfs_sim::trip::{
    assemble_routes, EntityKind, StopRecord, TripBuffer, TripRecord, UnresolvedReference,
};

fn services() -> Registry<Service> {
    let mut services = Registry::new();
    services.insert(
        "mon_fri".to_string(),
        Service::new(
            Date::new(2019, 1, 1),
            Date::new(2019, 12, 31),
            [true, true, true, true, true, false, false],
        ),
    );
    services
}

fn u4_trip_record() -> TripRecord {
    TripRecord {
        trip_id: "u4_0".to_string(),
        route_id: "u4".to_string(),
        service_id: "mon_fri".to_string(),
        shape_id: "u4".to_string(),
        direction_id: Direction::Upstream,
    }
}

fn empty_u4_buffer(line: usize) -> TripBuffer {
    TripBuffer::new(line, 0, "u4".to_string(), Direction::Upstream)
}

#[test]
fn test_import_trip() {
    let record = u4_trip_record();
    let mut id_mapping = Registry::new();
    id_mapping.insert("u4".to_string(), 0);
    let mut buffers = Registry::new();
    assert_eq!(record.import(&id_mapping, &services(), &mut buffers), Ok(()));
    assert_eq!(buffers.get(&"u4_0".to_string()), Some(&empty_u4_buffer(0)));
}

#[test]
fn test_merges_lines() {
    let first = u4_trip_record();
    let mut second = u4_trip_record();
    second.trip_id = "u4_duplicate_0".to_string();
    second.route_id = "u4_duplicate".to_string();
    let mut id_mapping = Registry::new();
    id_mapping.insert("u4".to_string(), 0);
    id_mapping.insert("u4_duplicate".to_string(), 0);
    let mut buffers = Registry::new();
    assert_eq!(first.import(&id_mapping, &services(), &mut buffers), Ok(()));
    assert_eq!(second.import(&id_mapping, &services(), &mut buffers), Ok(()));
    assert_eq!(buffers.get(&"u4_0".to_string()), Some(&empty_u4_buffer(0)));
    assert_eq!(
        buffers.get(&"u4_duplicate_0".to_string()),
        Some(&empty_u4_buffer(0))
    );
}

fn locations() -> Registry<Location> {
    let names = [
        "nollendorfplatz",
        "viktoria_luise_platz",
        "bayerischer_platz",
        "rathaus_schoeneberg",
        "innsbrucker_platz",
    ];
    let mut locations = Registry::new();
    for (i, name) in names.iter().enumerate() {
        locations.insert(
            name.to_string(),
            Location::new(name.to_string(), Point::new(i as i64, i as i64)),
        );
    }
    locations
}

#[test]
fn test_import_stops() {
    let stops = [
        ("nollendorfplatz", 16560),
        ("viktoria_luise_platz", 16680),
        ("bayerischer_platz", 16770),
        ("rathaus_schoeneberg", 16860),
        ("innsbrucker_platz", 16920),
    ];
    let locations = locations();
    let mut buffers = Registry::new();
    buffers.insert("u4_0".to_string(), empty_u4_buffer(0));
    for (stop_id, time) in stops {
        let record = StopRecord {
            trip_id: "u4_0".to_string(),
            stop_id: stop_id.to_string(),
            arrival_time: time,
            departure_time: time,
        };
        assert_eq!(record.import(&locations, &mut buffers), Ok(()));
    }
    let buffer = buffers.get(&"u4_0".to_string()).unwrap();
    assert_eq!(buffer.stops.len(), 5);
    for (i, (_, time)) in stops.iter().enumerate() {
        assert_eq!(buffer.stops[i].location, i);
        assert_eq!(buffer.stops[i].arrival, *time);
        assert_eq!(buffer.stops[i].departure, *time);
    }
    // The resolved total ride span is the difference between the first and
    // the last arrival offsets: 16920 - 16560 = 360 seconds.
    assert_eq!(buffer.ride_span(), 360);
}

#[test]
fn test_import_trip_unknown_route() {
    let record = u4_trip_record();
    let id_mapping = Registry::new();
    let mut buffers = Registry::new();
    assert_eq!(
        record.import(&id_mapping, &services(), &mut buffers),
        Err(UnresolvedReference { kind: EntityKind::Route, id: "u4".to_string() })
    );
}

#[test]
fn test_import_trip_unknown_service() {
    let record = u4_trip_record();
    let mut id_mapping = Registry::new();
    id_mapping.insert("u4".to_string(), 0);
    let empty_services = Registry::new();
    let mut buffers = Registry::new();
    assert_eq!(
        record.import(&id_mapping, &empty_services, &mut buffers),
        Err(UnresolvedReference { kind: EntityKind::Service, id: "mon_fri".to_string() })
    );
}

#[test]
fn test_import_stop_unknown_trip() {
    let record = StopRecord {
        trip_id: "u4_0".to_string(),
        stop_id: "nollendorfplatz".to_string(),
        arrival_time: 16560,
        departure_time: 16560,
    };
    let mut buffers = Registry::new();
    assert_eq!(
        record.import(&locations(), &mut buffers),
        Err(UnresolvedReference { kind: EntityKind::Trip, id: "u4_0".to_string() })
    );
}

#[test]
fn test_import_stop_unknown_location() {
    let record = StopRecord {
        trip_id: "u4_0".to_string(),
        stop_id: "wittenbergplatz".to_string(),
        arrival_time: 16560,
        departure_time: 16560,
    };
    let mut buffers = Registry::new();
    buffers.insert("u4_0".to_string(), empty_u4_buffer(0));
    assert_eq!(
        record.import(&locations(), &mut buffers),
        Err(UnresolvedReference { kind: EntityKind::Location, id: "wittenbergplatz".to_string() })
    );
    assert_eq!(buffers.get(&"u4_0".to_string()).unwrap().stops.len(), 0);
}

fn shapes() -> Registry<Shape> {
    let mut shapes = Registry::new();
    for (id, x) in [("u4", 1), ("s3", 2)] {
        let record = ShapeRecord { shape_id: id.to_string(), position: Point::new(x, x) };
        record.import(&mut shapes);
    }
    shapes
}

#[test]
fn test_assemble_routes_groups_by_line() {
    let mut buffers = Registry::new();
    let mut first = empty_u4_buffer(0);
    first.add_stop(0, 16560, 16560);
    first.add_stop(1, 16680, 16680);
    buffers.insert("u4_0".to_string(), first);
    let mut second = empty_u4_buffer(0);
    second.add_stop(1, 16800, 16800);
    buffers.insert("u4_1".to_string(), second);
    let mut other = TripBuffer::new(1, 0, "s3".to_string(), Direction::Downstream);
    other.add_stop(2, 100, 120);
    buffers.insert("s3_0".to_string(), other);

    let routes = assemble_routes(&buffers, &shapes(), 2).unwrap();
    assert_eq!(routes.len(), 2);
    assert_eq!(routes[0].len(), 2);
    assert_eq!(routes[0][0].shape, 0);
    assert_eq!(routes[0][0].stops, vec![0, 1]);
    assert_eq!(routes[0][1].stops, vec![1]);
    assert_eq!(routes[1].len(), 1);
    assert_eq!(routes[1][0].shape, 1);
    assert_eq!(routes[1][0].stops, vec![2]);
}

#[test]
fn test_assemble_routes_unknown_shape() {
    let mut buffers = Registry::new();
    buffers.insert(
        "m10_0".to_string(),
        TripBuffer::new(0, 0, "m10".to_string(), Direction::Upstream),
    );
    assert_eq!(
        assemble_routes(&buffers, &shapes(), 1),
        Err(UnresolvedReference { kind: EntityKind::Shape, id: "m10".to_string() })
    );
}
