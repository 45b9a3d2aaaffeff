use gtfs_sim::coord::Point;
use gtfs_sim::sim;
use gtfs_sim::sim::{Color, Direction, Kind};
use gtfs_sim::storage::{
    Line, Node, Schedule, StructuralError, StructuralTarget, Train,
};

fn station_names() -> [&'static str; 5] {
    [
        "oranienburger_tor",
        "friedrichstr",
        "universitaetsstr",
        "am_kupfergraben",
        "georgenstr_am_kupfergraben",
    ]
}

/// The tram 12 line between Oranienburger Tor and Am Kupfergraben, with the
/// station table indices shifted by `offset`.
fn tram_12(offset: usize) -> Line {
    let nodes = vec![
        Node::new(Point::new(52525, 13388), Some(offset)),
        Node::new(Point::new(52521, 13388), None),
        Node::new(Point::new(52520, 13388), Some(offset + 1)),
        Node::new(Point::new(52519, 13390), Some(offset + 2)),
        Node::new(Point::new(52519, 13392), None),
        Node::new(Point::new(52519, 13396), Some(offset + 3)),
        Node::new(Point::new(52520, 13396), Some(offset + 4)),
    ];
    let trains = vec![
        Train::new(Direction::Upstream, 0),
        Train::new(Direction::Downstream, 1),
    ];
    Line::new("12".to_string(), Kind::Tram.color(), Kind::Tram, nodes, trains)
}

fn schedules() -> Vec<Schedule> {
    vec![
        // oranienburger_tor_am_kupfergraben
        Schedule::new(vec![0, 120, 240, 360, 420], vec![20, 140, 260, 380, 440]),
        // am_kupfergraben_oranienburger_tor
        Schedule::new(vec![0, 60, 180, 300, 360], vec![20, 80, 200, 320, 380]),
    ]
}

fn stations() -> Vec<sim::Station> {
    station_names()
        .iter()
        .enumerate()
        .map(|(i, name)| sim::Station::new(name.to_string(), Point::new(i as i64, i as i64)))
        .collect()
}

#[test]
fn test_add_tram_to_station_infos() {
    // Station table indices 1 through 5 are served; 0 and 6 are not.
    let line = tram_12(1);
    let mut station_infos = vec![Vec::new(); 7];
    line.add_to_station_infos(&mut station_infos);
    for (station_id, station_info) in station_infos.into_iter().enumerate() {
        let expect_contained = (1..=5).contains(&station_id);
        assert_eq!(station_info.contains(&Kind::Tram), expect_contained);
    }
}

#[test]
fn test_add_to_station_infos_no_duplicates() {
    let line = tram_12(0);
    let mut station_infos = vec![vec![Kind::Tram], vec![Kind::Bus], Vec::new(), Vec::new(), Vec::new()];
    line.add_to_station_infos(&mut station_infos);
    assert_eq!(station_infos[0], vec![Kind::Tram]);
    assert_eq!(station_infos[1], vec![Kind::Bus, Kind::Tram]);
    assert_eq!(station_infos[2], vec![Kind::Tram]);
}

#[test]
fn test_load() {
    let stations = stations();
    let line = tram_12(0);
    let loaded = line.load(&stations, &schedules()).unwrap();

    let expected_nodes: Vec<sim::Node> = vec![
        sim::Node::new(Point::new(52525, 13388), Some(stations[0].clone())),
        sim::Node::new(Point::new(52521, 13388), None),
        sim::Node::new(Point::new(52520, 13388), Some(stations[1].clone())),
        sim::Node::new(Point::new(52519, 13390), Some(stations[2].clone())),
        sim::Node::new(Point::new(52519, 13392), None),
        sim::Node::new(Point::new(52519, 13396), Some(stations[3].clone())),
        sim::Node::new(Point::new(52520, 13396), Some(stations[4].clone())),
    ];
    let expected_trains = vec![
        sim::Train {
            kind: Kind::Tram,
            direction: Direction::Upstream,
            arrivals: vec![0, 120, 240, 360, 420],
            departures: vec![20, 140, 260, 380, 440],
        },
        sim::Train {
            kind: Kind::Tram,
            direction: Direction::Downstream,
            arrivals: vec![0, 60, 180, 300, 360],
            departures: vec![20, 80, 200, 320, 380],
        },
    ];
    let expected = sim::Line::new(
        "12".to_string(),
        Kind::Tram.color(),
        Kind::Tram,
        expected_nodes,
        expected_trains,
    );
    assert_eq!(loaded, expected);
}

#[test]
fn test_load_twice_yields_identical_graphs() {
    // Loading the same well-formed durable line by two independent calls
    // yields structurally identical live lines.
    let first = tram_12(0).load(&stations(), &schedules()).unwrap();
    let second = tram_12(0).load(&stations(), &schedules()).unwrap();
    assert_eq!(first, second);
}

#[test]
fn test_load_dangling_station() {
    // Shifting the station references by one pushes the last one past the
    // end of the five-entry station table.
    let line = tram_12(1);
    assert_eq!(
        line.load(&stations(), &schedules()),
        Err(StructuralError { target: StructuralTarget::Station, index: 5 })
    );
}

#[test]
fn test_load_dangling_schedule() {
    let line = tram_12(0);
    let schedules = vec![schedules().remove(0)];
    assert_eq!(
        line.load(&stations(), &schedules),
        Err(StructuralError { target: StructuralTarget::Schedule, index: 1 })
    );
}

#[test]
fn test_kind_color_defaults_differ() {
    assert_ne!(Kind::Tram.color(), Kind::Bus.color());
    assert_ne!(Kind::SuburbanRailway.color(), Kind::UrbanRailway.color());
    assert_eq!(Kind::Tram.color(), Color::new(204, 0, 0));
}
