use gtfs_sim::coord::Point;
use gtfs_sim::serialization::{Line, LineGroup, Train};
use gtfs_sim::sim;
use gtfs_sim::sim::{Color, Direction, Kind};

fn s3_line() -> Line {
    let nodes = vec![
        sim::Node::new(
            Point::new(52522, 13402),
            Some(sim::Station::new(
                "hackescher_markt".to_string(),
                Point::new(52522, 13402),
            )),
        ),
        sim::Node::new(Point::new(52521, 13395), None),
        sim::Node::new(
            Point::new(52520, 13387),
            Some(sim::Station::new(
                "bellevue".to_string(),
                Point::new(52520, 13387),
            )),
        ),
    ];
    let trains = vec![
        Train {
            direction: Direction::Upstream,
            arrivals: vec![0, 90, 210],
            departures: vec![30, 120, 240],
        },
        Train {
            direction: Direction::Downstream,
            arrivals: vec![0, 120, 210],
            departures: vec![30, 150, 240],
        },
    ];
    Line::new("S3".to_string(), Kind::SuburbanRailway, nodes, trains)
}

#[test]
fn test_unfreeze() {
    let color = Color::new(0, 114, 56);
    let group = LineGroup::new(color, vec![s3_line()]);
    let live = group.unfreeze();
    assert_eq!(live.color, color);
    assert_eq!(live.lines.len(), 1);

    let line = &live.lines[0];
    assert_eq!(line.name, "S3");
    assert_eq!(line.color, color);
    assert_eq!(line.kind, Kind::SuburbanRailway);
    assert_eq!(line.nodes, s3_line().nodes);
    assert_eq!(line.trains.len(), 2);
    assert_eq!(line.trains[0].kind, Kind::SuburbanRailway);
    assert_eq!(line.trains[0].direction, Direction::Upstream);
    assert_eq!(line.trains[0].arrivals, vec![0, 90, 210]);
    assert_eq!(line.trains[0].departures, vec![30, 120, 240]);
    assert_eq!(line.trains[1].direction, Direction::Downstream);
}

#[test]
fn test_unfreeze_twice_yields_identical_graphs() {
    let group = LineGroup::new(Color::new(0, 114, 56), vec![s3_line()]);
    assert_eq!(group.unfreeze(), group.unfreeze());
}
