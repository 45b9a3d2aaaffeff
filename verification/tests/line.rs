use gtfs_sim::line::{IncompleteLine, LineAssembler, Route, RouteRecord};
use gtfs_sim::registry::Registry;
use gtfs_sim::sim::{Color, Kind};

fn colors() -> Registry<Color> {
    let mut colors = Registry::new();
    colors.insert("Blue Line".to_string(), Color::new(0, 0, 255));
    colors
}

fn blue() -> IncompleteLine {
    IncompleteLine::new(
        "pubtransport".to_string(),
        "Blue Line".to_string(),
        Kind::SuburbanRailway,
    )
}

fn blue_replacement() -> IncompleteLine {
    IncompleteLine::new("pubtransport".to_string(), "Blue Line".to_string(), Kind::Bus)
}

#[test]
fn test_add_color_to_applicable() {
    let mut line = blue();
    line.add_color_when_applicable(&colors());
    assert_eq!(line.color, Some(Color::new(0, 0, 255)));
}

#[test]
fn test_add_color_to_unapplicable() {
    let mut line = blue_replacement();
    line.add_color_when_applicable(&colors());
    assert_eq!(line.color, None);
}

#[test]
fn test_add_color_keeps_previous_when_unlisted() {
    // A rail line whose name the table lacks keeps the color it already
    // carries.
    let mut line = IncompleteLine {
        agency_id: "pubtransport".to_string(),
        name: "Green Line".to_string(),
        color: Some(Color::new(0, 255, 0)),
        kind: Kind::SuburbanRailway,
    };
    line.add_color_when_applicable(&colors());
    assert_eq!(line.color, Some(Color::new(0, 255, 0)));
}

#[test]
fn test_add_color_unlisted_name() {
    let mut line = IncompleteLine::new(
        "pubtransport".to_string(),
        "Green Line".to_string(),
        Kind::SuburbanRailway,
    );
    line.add_color_when_applicable(&colors());
    assert_eq!(line.color, None);
}

#[test]
fn test_finish_with_explicit_color() {
    let mut line = blue();
    line.add_color_when_applicable(&colors());
    let mut lines = Registry::new();
    line.finish(Vec::new(), &mut lines);
    let entry = lines.get(&"pubtransport".to_string()).unwrap();
    assert_eq!(entry.len(), 1);
    assert_eq!(entry[0].name, "Blue Line");
    assert_eq!(entry[0].color, Color::new(0, 0, 255));
    assert_eq!(entry[0].kind, Kind::SuburbanRailway);
}

#[test]
fn test_finish_with_default_color() {
    let line = blue_replacement();
    let mut lines = Registry::new();
    line.finish(Vec::new(), &mut lines);
    let entry = lines.get(&"pubtransport".to_string()).unwrap();
    assert_eq!(entry.len(), 1);
    assert_eq!(entry[0].color, Kind::Bus.color());
}

fn u4_route(route_id: &str) -> RouteRecord {
    RouteRecord {
        route_id: route_id.to_string(),
        agency_id: "pubtransport".to_string(),
        name: "U4".to_string(),
        kind: Kind::UrbanRailway,
    }
}

#[test]
fn test_route_variants_merge_into_one_line() {
    let mut assembler = LineAssembler::new();
    assembler.import_route(u4_route("u4"));
    assembler.import_route(u4_route("u4_duplicate"));
    assert_eq!(assembler.mapping().get(&"u4".to_string()), Some(&0));
    assert_eq!(assembler.mapping().get(&"u4_duplicate".to_string()), Some(&0));
    let lines = assembler.into_lines();
    assert_eq!(lines.len(), 1);
    assert_eq!(lines[0].name, "U4");
    assert_eq!(lines[0].kind, Kind::UrbanRailway);
    assert_eq!(lines[0].color, None);
}

#[test]
fn test_route_merge_key_is_agency_name_kind() {
    // The same name under another kind, or another agency, opens a line of
    // its own.
    let mut assembler = LineAssembler::new();
    assembler.import_route(u4_route("u4"));
    let mut replacement = u4_route("u4_replacement");
    replacement.kind = Kind::Bus;
    assembler.import_route(replacement);
    let mut other_agency = u4_route("u4_other");
    other_agency.agency_id = "othertransport".to_string();
    assembler.import_route(other_agency);
    assert_eq!(assembler.mapping().get(&"u4".to_string()), Some(&0));
    assert_eq!(assembler.mapping().get(&"u4_replacement".to_string()), Some(&1));
    assert_eq!(assembler.mapping().get(&"u4_other".to_string()), Some(&2));
    assert_eq!(assembler.into_lines().len(), 3);
}

#[test]
fn test_finish_appends_per_agency() {
    let mut lines = Registry::new();
    blue().finish(Vec::new(), &mut lines);
    blue_replacement().finish(
        vec![Route { shape: 0, stops: vec![1, 2, 3] }],
        &mut lines,
    );
    let entry = lines.get(&"pubtransport".to_string()).unwrap();
    assert_eq!(entry.len(), 2);
    assert_eq!(entry[1].routes.len(), 1);
    assert_eq!(entry[1].routes[0].stops, vec![1, 2, 3]);
}
