use fit_track::get_coordinates;
use fit_track::record::LATITUDE_FIELD;
use fit_track::record::LONGITUDE_FIELD;
use fit_track::scan_position;
use fit_track::to_coordinate;
use fit_track::Coordinate;
use fit_track::Field;
use fit_track::FieldValue;
use fit_track::Position;
use fit_track::Record;
use fit_track::Timestamp;

fn lat(v: i32) -> Field {
    Field::new("position_lat", FieldValue::SInt32(v))
}

fn lon(v: i32) -> Field {
    Field::new("position_long", FieldValue::SInt32(v))
}

fn other(name: &str) -> Field {
    Field::new(name, FieldValue::Other)
}

fn at(secs: i64) -> Field {
    Field::new("timestamp", FieldValue::Timestamp(Timestamp::new(secs, 0).unwrap()))
}

fn point(longitude: i32, latitude: i32) -> Coordinate {
    Coordinate { longitude, latitude }
}

#[test]
fn field_names_are_those_of_the_profile() {
    assert_eq!(LATITUDE_FIELD, "position_lat");
    assert_eq!(LONGITUDE_FIELD, "position_long");
}

#[test]
fn sample_record_gives_the_pinned_pair() {
    let records = vec![Record::new(vec![lat(515_396_075), lon(-1_310_862)])];
    let track = get_coordinates(&records);
    assert_eq!(track, vec![point(-10_988, 4_320_000)]);
    let degrees: Vec<(f64, f64)> = track
        .iter()
        .map(|c| (c.longitude as f64 / 100_000.0, c.latitude as f64 / 100_000.0))
        .collect();
    assert_eq!(degrees, vec![(-0.10988, 43.2)]);
}

#[test]
fn longitude_stands_first() {
    let c = to_coordinate(Position { lat: 1 << 30, lon: -(1 << 29) });
    assert_eq!(c.longitude, -4_500_000);
    assert_eq!(c.latitude, 9_000_000);
}

#[test]
fn no_records_give_no_track() {
    let records: Vec<Record> = Vec::new();
    assert_eq!(get_coordinates(&records), Vec::new());
}

#[test]
fn record_without_fields_gives_nothing() {
    let records = vec![Record::new(Vec::new())];
    assert_eq!(get_coordinates(&records), Vec::new());
    assert_eq!(scan_position(&records[0]), None);
}

#[test]
fn latitude_alone_gives_nothing() {
    let records = vec![Record::new(vec![at(5), lat(515_396_075), other("speed")])];
    assert_eq!(get_coordinates(&records), Vec::new());
    assert_eq!(scan_position(&records[0]), None);
}

#[test]
fn longitude_alone_gives_nothing() {
    let records = vec![Record::new(vec![lon(-1_310_862)])];
    assert_eq!(get_coordinates(&records), Vec::new());
}

#[test]
fn latitude_of_another_kind_is_passed_over() {
    let wrong = Field::new("position_lat", FieldValue::Other);
    let records = vec![Record::new(vec![wrong, lon(-1_310_862)])];
    assert_eq!(get_coordinates(&records), Vec::new());
}

#[test]
fn latitude_that_is_a_time_stamp_is_passed_over() {
    let wrong = Field::new(
        "position_lat",
        FieldValue::Timestamp(Timestamp::new(515_396_075, 0).unwrap()),
    );
    let records = vec![Record::new(vec![wrong, lon(-1_310_862)])];
    assert_eq!(get_coordinates(&records), Vec::new());
}

#[test]
fn longitude_of_another_kind_is_passed_over() {
    let wrong = Field::new("position_long", FieldValue::Other);
    let records = vec![Record::new(vec![lat(1), wrong])];
    assert_eq!(get_coordinates(&records), Vec::new());
}

#[test]
fn field_of_another_kind_does_not_hide_a_later_one() {
    let wrong = Field::new("position_lat", FieldValue::Other);
    let record = Record::new(vec![wrong, lat(1 << 23), lon(-(1 << 23))]);
    assert_eq!(scan_position(&record), Some(Position { lat: 1 << 23, lon: -(1 << 23) }));
    assert_eq!(get_coordinates(&[record]), vec![point(-70_313, 70_313)]);
}

#[test]
fn integer_under_another_name_is_passed_over() {
    let record = Record::new(vec![
        Field::new("position_latitude", FieldValue::SInt32(1)),
        Field::new("Position_lat", FieldValue::SInt32(2)),
        Field::new("position_lon", FieldValue::SInt32(3)),
        Field::new("", FieldValue::SInt32(4)),
        Field::new("altitude", FieldValue::SInt32(5)),
    ]);
    assert_eq!(scan_position(&record), None);
}

#[test]
fn order_of_the_two_fields_does_not_matter() {
    let a = Record::new(vec![lat(515_396_075), other("speed"), lon(-1_310_862)]);
    let b = Record::new(vec![lon(-1_310_862), at(9), lat(515_396_075)]);
    assert_eq!(scan_position(&a), Some(Position { lat: 515_396_075, lon: -1_310_862 }));
    assert_eq!(scan_position(&a), scan_position(&b));
}

#[test]
fn later_field_replaces_an_earlier_one_until_both_are_seen() {
    let record = Record::new(vec![lat(1), lat(2), lon(3)]);
    assert_eq!(scan_position(&record), Some(Position { lat: 2, lon: 3 }));
    let record = Record::new(vec![lon(7), lon(8), lon(9), lat(1)]);
    assert_eq!(scan_position(&record), Some(Position { lat: 1, lon: 9 }));
}

#[test]
fn reading_stops_once_both_are_seen() {
    let record = Record::new(vec![lat(1), lon(3), lat(2), lon(4)]);
    assert_eq!(scan_position(&record), Some(Position { lat: 1, lon: 3 }));
}

#[test]
fn track_keeps_the_order_of_the_records() {
    let records = vec![
        Record::new(vec![lat(100_000), lon(200_000)]),
        Record::new(vec![at(1)]),
        Record::new(vec![lat(300_000), lon(400_000)]),
        Record::new(vec![lat(5)]),
        Record::new(vec![lon(600_000), lat(500_000)]),
    ];
    let track = get_coordinates(&records);
    assert_eq!(track, vec![point(1_676, 838), point(3_353, 2_515), point(5_029, 4_191)]);
}

#[test]
fn equal_records_give_equal_coordinates_each() {
    let one = Record::new(vec![lat(60), lon(-60)]);
    let records = vec![one.clone(), one.clone(), one];
    assert_eq!(get_coordinates(&records), vec![point(-1, 1); 3]);
}

#[test]
fn track_is_no_longer_than_the_records_and_within_range() {
    let records = vec![
        Record::new(vec![lat(i32::MAX), lon(i32::MIN)]),
        Record::new(vec![other("heart_rate")]),
        Record::new(vec![lat(i32::MIN), lon(i32::MAX)]),
        Record::new(vec![lat(1 << 30), lon(0)]),
        Record::new(vec![lon(1)]),
    ];
    let track = get_coordinates(&records);
    assert!(track.len() <= records.len());
    assert_eq!(
        track,
        vec![
            point(-18_000_000, 18_000_000),
            point(18_000_000, -18_000_000),
            point(0, 9_000_000),
        ]
    );
    for c in &track {
        assert!((-18_000_000..=18_000_000).contains(&c.longitude));
        assert!((-18_000_000..=18_000_000).contains(&c.latitude));
    }
}

#[test]
fn latitude_past_a_quarter_turn_is_past_90_degrees() {
    let inside = Record::new(vec![lat((1 << 30) + 59), lon(0)]);
    let outside = Record::new(vec![lat((1 << 30) + 60), lon(0)]);
    assert_eq!(get_coordinates(&[inside]), vec![point(0, 9_000_000)]);
    assert_eq!(get_coordinates(&[outside]), vec![point(0, 9_000_001)]);
}

#[test]
fn record_without_a_pair_can_be_left_out() {
    let with = vec![
        Record::new(vec![lat(100_000), lon(200_000)]),
        Record::new(vec![lat(5), at(3)]),
        Record::new(vec![lat(300_000), lon(400_000)]),
    ];
    let without = vec![with[0].clone(), with[2].clone()];
    assert_eq!(get_coordinates(&with), get_coordinates(&without));
}

#[test]
fn track_of_two_runs_is_one_track_after_the_other() {
    let first = vec![Record::new(vec![lat(100_000), lon(200_000)]), Record::new(vec![lat(1)])];
    let second = vec![Record::new(vec![lon(4), lat(3)]), Record::new(vec![lon(60), lat(-60)])];
    let mut both = first.clone();
    both.extend(second.clone());
    let mut expected = get_coordinates(&first);
    expected.extend(get_coordinates(&second));
    assert_eq!(get_coordinates(&both), expected);
    assert_eq!(expected, vec![point(1_676, 838), point(0, 0), point(1, -1)]);
}
