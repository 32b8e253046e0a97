use std::io::Write;

use zet_live::csv_table::CsvTable;
use zet_live::fusion::active_stops;
use zet_live::numeric::parse_u32;
use zet_live::route::{PickupType, RouteType};
use zet_live::schedule::{FileDataError, GtfsSchedule, ShapeForTripError};
use zet_live::stop::{LocationType, Stop, WheelchairBoarding};
use zet_live::stop_time::StopTime;
use zet_live::trip::{BikesAllowed, Trip};
use zet_live::vehicle::Vehicle;

fn zip_of(files: &[(&str, &str)]) -> Vec<u8> {
    let mut w = zip::ZipWriter::new(std::io::Cursor::new(Vec::new()));
    for (name, body) in files {
        w.start_file(*name, zip::write::SimpleFileOptions::default()).unwrap();
        w.write_all(body.as_bytes()).unwrap();
    }
    w.finish().unwrap().into_inner()
}

const ROUTES: &str = "route_id,agency_id,route_short_name,route_long_name,route_type,route_color\n\
R1,A,1,One,0,FF0000\n\
R2,A,2,Two,3,\n\
R9,A,9,Nine,99,\n";
const STOPS: &str = "stop_id,stop_name,stop_lat,stop_lon,location_type\n\
S1,First,45.80,15.97,0\n\
S2,Second,45.81,15.98,\n\
S3,Third,,,\n\
S4,Bad,1,1,7\n";
const TRIPS: &str = "route_id,service_id,trip_id,trip_headsign,direction_id,shape_id\n\
R1,WK,T1,North,0,SH1\n\
R1,WK,T3,North,1,\n\
R2,WK,T4,South,0,\n";
const SHAPES: &str = "shape_id,shape_pt_lat,shape_pt_lon,shape_pt_sequence\n\
SH1,45.2,15.2,2\n\
SH1,45.1,15.1,1\n\
SH1,45.3,15.3,3\n";
const STOP_TIMES: &str = "trip_id,arrival_time,departure_time,stop_id,stop_sequence\n\
T1,08:00:00,08:00:00,S2,2\n\
T1,07:55:00,07:55:00,S1,1\n\
T3,09:00:00,09:00:00,S1,1\n\
T4,10:00:00,10:00:00,S2,1\n\
T1,x,x,S1,first\n\
TX,10:00:00,10:00:00,S1,5\n";

fn fixture() -> GtfsSchedule {
    let bytes = zip_of(&[
        ("routes.txt", ROUTES),
        ("shapes.txt", SHAPES),
        ("stops.txt", STOPS),
        ("trips.txt", TRIPS),
        ("stop_times.txt", STOP_TIMES),
    ]);
    GtfsSchedule::read_from_zip_bytes(&bytes, 1_700_000_000).unwrap()
}

fn strings(v: &[&str]) -> Vec<String> {
    v.iter().map(|s| s.to_string()).collect()
}

fn stop(id: &str, lat: Option<&str>, lon: Option<&str>, trips: &[&str]) -> Stop {
    Stop {
        id: id.to_string(),
        code: None,
        name: Some(format!("Stop {id}")),
        tts_name: None,
        latitude: lat.map(str::to_string),
        longitude: lon.map(str::to_string),
        zone_id: None,
        url: None,
        location_type: None,
        parent_station: None,
        timezone: None,
        wheelchair_boarding: WheelchairBoarding::Unknown,
        level_id: None,
        platform_code: None,
        trip_ids_stop_here: strings(trips),
    }
}

fn trip(id: &str, shape: Option<&str>, stops: &[&str]) -> Trip {
    Trip {
        id: id.to_string(),
        route_id: "R".to_string(),
        service_id: "WK".to_string(),
        headsign: None,
        short_name: None,
        direction_id: None,
        block_id: None,
        shape_id: shape.map(str::to_string),
        wheelchair_boarding: WheelchairBoarding::Unknown,
        bikes_allowed: BikesAllowed::Unknown,
        stop_ids: strings(stops),
    }
}

fn vehicle_on(trip_id: &str) -> Vehicle {
    Vehicle {
        id: format!("V-{trip_id}"),
        route_id: "R".to_string(),
        trip_id: trip_id.to_string(),
        latitude: 45.8f32.to_bits(),
        longitude: 15.9f32.to_bits(),
    }
}

#[test]
fn fixture_zip_yields_expected_counts() {
    let s = fixture();
    assert_eq!(s.routes().len(), 2);
    assert_eq!(s.stops().len(), 3);
    assert_eq!(s.trips().len(), 3);
    assert_eq!(s.shapes().len(), 3);
    assert_eq!(s.created_at(), 1_700_000_000);
}

#[test]
fn fixture_zip_fields_and_defaults() {
    let s = fixture();
    let r1 = s.by_route_id("R1").unwrap();
    assert_eq!(r1.route_type, RouteType::Tram);
    assert_eq!(r1.color, "FF0000");
    assert_eq!(r1.text_color, "000000");
    assert_eq!(r1.continuous_pickup, PickupType::NotAvailable);
    let r2 = s.by_route_id("R2").unwrap();
    assert_eq!(r2.route_type, RouteType::Bus);
    assert_eq!(r2.color, "FFFFFF");
    assert!(s.by_route_id("R9").is_none());
    let s1 = s.by_stop_id("S1").unwrap();
    assert_eq!(s1.location_type, Some(LocationType::Stop));
    assert_eq!(s1.latitude.as_deref(), Some("45.80"));
    assert!(s.by_stop_id("S4").is_none());
    assert_eq!(s.by_stop_id("S3").unwrap().latitude, None);
}

#[test]
fn fixture_zip_exact_back_references() {
    let s = fixture();
    assert_eq!(s.by_trip_id("T1").unwrap().stop_ids, strings(&["S1", "S2"]));
    assert_eq!(s.by_trip_id("T3").unwrap().stop_ids, strings(&["S1"]));
    assert_eq!(s.by_trip_id("T4").unwrap().stop_ids, strings(&["S2"]));
    assert_eq!(s.by_stop_id("S1").unwrap().trip_ids_stop_here, strings(&["T1", "T3", "TX"]));
    assert_eq!(s.by_stop_id("S2").unwrap().trip_ids_stop_here, strings(&["T4", "T1"]));
    assert!(s.by_stop_id("S3").unwrap().trip_ids_stop_here.is_empty());
    for t in s.trips() {
        for st in s.stops() {
            let a = t.stop_ids.iter().filter(|x| **x == st.id).count();
            let b = st.trip_ids_stop_here.iter().filter(|x| **x == t.id).count();
            assert_eq!(a, b);
        }
    }
}

#[test]
fn missing_entry_fails_the_load() {
    let bytes = zip_of(&[("routes.txt", ROUTES), ("shapes.txt", SHAPES), ("stops.txt", STOPS)]);
    let r = GtfsSchedule::read_from_zip_bytes(&bytes, 0);
    assert_eq!(r.err(), Some(FileDataError::Zip("trips.txt".to_string())));
}

#[test]
fn garbage_archive_fails_the_load() {
    let r = GtfsSchedule::read_from_zip_bytes(&b"not a zip".to_vec(), 0);
    assert_eq!(r.err(), Some(FileDataError::Zip("routes.txt".to_string())));
}

#[test]
fn shape_points_come_in_sequence_order() {
    let s = fixture();
    let pts = s.by_shape_id("SH1");
    assert_eq!(
        pts,
        vec![
            ("15.1".to_string(), "45.1".to_string()),
            ("15.2".to_string(), "45.2".to_string()),
            ("15.3".to_string(), "45.3".to_string()),
        ]
    );
    assert_eq!(s.shape_for_trip("T1").unwrap().len(), 3);
    assert_eq!(s.shape_for_trip("T3").err(), Some(ShapeForTripError::NoShape));
    assert_eq!(s.shape_for_trip("nope").err(), Some(ShapeForTripError::TripNotFound));
}

#[test]
fn trip_info_uses_shape_when_present() {
    let s = fixture();
    let info = s.trip_info("T1").unwrap();
    assert_eq!(info.stop_ids, strings(&["S1", "S2"]));
    assert_eq!(info.route[0], ("15.1".to_string(), "45.1".to_string()));
    assert_eq!(info.route.len(), 3);
    assert!(s.trip_info("missing").is_none());
}

#[test]
fn trip_info_without_shape() {
    let stops = vec![
        stop("Sa", Some("45.1"), Some("15.1"), &[]),
        stop("Sb", Some("45.2"), Some("15.2"), &[]),
        stop("Sc", Some("45.3"), Some("15.3"), &[]),
    ];
    let trips = vec![trip("T9", None, &["Sa", "Sb", "Sc"])];
    let s = GtfsSchedule::from_entities(vec![], stops, trips, vec![], vec![], 0);
    let info = s.trip_info("T9").unwrap();
    assert_eq!(info.stop_ids, strings(&["Sa", "Sb", "Sc"]));
    assert_eq!(
        info.route,
        vec![
            ("15.1".to_string(), "45.1".to_string()),
            ("15.2".to_string(), "45.2".to_string()),
            ("15.3".to_string(), "45.3".to_string()),
        ]
    );
}

#[test]
fn trip_info_skips_stops_without_coordinates() {
    let stops = vec![stop("Sa", Some("45.1"), Some("15.1"), &[]), stop("Sb", None, Some("15.2"), &[])];
    let trips = vec![trip("T9", Some("NOPOINTS"), &["Sa", "Sb", "Sz"])];
    let s = GtfsSchedule::from_entities(vec![], stops, trips, vec![], vec![], 0);
    let info = s.trip_info("T9").unwrap();
    assert_eq!(info.route, vec![("15.1".to_string(), "45.1".to_string())]);
}

#[test]
fn active_stop_derivation() {
    let stops = vec![stop("S1", None, None, &["T1", "T3"]), stop("S2", None, None, &["T4"])];
    let s = GtfsSchedule::from_entities(vec![], stops, vec![], vec![], vec![], 0);
    let vehicles = vec![vehicle_on("T1"), vehicle_on("T4")];
    assert_eq!(active_stops(&s, &vehicles), strings(&["S1", "S2"]));
}

#[test]
fn active_stops_need_a_live_trip() {
    let s = fixture();
    assert_eq!(active_stops(&s, &vec![vehicle_on("T3")]), strings(&["S1"]));
    assert_eq!(active_stops(&s, &vec![vehicle_on("T4")]), strings(&["S2"]));
    assert!(active_stops(&s, &vec![vehicle_on("ZZ")]).is_empty());
    assert!(active_stops(&s, &vec![]).is_empty());
}

#[test]
fn stop_trips_is_a_distinct_union() {
    let s = fixture();
    let mut r = s.stop_trips(&strings(&["S1", "S2", "S1", "nope"]));
    r.sort();
    assert_eq!(r, strings(&["T1", "T3", "T4", "TX"]));
    assert!(s.stop_trips(&vec![]).is_empty());
}

#[test]
fn simple_stops_fill_defaults() {
    let s = fixture();
    let simple = s.simple_stops();
    assert_eq!(simple.len(), 3);
    assert_eq!(simple[0].id, "S1");
    assert_eq!(simple[0].name, "First");
    assert_eq!(simple[2].latitude, "0");
    assert_eq!(simple[2].longitude, "0");
}

#[test]
fn from_tables_drops_unreadable_records() {
    let t = |h: &[&str], rows: Vec<Option<Vec<&str>>>| CsvTable {
        headers: strings(h),
        records: rows.into_iter().map(|r| r.map(|r| strings(&r))).collect(),
    };
    let routes = t(&["route_id", "route_type"], vec![Some(vec!["R1", "3"]), None, Some(vec!["R2", "x"])]);
    let empty = t(&[], vec![]);
    let stop_times = t(
        &["trip_id", "stop_id", "stop_sequence"],
        vec![Some(vec!["T", "S", "+4"]), Some(vec!["T", "S2", "4294967296"])],
    );
    let s = GtfsSchedule::from_tables(&routes, &empty, &empty, &empty, &stop_times, 5);
    assert_eq!(s.routes().len(), 1);
    assert_eq!(s.routes()[0].id, "R1");
    assert_eq!(s.created_at(), 5);
}

#[test]
fn join_keeps_sequence_order_and_first_duplicate() {
    let trips = vec![trip("T", None, &[]), trip("T", None, &[])];
    let stops = vec![stop("A", None, None, &[]), stop("B", None, None, &[])];
    let st = |s: &str, seq: u32| StopTime {
        trip_id: "T".to_string(),
        arrival_time: None,
        departure_time: None,
        stop_id: s.to_string(),
        stop_sequence: seq,
        stop_headsign: None,
        pickup_type: None,
        drop_off_type: None,
        shape_dist_traveled: None,
    };
    let s = GtfsSchedule::from_entities(vec![], stops, trips, vec![], vec![st("B", 9), st("A", 3), st("B", 3)], 0);
    assert_eq!(s.trips()[0].stop_ids, strings(&["A", "B", "B"]));
    assert!(s.trips()[1].stop_ids.is_empty());
}

#[test]
fn parse_u32_edges() {
    assert_eq!(parse_u32("42"), Some(42));
    assert_eq!(parse_u32("+7"), Some(7));
    assert_eq!(parse_u32("4294967295"), Some(u32::MAX));
    assert_eq!(parse_u32("4294967296"), None);
    assert_eq!(parse_u32(""), None);
    assert_eq!(parse_u32("+"), None);
    assert_eq!(parse_u32("1a"), None);
    assert_eq!(parse_u32("-1"), None);
}

#[test]
fn urls_are_checked_and_normalized() {
    let routes = "route_id,route_type,route_url\nR1,3,http://example.com\nR2,3,not a url\nR3,3,\n";
    let bytes = zip_of(&[
        ("routes.txt", routes),
        ("shapes.txt", SHAPES),
        ("stops.txt", STOPS),
        ("trips.txt", TRIPS),
        ("stop_times.txt", STOP_TIMES),
    ]);
    let s = GtfsSchedule::read_from_zip_bytes(&bytes, 0).unwrap();
    assert_eq!(s.routes().len(), 2);
    assert_eq!(s.by_route_id("R1").unwrap().url.as_deref(), Some("http://example.com/"));
    assert!(s.by_route_id("R2").is_none());
    assert_eq!(s.by_route_id("R3").unwrap().url, None);
}

#[test]
fn stop_times_need_times_of_day() {
    let table = CsvTable {
        headers: strings(&["trip_id", "stop_id", "stop_sequence", "arrival_time"]),
        records: vec![
            Some(strings(&["T1", "S1", "1", "08:30:15"])),
            Some(strings(&["T1", "S2", "2", "25:10:00"])),
            Some(strings(&["T1", "S3", "3", ""])),
        ],
    };
    let trips = CsvTable {
        headers: strings(&["trip_id", "route_id", "service_id"]),
        records: vec![Some(strings(&["T1", "R", "WK"]))],
    };
    let empty = CsvTable { headers: vec![], records: vec![] };
    let s = GtfsSchedule::from_tables(&empty, &empty, &trips, &empty, &table, 0);
    assert_eq!(s.by_trip_id("T1").unwrap().stop_ids, strings(&["S1", "S3"]));
}
