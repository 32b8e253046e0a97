use zet_live::feed::{FeedCache, FeedEntity, FeedMessage, Position, TripDescriptor, VehicleDescriptor, VehiclePosition};
use zet_live::fusion::{active_stops_broadcast, vehicles_broadcast, Broadcast, BROADCAST_VERSION};
use zet_live::hub::{draw_ping_interval_ms, ping_interval_ms, Hub};
use zet_live::vehicle::{vehicles_of_feed, MixedValue, Vehicle, VehicleError};

fn position(vehicle: Option<&str>, trip: Option<(&str, &str)>, at: Option<(f32, f32)>) -> VehiclePosition {
    VehiclePosition {
        vehicle: vehicle.map(|id| VehicleDescriptor { id: id.to_string() }),
        trip: trip.map(|(t, r)| TripDescriptor { trip_id: t.to_string(), route_id: r.to_string() }),
        position: at.map(|(lat, lon)| Position { latitude: lat.to_bits(), longitude: lon.to_bits() }),
    }
}

fn feed(timestamp: u64, positions: Vec<VehiclePosition>) -> FeedMessage {
    FeedMessage {
        timestamp,
        entities: positions
            .into_iter()
            .enumerate()
            .map(|(i, p)| FeedEntity { id: i.to_string(), vehicle: Some(p) })
            .collect(),
    }
}

fn two_vehicles(timestamp: u64) -> FeedMessage {
    feed(
        timestamp,
        vec![
            position(Some("V1"), Some(("T1", "R1")), Some((45.8, 15.9))),
            position(Some("V2"), Some(("T2", "R2")), Some((45.7, 16.0))),
        ],
    )
}

#[test]
fn published_timestamps_strictly_increase() {
    let mut cache = FeedCache::new();
    assert!(cache.publish(two_vehicles(10)));
    assert!(!cache.publish(two_vehicles(10)));
    assert!(!cache.publish(two_vehicles(9)));
    assert!(cache.publish(two_vehicles(11)));
    assert_eq!(cache.latest().unwrap().timestamp, 11);
}

#[test]
fn stale_feed_is_published_once() {
    let mut cache = FeedCache::new();
    let mut hub = Hub::new();
    for _ in 0..2 {
        let f = two_vehicles(1_700_000_000);
        if cache.publish(f) {
            hub.publish_vehicles(vec![1, 2, 3]);
        }
    }
    assert_eq!(hub.next_transmission(0), Some((1, vec![1, 2, 3])));
    assert_eq!(hub.next_transmission(1), None);
}

#[test]
fn cold_start_then_one_tick() {
    let mut hub = Hub::new();
    let (vehicles, stops, seen) = hub.subscribe(1);
    assert!(vehicles.is_empty());
    assert!(stops.is_empty());
    assert_eq!(hub.next_transmission(seen), None);
    let cache = FeedCache::new();
    assert!(cache.latest().is_none());
    let b = vehicles_broadcast(&two_vehicles(5), 1_700_000_123);
    assert_eq!(b.version, BROADCAST_VERSION);
    assert_eq!(b.timestamp, Some(1_700_000_123));
    match b.data {
        Broadcast::Vehicles(list) => assert_eq!(list.len(), 2),
        Broadcast::ActiveStops(_) => panic!("wrong payload kind"),
    }
}

#[test]
fn vehicle_decoding_errors_in_order() {
    let ok = position(Some("V1"), Some(("T1", "R1")), Some((1.0, 2.0)));
    let v = Vehicle::try_from_position(&ok).unwrap();
    assert_eq!(v.id, "V1");
    assert_eq!(v.route_id, "R1");
    assert_eq!(v.trip_id, "T1");
    assert_eq!(v.latitude, 1.0f32.to_bits());
    assert_eq!(v.longitude, 2.0f32.to_bits());
    let cases = [
        (position(None, None, None), VehicleError::MissingVehicleInfo),
        (position(Some("V"), None, Some((1.0, 1.0))), VehicleError::MissingTripInfo),
        (position(Some("V"), Some(("T", "R")), None), VehicleError::MissingPositionInfo),
        (position(Some("V"), Some(("T", "")), Some((1.0, 1.0))), VehicleError::InvalidRouteId),
        (position(Some(""), Some(("T", "R")), Some((1.0, 1.0))), VehicleError::InvalidId),
        (position(Some("V"), Some(("", "R")), Some((1.0, 1.0))), VehicleError::InvalidTripId),
    ];
    for (p, e) in cases {
        assert_eq!(Vehicle::try_from_position(&p), Err(e));
    }
}

#[test]
fn feed_vehicles_drop_incomplete_entities() {
    let mut f = two_vehicles(1);
    f.entities.insert(1, FeedEntity { id: "x".to_string(), vehicle: None });
    f.entities.push(FeedEntity { id: "y".to_string(), vehicle: Some(position(Some("V3"), None, None)) });
    let vs = vehicles_of_feed(&f);
    assert_eq!(vs.len(), 2);
    assert_eq!(vs[0].id, "V1");
    assert_eq!(vs[1].id, "V2");
}

#[test]
fn compact_tuple_is_positional() {
    let v = Vehicle::try_from_position(&position(Some("V1"), Some(("T1", "R1")), Some((45.5, 15.25)))).unwrap();
    assert_eq!(
        v.to_simple(),
        vec![
            MixedValue::String("V1".to_string()),
            MixedValue::String("R1".to_string()),
            MixedValue::String("T1".to_string()),
            MixedValue::F32(45.5f32.to_bits()),
            MixedValue::F32(15.25f32.to_bits()),
        ]
    );
}

#[test]
fn active_stops_without_schedule_are_empty() {
    let b = active_stops_broadcast(None, &two_vehicles(1), 42);
    assert_eq!((b.version, b.timestamp), (BROADCAST_VERSION, Some(42)));
    match b.data {
        Broadcast::ActiveStops(ids) => assert!(ids.is_empty()),
        Broadcast::Vehicles(_) => panic!("wrong payload kind"),
    }
}

#[test]
fn subscriber_first_receives_latest_blobs() {
    let mut hub = Hub::new();
    hub.publish_vehicles(vec![1]);
    hub.publish_active_stops(vec![2]);
    hub.publish_vehicles(vec![3]);
    let (vehicles, stops, seen) = hub.subscribe(7);
    assert_eq!(vehicles, vec![3]);
    assert_eq!(stops, vec![2]);
    assert_eq!(seen, 3);
    assert_eq!(hub.next_transmission(seen), None);
}

#[test]
fn lagging_subscriber_gets_only_the_latest() {
    let mut hub = Hub::new();
    let (_, _, seen) = hub.subscribe(7);
    hub.publish_vehicles(vec![1]);
    hub.publish_active_stops(vec![2]);
    hub.publish_vehicles(vec![4]);
    assert_eq!(hub.next_transmission(seen), Some((3, vec![4])));
}

#[test]
fn connection_counts_follow_sessions() {
    let mut hub = Hub::new();
    hub.subscribe(1);
    hub.subscribe(1);
    hub.subscribe(2);
    assert_eq!(hub.connection_count(1), 2);
    assert_eq!(hub.connection_count(2), 1);
    hub.unsubscribe(1);
    assert_eq!(hub.connection_count(1), 1);
    hub.unsubscribe(2);
    assert_eq!(hub.connection_count(2), 0);
    assert_eq!(hub.connections(), vec![(1, 1)]);
    hub.unsubscribe(2);
    assert_eq!(hub.connection_count(2), 0);
    hub.unsubscribe(1);
    assert!(hub.connections().is_empty());
}

#[test]
fn ping_interval_within_bounds() {
    assert_eq!(ping_interval_ms(-5000), 25_000);
    assert_eq!(ping_interval_ms(0), 30_000);
    assert_eq!(ping_interval_ms(5000), 35_000);
    for _ in 0..200 {
        let ms = draw_ping_interval_ms();
        assert!((25_000..=35_000).contains(&ms));
    }
}
