use vstd::hash_map::StringHashMap;
use vstd::prelude::*;

use crate::feed::FeedMessage;
use crate::schedule::GtfsSchedule;
use crate::stop::Stop;
use crate::vehicle::{feed_vehicles, simple_vehicles, vehicles_of_feed, MixedValue, Vehicle};
use crate::versioned::Versioned;

verus! {

/// The schema version of broadcast payloads.
pub const BROADCAST_VERSION: u64 = 1;

/// A payload sent to every subscriber.
pub enum Broadcast {
    /// The compact tuple of every live vehicle.
    Vehicles(Vec<Vec<MixedValue>>),
    /// The ids of the stops that live trips serve.
    ActiveStops(Vec<String>),
}

/// The trips that live vehicles report.
pub open spec fn live_trips(vehicles: Seq<Vehicle>) -> Set<Seq<char>> {
    Set::new(|t: Seq<char>| exists|v: int| 0 <= v < vehicles.len() && #[trigger] vehicles[v].trip_id@ == t)
}

/// A stop is active when one of the trips that stop there is live.
pub open spec fn stop_is_active(stop: Stop, live: Set<Seq<char>>) -> bool {
    exists|t: int|
        0 <= t < stop.trip_ids_stop_here@.len() && live.contains(
            #[trigger] stop.trip_ids_stop_here@[t]@,
        )
}

/// The ids of the active stops among the first `k`, in order.
pub open spec fn active_upto(stops: Seq<Stop>, live: Set<Seq<char>>, k: int) -> Seq<Seq<char>>
    decreases k,
{
    if k <= 0 || k > stops.len() {
        seq![]
    } else {
        let prev = active_upto(stops, live, k - 1);
        if stop_is_active(stops[k - 1], live) {
            prev.push(stops[k - 1].id@)
        } else {
            prev
        }
    }
}

/// The set of trips that live vehicles report.
fn live_trip_set(vehicles: &Vec<Vehicle>) -> (r: StringHashMap<()>)
    ensures
        forall|t: Seq<char>| r@.contains_key(t) <==> live_trips(vehicles@).contains(t),
{
    let mut r: StringHashMap<()> = StringHashMap::new();
    let mut i: usize = 0;
    while i < vehicles.len()
        invariant
            i <= vehicles.len(),
            forall|t: Seq<char>| r@.contains_key(t) <==> live_trips(vehicles@.take(i as int)).contains(t),
        decreases vehicles.len() - i,
    {
        r.insert(vehicles[i].trip_id.clone(), ());
        proof {
            let prev = vehicles@.take(i as int);
            let next = vehicles@.take(i + 1);
            assert forall|t: Seq<char>| r@.contains_key(t) <==> live_trips(next).contains(t) by {
                if live_trips(next).contains(t) {
                    let v = choose|v: int| 0 <= v < next.len() && #[trigger] next[v].trip_id@ == t;
                    if v < i {
                        assert(prev[v] == next[v]);
                    }
                }
                if live_trips(prev).contains(t) {
                    let v = choose|v: int| 0 <= v < prev.len() && #[trigger] prev[v].trip_id@ == t;
                    assert(prev[v] == next[v]);
                }
                if t == vehicles@[i as int].trip_id@ {
                    assert(next[i as int] == vehicles@[i as int]);
                }
            }
        }
        i = i + 1;
    }
    assert(vehicles@.take(i as int) =~= vehicles@);
    r
}

/// The ids of the stops, in schedule order, at which a trip that a live
/// vehicle reports stops.
pub fn active_stops(schedule: &GtfsSchedule, vehicles: &Vec<Vehicle>) -> (r: Vec<String>)
    ensures
        r.deep_view() == active_upto(
            schedule.stops_view(),
            live_trips(vehicles@),
            schedule.stops_view().len() as int,
        ),
{
    let live = live_trip_set(vehicles);
    let ghost lt = live_trips(vehicles@);
    let stops = schedule.stops();
    let mut r: Vec<String> = Vec::new();
    let mut i: usize = 0;
    while i < stops.len()
        invariant
            i <= stops.len(),
            forall|t: Seq<char>| live@.contains_key(t) <==> lt.contains(t),
            r.deep_view() == active_upto(stops@, lt, i as int),
        decreases stops.len() - i,
    {
        let stop = &stops[i];
        let trips = &stop.trip_ids_stop_here;
        let mut found = false;
        let mut k: usize = 0;
        while k < trips.len() && !found
            invariant
                k <= trips.len(),
                trips@ == stop.trip_ids_stop_here@,
                forall|t: Seq<char>| live@.contains_key(t) <==> lt.contains(t),
                found ==> stop_is_active(*stop, lt),
                !found ==> forall|j: int| 0 <= j < k ==> !lt.contains(#[trigger] trips@[j]@),
            decreases trips.len() - k,
        {
            if live.contains_key(trips[k].as_str()) {
                assert(lt.contains(stop.trip_ids_stop_here@[k as int]@));
                found = true;
            }
            k = k + 1;
        }
        let ghost before = r.deep_view();
        if found {
            r.push(stop.id.clone());
            assert(r.deep_view() =~= before.push(stop.id@));
        }
        i = i + 1;
    }
    r
}

/// The vehicles payload for a feed, stamped with `now` (seconds since the
/// epoch).
pub fn vehicles_broadcast(feed: &FeedMessage, now: u64) -> (r: Versioned<Broadcast>)
    ensures
        r.version == BROADCAST_VERSION,
        r.timestamp == Some(now),
        r.data matches Broadcast::Vehicles(tuples) && exists|vs: Seq<Vehicle>|
            feed_vehicles(feed.entities@, vs) && tuples@.len() == vs.len() && forall|i: int|
                0 <= i < vs.len() ==> #[trigger] vs[i].is_simple(tuples@[i]@),
{
    let vehicles = vehicles_of_feed(feed);
    let tuples = simple_vehicles(&vehicles);
    Versioned::new_with_timestamp(BROADCAST_VERSION, now, Broadcast::Vehicles(tuples))
}

/// The active-stops payload for a feed, stamped with `now` (seconds since
/// the epoch): empty without a schedule.
pub fn active_stops_broadcast(schedule: Option<&GtfsSchedule>, feed: &FeedMessage, now: u64) -> (r:
    Versioned<Broadcast>)
    ensures
        r.version == BROADCAST_VERSION,
        r.timestamp == Some(now),
        r.data matches Broadcast::ActiveStops(ids) && match schedule {
            None => ids@.len() == 0,
            Some(s) => exists|vs: Seq<Vehicle>|
                feed_vehicles(feed.entities@, vs) && ids.deep_view() == active_upto(
                    s.stops_view(),
                    live_trips(vs),
                    s.stops_view().len() as int,
                ),
        },
{
    let ids = match schedule {
        None => Vec::new(),
        Some(s) => {
            let vehicles = vehicles_of_feed(feed);
            active_stops(s, &vehicles)
        },
    };
    Versioned::new_with_timestamp(BROADCAST_VERSION, now, Broadcast::ActiveStops(ids))
}

/// Every stop in the active list is one of the schedule's stops that a live
/// vehicle's trip stops at.
pub proof fn lemma_active_stop_is_served(stops: Seq<Stop>, vehicles: Seq<Vehicle>, k: int, s: Seq<char>)
    requires
        active_upto(stops, live_trips(vehicles), k).contains(s),
    ensures
        exists|j: int|
            0 <= j < stops.len() && #[trigger] stops[j].id@ == s && exists|v: int, t: int|
                0 <= v < vehicles.len() && 0 <= t < stops[j].trip_ids_stop_here@.len()
                    && #[trigger] vehicles[v].trip_id@ == #[trigger] stops[j].trip_ids_stop_here@[t]@,
    decreases k,
{
    let live = live_trips(vehicles);
    if k <= 0 || k > stops.len() {
        assert(active_upto(stops, live, k) =~= seq![]);
    } else {
        let prev = active_upto(stops, live, k - 1);
        if prev.contains(s) {
            lemma_active_stop_is_served(stops, vehicles, k - 1, s);
        } else {
            let j = k - 1;
            assert(stop_is_active(stops[j], live));
            assert(active_upto(stops, live, k) == prev.push(stops[j].id@));
            let w = choose|w: int| 0 <= w < active_upto(stops, live, k).len() && active_upto(stops, live, k)[w] == s;
            if w < prev.len() {
                assert(prev[w] == s);
            }
            assert(stops[j].id@ == s);
            let t = choose|t: int|
                0 <= t < stops[j].trip_ids_stop_here@.len() && live.contains(
                    #[trigger] stops[j].trip_ids_stop_here@[t]@,
                );
            let v = choose|v: int|
                0 <= v < vehicles.len() && #[trigger] vehicles[v].trip_id@ == stops[j].trip_ids_stop_here@[t]@;
        }
    }
}

} // verus!
