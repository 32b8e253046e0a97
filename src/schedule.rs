use vstd::hash_map::StringHashMap;
use vstd::prelude::*;
use vstd::string::*;

use crate::csv_table::{
    csv_contents, first_index_of, is_first_index, lemma_first_index_unique, read_csv, read_rows,
    rows_read, CsvTable,
};
use crate::route::Route;
use crate::shape::Shape;
use crate::stop::Stop;
use crate::stop_time::StopTime;
use crate::trip::Trip;

verus! {

/// A value identified by a textual id.
pub trait Keyed {
    spec fn key(&self) -> Seq<char>;

    fn key_ref(&self) -> (r: &String)
        ensures
            r@ == self.key(),
    ;
}

impl Keyed for Route {
    open spec fn key(&self) -> Seq<char> {
        self.id@
    }

    fn key_ref(&self) -> (r: &String) {
        &self.id
    }
}

impl Keyed for Stop {
    open spec fn key(&self) -> Seq<char> {
        self.id@
    }

    fn key_ref(&self) -> (r: &String) {
        &self.id
    }
}

impl Keyed for Trip {
    open spec fn key(&self) -> Seq<char> {
        self.id@
    }

    fn key_ref(&self) -> (r: &String) {
        &self.id
    }
}

pub open spec fn keys_of<T: Keyed>(items: Seq<T>) -> Seq<Seq<char>> {
    Seq::new(items.len(), |i: int| items[i].key())
}

/// `index` maps each key that occurs in `keys` to its first position.
pub open spec fn indexes(index: Map<Seq<char>, usize>, keys: Seq<Seq<char>>) -> bool {
    &&& forall|k: Seq<char>| #[trigger]
        index.contains_key(k) ==> is_first_index(keys, k, index[k] as int)
    &&& forall|i: int| 0 <= i < keys.len() ==> index.contains_key(#[trigger] keys[i])
}

proof fn lemma_index_finds_first(index: Map<Seq<char>, usize>, keys: Seq<Seq<char>>, k: Seq<char>)
    requires
        indexes(index, keys),
    ensures
        index.contains_key(k) ==> first_index_of(keys, k) == Some(index[k] as int),
        !index.contains_key(k) ==> first_index_of(keys, k) is None,
{
    if index.contains_key(k) {
        let c = index[k] as int;
        assert(is_first_index(keys, k, c));
        let d = choose|d: int| is_first_index(keys, k, d);
        lemma_first_index_unique(keys, k, c, d);
    } else if exists|d: int| is_first_index(keys, k, d) {
        let d = choose|d: int| is_first_index(keys, k, d);
        assert(index.contains_key(keys[d]));
    }
}

fn build_index<T: Keyed>(items: &Vec<T>) -> (r: StringHashMap<usize>)
    ensures
        indexes(r@, keys_of(items@)),
{
    let ghost keys = keys_of(items@);
    let mut index: StringHashMap<usize> = StringHashMap::new();
    let mut i: usize = 0;
    while i < items.len()
        invariant
            i <= items.len(),
            keys == keys_of(items@),
            indexes(index@, keys.take(i as int)),
        decreases items.len() - i,
    {
        let k = items[i].key_ref();
        let ghost before = index@;
        let ghost prev = keys.take(i as int);
        let ghost next = keys.take(i + 1);
        assert(keys[i as int] == k@);
        if !index.contains_key(k.as_str()) {
            index.insert(k.clone(), i);
        }
        proof {
            assert forall|key: Seq<char>| #[trigger]
                index@.contains_key(key) implies is_first_index(next, key, index@[key] as int) by {
                if before.contains_key(key) {
                    assert(is_first_index(prev, key, before[key] as int));
                } else {
                    assert forall|j: int| 0 <= j < i implies next[j] != key by {
                        assert(prev[j] == next[j]);
                        assert(before.contains_key(prev[j]));
                    }
                }
            }
            assert forall|j: int| 0 <= j < next.len() implies index@.contains_key(#[trigger] next[j]) by {
                if j < i {
                    assert(prev[j] == next[j]);
                    assert(before.contains_key(prev[j]));
                }
            }
        }
        i = i + 1;
    }
    assert(keys.take(items.len() as int) == keys);
    index
}

/// Pairs ordered by their first part, then their second.
pub open spec fn pair_le(x: (u32, usize), y: (u32, usize)) -> bool {
    x.0 < y.0 || (x.0 == y.0 && x.1 <= y.1)
}

pub open spec fn sorted_pairs(s: Seq<(u32, usize)>) -> bool {
    forall|a: int, b: int| 0 <= a < b < s.len() ==> pair_le(s[a], s[b])
}

/// Relies on std's `slice::sort` over tuples: the same items, in ascending
/// lexicographic order.
#[verifier::external_body]
fn sort_pairs(v: &mut Vec<(u32, usize)>)
    ensures
        final(v)@.to_multiset() == old(v)@.to_multiset(),
        sorted_pairs(final(v)@),
{
    v.sort();
}

/// Each row's sequence number beside its position.
pub open spec fn sequence_keys(stop_times: Seq<StopTime>) -> Seq<(u32, usize)> {
    Seq::new(stop_times.len(), |i: int| (stop_times[i].stop_sequence, i as usize))
}

/// Each point's sequence number beside its position.
pub open spec fn shape_keys(shapes: Seq<Shape>) -> Seq<(u32, usize)> {
    Seq::new(shapes.len(), |i: int| (shapes[i].sequence, i as usize))
}

/// The rows visited in `order`: by sequence, rows of equal sequence in file order.
pub open spec fn visit_order(keys: Seq<(u32, usize)>, order: Seq<(u32, usize)>) -> bool {
    order.to_multiset() == keys.to_multiset() && sorted_pairs(order)
}

/// The stop ids that the first `k` visited rows give the trip `trip_id`.
pub open spec fn trip_stops_upto(
    stop_times: Seq<StopTime>,
    order: Seq<(u32, usize)>,
    trip_id: Seq<char>,
    k: int,
) -> Seq<Seq<char>>
    decreases k,
{
    if k <= 0 || k > order.len() {
        seq![]
    } else {
        let prev = trip_stops_upto(stop_times, order, trip_id, k - 1);
        let p = order[k - 1].1 as int;
        if p < stop_times.len() && stop_times[p].trip_id@ == trip_id {
            prev.push(stop_times[p].stop_id@)
        } else {
            prev
        }
    }
}

/// The trip ids that the first `k` visited rows give the stop `stop_id`.
pub open spec fn stop_trips_upto(
    stop_times: Seq<StopTime>,
    order: Seq<(u32, usize)>,
    stop_id: Seq<char>,
    k: int,
) -> Seq<Seq<char>>
    decreases k,
{
    if k <= 0 || k > order.len() {
        seq![]
    } else {
        let prev = stop_trips_upto(stop_times, order, stop_id, k - 1);
        let p = order[k - 1].1 as int;
        if p < stop_times.len() && stop_times[p].stop_id@ == stop_id {
            prev.push(stop_times[p].trip_id@)
        } else {
            prev
        }
    }
}

/// What the first `k` visited rows add to the trip at position `i`: the
/// stops of its rows, given only to the first trip of each id.
pub open spec fn trip_stops_given(
    trips: Seq<Trip>,
    stop_times: Seq<StopTime>,
    order: Seq<(u32, usize)>,
    i: int,
    k: int,
) -> Seq<Seq<char>> {
    if first_index_of(keys_of(trips), trips[i].id@) == Some(i) {
        trip_stops_upto(stop_times, order, trips[i].id@, k)
    } else {
        seq![]
    }
}

/// What the join adds to the trip at position `i`.
pub open spec fn joined_trip_stops(
    trips: Seq<Trip>,
    stop_times: Seq<StopTime>,
    order: Seq<(u32, usize)>,
    i: int,
) -> Seq<Seq<char>> {
    trip_stops_given(trips, stop_times, order, i, order.len() as int)
}

/// What the first `k` visited rows add to the stop at position `i`: the
/// trips of its rows, given only to the first stop of each id.
pub open spec fn stop_trips_given(
    stops: Seq<Stop>,
    stop_times: Seq<StopTime>,
    order: Seq<(u32, usize)>,
    i: int,
    k: int,
) -> Seq<Seq<char>> {
    if first_index_of(keys_of(stops), stops[i].id@) == Some(i) {
        stop_trips_upto(stop_times, order, stops[i].id@, k)
    } else {
        seq![]
    }
}

/// What the join adds to the stop at position `i`.
pub open spec fn joined_stop_trips(
    stops: Seq<Stop>,
    stop_times: Seq<StopTime>,
    order: Seq<(u32, usize)>,
    i: int,
) -> Seq<Seq<char>> {
    stop_trips_given(stops, stop_times, order, i, order.len() as int)
}

/// `after` is `before` with `extra` appended to its stop list.
pub open spec fn trip_extended(before: Trip, after: Trip, extra: Seq<Seq<char>>) -> bool {
    &&& after == (Trip { stop_ids: after.stop_ids, ..before })
    &&& after.stop_ids.deep_view() == before.stop_ids.deep_view() + extra
}

/// `after` is `before` with `extra` appended to its trip list.
pub open spec fn stop_extended(before: Stop, after: Stop, extra: Seq<Seq<char>>) -> bool {
    &&& after == (Stop { trip_ids_stop_here: after.trip_ids_stop_here, ..before })
    &&& after.trip_ids_stop_here.deep_view() == before.trip_ids_stop_here.deep_view() + extra
}

/// An immutable schedule: routes, stops, trips and shape points, with each
/// trip's stops and each stop's trips joined from the stop times.
#[verifier::reject_recursive_types]
pub struct GtfsSchedule {
    routes: Vec<Route>,
    stops: Vec<Stop>,
    trips: Vec<Trip>,
    shapes: Vec<Shape>,
    shape_order: Vec<(u32, usize)>,
    created_at: u64,
    route_index: StringHashMap<usize>,
    stop_index: StringHashMap<usize>,
    trip_index: StringHashMap<usize>,
}

impl GtfsSchedule {
    #[verifier::type_invariant]
    closed spec fn wf(&self) -> bool {
        &&& indexes(self.route_index@, keys_of(self.routes@))
        &&& indexes(self.stop_index@, keys_of(self.stops@))
        &&& indexes(self.trip_index@, keys_of(self.trips@))
        &&& visit_order(shape_keys(self.shapes@), self.shape_order@)
    }

    pub closed spec fn routes_view(&self) -> Seq<Route> {
        self.routes@
    }

    pub closed spec fn stops_view(&self) -> Seq<Stop> {
        self.stops@
    }

    pub closed spec fn trips_view(&self) -> Seq<Trip> {
        self.trips@
    }

    /// The shape points in file order.
    pub closed spec fn shapes_view(&self) -> Seq<Shape> {
        self.shapes@
    }

    /// The order in which shape points are visited.
    pub closed spec fn shape_order_view(&self) -> Seq<(u32, usize)> {
        self.shape_order@
    }

    pub closed spec fn created_at_view(&self) -> u64 {
        self.created_at
    }

    /// Builds a schedule, appending to each trip the stops of its stop times
    /// and to each stop the trips of its stop times, visited by sequence.
    /// Rows naming an unknown trip or stop still extend the side that is known.
    pub fn from_entities(
        routes: Vec<Route>,
        stops: Vec<Stop>,
        trips: Vec<Trip>,
        shapes: Vec<Shape>,
        stop_times: Vec<StopTime>,
        created_at: u64,
    ) -> (r: Self)
        ensures
            r.routes_view() == routes@,
            r.shapes_view() == shapes@,
            visit_order(shape_keys(shapes@), r.shape_order_view()),
            r.created_at_view() == created_at,
            r.trips_view().len() == trips@.len(),
            r.stops_view().len() == stops@.len(),
            keys_of(r.trips_view()) == keys_of(trips@),
            keys_of(r.stops_view()) == keys_of(stops@),
            exists|order: Seq<(u32, usize)>|
                visit_order(sequence_keys(stop_times@), order) && r.joins(
                    trips@,
                    stops@,
                    stop_times@,
                    order,
                ),
    {
        let route_index = build_index(&routes);
        let stop_index = build_index(&stops);
        let trip_index = build_index(&trips);
        let mut trips = trips;
        let mut stops = stops;
        let ghost trips0 = trips@;
        let ghost stops0 = stops@;
        let mut order = sequence_pairs(&stop_times);
        sort_pairs(&mut order);
        let mut k: usize = 0;
        while k < order.len()
            invariant
                k <= order.len(),
                trips@.len() == trips0.len(),
                stops@.len() == stops0.len(),
                indexes(trip_index@, keys_of(trips0)),
                indexes(stop_index@, keys_of(stops0)),
                forall|i: int|
                    0 <= i < trips0.len() ==> #[trigger] trip_extended(
                        trips0[i],
                        trips@[i],
                        trip_stops_given(trips0, stop_times@, order@, i, k as int),
                    ),
                forall|i: int|
                    0 <= i < stops0.len() ==> #[trigger] stop_extended(
                        stops0[i],
                        stops@[i],
                        stop_trips_given(stops0, stop_times@, order@, i, k as int),
                    ),
            decreases order.len() - k,
        {
            let p = order[k].1;
            let ghost tb = trips@;
            let ghost sb = stops@;
            let ghost mut pushed_trip: Option<int> = None;
            let ghost mut pushed_stop: Option<int> = None;
            if p < stop_times.len() {
                let row = &stop_times[p];
                proof {
                    lemma_index_finds_first(trip_index@, keys_of(trips0), row.trip_id@);
                    lemma_index_finds_first(stop_index@, keys_of(stops0), row.stop_id@);
                }
                match trip_index.get(row.trip_id.as_str()) {
                    Some(t) => {
                        let t = *t;
                        trips[t].stop_ids.push(row.stop_id.clone());
                        proof {
                            pushed_trip = Some(t as int);
                            assert(trips@[t as int].stop_ids.deep_view() =~= tb[t as int].stop_ids.deep_view().push(row.stop_id@));
                        }
                    },
                    None => {},
                }
                match stop_index.get(row.stop_id.as_str()) {
                    Some(s) => {
                        let s = *s;
                        stops[s].trip_ids_stop_here.push(row.trip_id.clone());
                        proof {
                            pushed_stop = Some(s as int);
                            assert(stops@[s as int].trip_ids_stop_here.deep_view() =~= sb[s as int].trip_ids_stop_here.deep_view().push(row.trip_id@));
                        }
                    },
                    None => {},
                }
            }
            proof {
                let pi = p as int;
                assert forall|i: int| 0 <= i < trips0.len() implies #[trigger] trip_extended(
                    trips0[i],
                    trips@[i],
                    trip_stops_given(trips0, stop_times@, order@, i, k + 1),
                ) by {
                    let id = trips0[i].id@;
                    lemma_index_finds_first(trip_index@, keys_of(trips0), id);
                    assert(keys_of(trips0)[i] == id);
                    assert(trip_extended(trips0[i], tb[i], trip_stops_given(trips0, stop_times@, order@, i, k as int)));
                    if pushed_trip == Some(i) {
                        assert(trip_stops_given(trips0, stop_times@, order@, i, k + 1) == trip_stops_given(trips0, stop_times@, order@, i, k as int).push(stop_times@[pi].stop_id@));
                        assert(trips@[i].stop_ids.deep_view() =~= trips0[i].stop_ids.deep_view() + trip_stops_given(trips0, stop_times@, order@, i, k + 1));
                    } else {
                        assert(trips@[i] == tb[i]);
                        assert(trip_stops_given(trips0, stop_times@, order@, i, k + 1) == trip_stops_given(trips0, stop_times@, order@, i, k as int));
                    }
                }
                assert forall|i: int| 0 <= i < stops0.len() implies #[trigger] stop_extended(
                    stops0[i],
                    stops@[i],
                    stop_trips_given(stops0, stop_times@, order@, i, k + 1),
                ) by {
                    let id = stops0[i].id@;
                    lemma_index_finds_first(stop_index@, keys_of(stops0), id);
                    assert(keys_of(stops0)[i] == id);
                    assert(stop_extended(stops0[i], sb[i], stop_trips_given(stops0, stop_times@, order@, i, k as int)));
                    if pushed_stop == Some(i) {
                        assert(stop_trips_given(stops0, stop_times@, order@, i, k + 1) == stop_trips_given(stops0, stop_times@, order@, i, k as int).push(stop_times@[pi].trip_id@));
                        assert(stops@[i].trip_ids_stop_here.deep_view() =~= stops0[i].trip_ids_stop_here.deep_view() + stop_trips_given(stops0, stop_times@, order@, i, k + 1));
                    } else {
                        assert(stops@[i] == sb[i]);
                        assert(stop_trips_given(stops0, stop_times@, order@, i, k + 1) == stop_trips_given(stops0, stop_times@, order@, i, k as int));
                    }
                }
            }
            k = k + 1;
        }
        let mut shape_order = shape_pairs(&shapes);
        sort_pairs(&mut shape_order);
        proof {
            assert(keys_of(trips@) =~= keys_of(trips0)) by {
                assert forall|i: int| 0 <= i < trips0.len() implies keys_of(trips@)[i] == keys_of(trips0)[i] by {
                    assert(trip_extended(trips0[i], trips@[i], trip_stops_given(trips0, stop_times@, order@, i, k as int)));
                }
            }
            assert(keys_of(stops@) =~= keys_of(stops0)) by {
                assert forall|i: int| 0 <= i < stops0.len() implies keys_of(stops@)[i] == keys_of(stops0)[i] by {
                    assert(stop_extended(stops0[i], stops@[i], stop_trips_given(stops0, stop_times@, order@, i, k as int)));
                }
            }
        }
        let r = GtfsSchedule {
            routes,
            stops,
            trips,
            shapes,
            shape_order,
            created_at,
            route_index,
            stop_index,
            trip_index,
        };
        assert(visit_order(sequence_keys(stop_times@), order@));
        assert(keys_of(r.trips@) =~= keys_of(trips0));
        assert(keys_of(r.stops@) =~= keys_of(stops0));
        assert(r.joins(trips0, stops0, stop_times@, order@)) by {
            assert forall|i: int| 0 <= i < trips0.len() implies #[trigger] trip_extended(
                trips0[i],
                r.trips@[i],
                joined_trip_stops(trips0, stop_times@, order@, i),
            ) by {
                assert(trip_extended(trips0[i], r.trips@[i], trip_stops_given(trips0, stop_times@, order@, i, k as int)));
            }
            assert forall|i: int| 0 <= i < stops0.len() implies #[trigger] stop_extended(
                stops0[i],
                r.stops@[i],
                joined_stop_trips(stops0, stop_times@, order@, i),
            ) by {
                assert(stop_extended(stops0[i], r.stops@[i], stop_trips_given(stops0, stop_times@, order@, i, k as int)));
            }
        }
        r
    }

    /// Each trip and stop is its counterpart before the join, extended by what
    /// the stop times visited in `order` give it.
    pub open spec fn joins(
        &self,
        trips: Seq<Trip>,
        stops: Seq<Stop>,
        stop_times: Seq<StopTime>,
        order: Seq<(u32, usize)>,
    ) -> bool {
        &&& self.trips_view().len() == trips.len()
        &&& self.stops_view().len() == stops.len()
        &&& forall|i: int|
            0 <= i < trips.len() ==> #[trigger] trip_extended(
                trips[i],
                self.trips_view()[i],
                joined_trip_stops(trips, stop_times, order, i),
            )
        &&& forall|i: int|
            0 <= i < stops.len() ==> #[trigger] stop_extended(
                stops[i],
                self.stops_view()[i],
                joined_stop_trips(stops, stop_times, order, i),
            )
    }
}

/// The points of shape `shape_id` among the first `k` visited, as
/// `(longitude, latitude)`.
pub open spec fn shape_route_upto(
    shapes: Seq<Shape>,
    order: Seq<(u32, usize)>,
    shape_id: Seq<char>,
    k: int,
) -> Seq<(Seq<char>, Seq<char>)>
    decreases k,
{
    if k <= 0 || k > order.len() {
        seq![]
    } else {
        let prev = shape_route_upto(shapes, order, shape_id, k - 1);
        let p = order[k - 1].1 as int;
        if p < shapes.len() && shapes[p].id@ == shape_id {
            prev.push((shapes[p].longitude@, shapes[p].latitude@))
        } else {
            prev
        }
    }
}

/// The `(longitude, latitude)` of each of the first `k` stop ids that names
/// a stop with both coordinates.
pub open spec fn stops_route_upto(stops: Seq<Stop>, stop_ids: Seq<Seq<char>>, k: int) -> Seq<
    (Seq<char>, Seq<char>),
>
    decreases k,
{
    if k <= 0 || k > stop_ids.len() {
        seq![]
    } else {
        let prev = stops_route_upto(stops, stop_ids, k - 1);
        match first_index_of(keys_of(stops), stop_ids[k - 1]) {
            Some(j) => match (stops[j].longitude, stops[j].latitude) {
                (Some(lon), Some(lat)) => prev.push((lon@, lat@)),
                _ => prev,
            },
            None => prev,
        }
    }
}

/// The ordered stops of a trip, and the path it travels as
/// `(longitude, latitude)` pairs.
pub struct TripInfo {
    pub stop_ids: Vec<String>,
    pub route: Vec<(String, String)>,
}

/// A stop reduced to its id, name and coordinates.
#[derive(Clone, Debug, PartialEq)]
pub struct SimpleStop {
    pub id: String,
    pub name: String,
    pub latitude: String,
    pub longitude: String,
}

/// The text that stands for a coordinate that the file leaves out.
pub open spec fn absent_coordinate() -> Seq<char> {
    "0"@
}

pub open spec fn simple_stop_of(stop: Stop, simple: SimpleStop) -> bool {
    &&& simple.id@ == stop.id@
    &&& simple.name@ == match stop.name {
        Some(n) => n@,
        None => Seq::<char>::empty(),
    }
    &&& simple.latitude@ == match stop.latitude {
        Some(v) => v@,
        None => absent_coordinate(),
    }
    &&& simple.longitude@ == match stop.longitude {
        Some(v) => v@,
        None => absent_coordinate(),
    }
}

/// Whether a trip id stops at one of the stops named in `stop_ids`.
pub open spec fn stops_at_one_of(stops: Seq<Stop>, stop_ids: Seq<Seq<char>>, trip_id: Seq<char>) -> bool {
    exists|q: int|
        0 <= q < stop_ids.len() && match first_index_of(keys_of(stops), #[trigger] stop_ids[q]) {
            Some(j) => stops[j].trip_ids_stop_here.deep_view().contains(trip_id),
            None => false,
        }
}

/// A table as the schedule reads it: what the CSV reader made of the file,
/// or nothing where not even its header row could be read.
pub open spec fn table_of(bytes: Seq<u8>) -> (Seq<Seq<char>>, Seq<Option<Seq<Seq<char>>>>) {
    match csv_contents(bytes) {
        Some(t) => t,
        None => (seq![], seq![]),
    }
}

/// What a ZIP archive holds under a name: the entry's uncompressed bytes, or
/// `None` where the archive cannot be read or has no such entry.
pub uninterp spec fn zip_entry_of(archive: Seq<u8>, name: Seq<char>) -> Option<Seq<u8>>;

#[verifier::external_type_specification]
#[verifier::external_body]
pub struct ExZipError(zip::result::ZipError);

/// Relies on zip's `ZipArchive::new` and `ZipArchive::by_name`, read to the
/// end: the uncompressed bytes of the entry `name`. Depends on the archive
/// and the name alone.
#[verifier::external_body]
fn zip_entry(archive: &[u8], name: &str) -> (r: Result<Vec<u8>, zip::result::ZipError>)
    ensures
        match r {
            Ok(b) => zip_entry_of(archive@, name@) == Some(b@),
            Err(_) => zip_entry_of(archive@, name@) is None,
        },
{
    let mut zip = zip::ZipArchive::new(std::io::Cursor::new(archive))?;
    let mut file = zip.by_name(name)?;
    let mut out = Vec::new();
    std::io::Read::read_to_end(&mut file, &mut out)?;
    Ok(out)
}

/// The stops named by a stop-trips query.
pub struct GetStopTripsQuery {
    pub stop: Vec<String>,
}

/// Why a trip's shape cannot be given.
#[derive(Clone, Copy, Debug, PartialEq, Eq, Structural)]
pub enum ShapeForTripError {
    /// No trip has the id.
    TripNotFound,
    /// The trip names no shape.
    NoShape,
}

/// Why a schedule archive could not be loaded.
#[derive(Debug, PartialEq, Eq)]
pub enum FileDataError {
    /// The named entry is missing, or the archive cannot be read.
    Zip(String),
}

impl GtfsSchedule {
    pub fn routes(&self) -> (r: &Vec<Route>)
        ensures
            r@ == self.routes_view(),
    {
        &self.routes
    }

    pub fn stops(&self) -> (r: &Vec<Stop>)
        ensures
            r@ == self.stops_view(),
    {
        &self.stops
    }

    pub fn trips(&self) -> (r: &Vec<Trip>)
        ensures
            r@ == self.trips_view(),
    {
        &self.trips
    }

    /// The shape points in file order.
    pub fn shapes(&self) -> (r: &Vec<Shape>)
        ensures
            r@ == self.shapes_view(),
    {
        &self.shapes
    }

    /// When the schedule was built, in seconds since the epoch.
    pub fn created_at(&self) -> (r: u64)
        ensures
            r == self.created_at_view(),
    {
        self.created_at
    }

    /// The first route with the given id.
    pub fn by_route_id(&self, id: &str) -> (r: Option<&Route>)
        ensures
            match first_index_of(keys_of(self.routes_view()), id@) {
                Some(i) => r == Some(&self.routes_view()[i]),
                None => r is None,
            },
    {
        proof {
            use_type_invariant(self);
            lemma_index_finds_first(self.route_index@, keys_of(self.routes@), id@);
        }
        match self.route_index.get(id) {
            Some(i) => Some(&self.routes[*i]),
            None => None,
        }
    }

    /// The first stop with the given id.
    pub fn by_stop_id(&self, id: &str) -> (r: Option<&Stop>)
        ensures
            match first_index_of(keys_of(self.stops_view()), id@) {
                Some(i) => r == Some(&self.stops_view()[i]),
                None => r is None,
            },
    {
        proof {
            use_type_invariant(self);
            lemma_index_finds_first(self.stop_index@, keys_of(self.stops@), id@);
        }
        match self.stop_index.get(id) {
            Some(i) => Some(&self.stops[*i]),
            None => None,
        }
    }

    /// The first trip with the given id.
    pub fn by_trip_id(&self, id: &str) -> (r: Option<&Trip>)
        ensures
            match first_index_of(keys_of(self.trips_view()), id@) {
                Some(i) => r == Some(&self.trips_view()[i]),
                None => r is None,
            },
    {
        proof {
            use_type_invariant(self);
            lemma_index_finds_first(self.trip_index@, keys_of(self.trips@), id@);
        }
        match self.trip_index.get(id) {
            Some(i) => Some(&self.trips[*i]),
            None => None,
        }
    }

    /// The points of a shape in sequence order, as `(longitude, latitude)`.
    pub fn by_shape_id(&self, shape_id: &str) -> (r: Vec<(String, String)>)
        ensures
            r.deep_view() == shape_route_upto(
                self.shapes_view(),
                self.shape_order_view(),
                shape_id@,
                self.shape_order_view().len() as int,
            ),
    {
        let key = String::from_str(shape_id);
        let mut r: Vec<(String, String)> = Vec::new();
        let mut k: usize = 0;
        while k < self.shape_order.len()
            invariant
                k <= self.shape_order.len(),
                key@ == shape_id@,
                r.deep_view() == shape_route_upto(self.shapes@, self.shape_order@, shape_id@, k as int),
            decreases self.shape_order.len() - k,
        {
            let p = self.shape_order[k].1;
            let ghost before = r.deep_view();
            if p < self.shapes.len() && self.shapes[p].id == key {
                r.push((self.shapes[p].longitude.clone(), self.shapes[p].latitude.clone()));
                assert(r.deep_view() =~= before.push((self.shapes@[p as int].longitude@, self.shapes@[p as int].latitude@)));
            }
            k = k + 1;
        }
        r
    }

    /// The path along a list of stops, as the `(longitude, latitude)` of each
    /// stop that is known and has both coordinates.
    pub fn stops_route(&self, stop_ids: &Vec<String>) -> (r: Vec<(String, String)>)
        ensures
            r.deep_view() == stops_route_upto(self.stops_view(), stop_ids.deep_view(), stop_ids.len() as int),
    {
        let mut r: Vec<(String, String)> = Vec::new();
        let mut k: usize = 0;
        while k < stop_ids.len()
            invariant
                k <= stop_ids.len(),
                r.deep_view() == stops_route_upto(self.stops_view(), stop_ids.deep_view(), k as int),
            decreases stop_ids.len() - k,
        {
            let ghost before = r.deep_view();
            assert(stop_ids.deep_view()[k as int] == stop_ids@[k as int]@);
            match self.by_stop_id(stop_ids[k].as_str()) {
                Some(stop) => match (&stop.longitude, &stop.latitude) {
                    (Some(lon), Some(lat)) => {
                        r.push((lon.clone(), lat.clone()));
                        assert(r.deep_view() =~= before.push((lon@, lat@)));
                    },
                    _ => {},
                },
                None => {},
            }
            k = k + 1;
        }
        r
    }

    /// A trip's ordered stops and its path: the points of its shape where it
    /// has a shape with points, else the coordinates of its stops in order.
    pub fn trip_info(&self, trip_id: &str) -> (r: Option<TripInfo>)
        ensures
            match first_index_of(keys_of(self.trips_view()), trip_id@) {
                None => r is None,
                Some(i) => r matches Some(info) && self.describes_trip(self.trips_view()[i], info),
            },
    {
        let trip = match self.by_trip_id(trip_id) {
            Some(t) => t,
            None => return None,
        };
        let stop_ids = clone_strings(&trip.stop_ids);
        let from_shape = match &trip.shape_id {
            Some(sid) => self.by_shape_id(sid.as_str()),
            None => Vec::new(),
        };
        let route = if from_shape.len() > 0 {
            from_shape
        } else {
            self.stops_route(&trip.stop_ids)
        };
        Some(TripInfo { stop_ids, route })
    }

    /// `info` gives the stops of `trip`, and its path: the shape's points
    /// where the trip has a shape with points, else its stops' coordinates.
    pub open spec fn describes_trip(&self, trip: Trip, info: TripInfo) -> bool {
        let from_shape = match trip.shape_id {
            Some(sid) => shape_route_upto(
                self.shapes_view(),
                self.shape_order_view(),
                sid@,
                self.shape_order_view().len() as int,
            ),
            None => seq![],
        };
        &&& info.stop_ids.deep_view() == trip.stop_ids.deep_view()
        &&& info.route.deep_view() == if from_shape.len() > 0 {
            from_shape
        } else {
            stops_route_upto(self.stops_view(), trip.stop_ids.deep_view(), trip.stop_ids.len() as int)
        }
    }

    /// The points of a trip's shape in sequence order, as
    /// `(longitude, latitude)`.
    pub fn shape_for_trip(&self, trip_id: &str) -> (r: Result<Vec<(String, String)>, ShapeForTripError>)
        ensures
            match first_index_of(keys_of(self.trips_view()), trip_id@) {
                None => r == Err::<Vec<(String, String)>, ShapeForTripError>(ShapeForTripError::TripNotFound),
                Some(i) => match self.trips_view()[i].shape_id {
                    None => r == Err::<Vec<(String, String)>, ShapeForTripError>(ShapeForTripError::NoShape),
                    Some(sid) => r matches Ok(points) && points.deep_view() == shape_route_upto(
                        self.shapes_view(),
                        self.shape_order_view(),
                        sid@,
                        self.shape_order_view().len() as int,
                    ),
                },
            },
    {
        let trip = match self.by_trip_id(trip_id) {
            Some(t) => t,
            None => return Err(ShapeForTripError::TripNotFound),
        };
        match &trip.shape_id {
            Some(sid) => Ok(self.by_shape_id(sid.as_str())),
            None => Err(ShapeForTripError::NoShape),
        }
    }

    /// Every stop reduced to id, name and coordinates, in order.
    pub fn simple_stops(&self) -> (r: Vec<SimpleStop>)
        ensures
            r@.len() == self.stops_view().len(),
            forall|i: int| 0 <= i < r@.len() ==> simple_stop_of(self.stops_view()[i], #[trigger] r@[i]),
    {
        let mut r: Vec<SimpleStop> = Vec::new();
        let mut i: usize = 0;
        while i < self.stops.len()
            invariant
                i <= self.stops.len(),
                r@.len() == i,
                forall|j: int| 0 <= j < i ==> simple_stop_of(self.stops@[j], #[trigger] r@[j]),
            decreases self.stops.len() - i,
        {
            let stop = &self.stops[i];
            let name = match &stop.name {
                Some(n) => n.clone(),
                None => String::new(),
            };
            let latitude = match &stop.latitude {
                Some(v) => v.clone(),
                None => String::from_str("0"),
            };
            let longitude = match &stop.longitude {
                Some(v) => v.clone(),
                None => String::from_str("0"),
            };
            r.push(SimpleStop { id: stop.id.clone(), name, latitude, longitude });
            i = i + 1;
        }
        r
    }

    /// The distinct trips that stop at any of the given stops.
    pub fn stop_trips(&self, stop_ids: &Vec<String>) -> (r: Vec<String>)
        ensures
            r.deep_view().no_duplicates(),
            forall|t: Seq<char>|
                r.deep_view().contains(t) <==> stops_at_one_of(self.stops_view(), stop_ids.deep_view(), t),
    {
        let ghost ids = stop_ids.deep_view();
        let ghost stops = self.stops_view();
        let mut seen: StringHashMap<()> = StringHashMap::new();
        let mut r: Vec<String> = Vec::new();
        let mut q: usize = 0;
        while q < stop_ids.len()
            invariant
                q <= stop_ids.len(),
                ids == stop_ids.deep_view(),
                stops == self.stops_view(),
                r.deep_view().no_duplicates(),
                forall|t: Seq<char>| seen@.contains_key(t) <==> r.deep_view().contains(t),
                forall|t: Seq<char>|
                    r.deep_view().contains(t) <==> stops_at_one_of(stops, ids.take(q as int), t),
            decreases stop_ids.len() - q,
        {
            assert(ids[q as int] == stop_ids@[q as int]@);
            let ghost added: Seq<Seq<char>> = match first_index_of(keys_of(stops), ids[q as int]) {
                Some(j) => stops[j].trip_ids_stop_here.deep_view(),
                None => seq![],
            };
            match self.by_stop_id(stop_ids[q].as_str()) {
                Some(stop) => {
                    let trips = &stop.trip_ids_stop_here;
                    let ghost tv = trips.deep_view();
                    let mut k: usize = 0;
                    while k < trips.len()
                        invariant
                            k <= trips.len(),
                            tv == trips.deep_view(),
                            r.deep_view().no_duplicates(),
                            forall|t: Seq<char>| seen@.contains_key(t) <==> r.deep_view().contains(t),
                            forall|t: Seq<char>|
                                r.deep_view().contains(t) <==> (stops_at_one_of(stops, ids.take(q as int), t)
                                    || tv.take(k as int).contains(t)),
                        decreases trips.len() - k,
                    {
                        let t = &trips[k];
                        let ghost before = r.deep_view();
                        assert(forall|x: Seq<char>|
                            before.contains(x) <==> (stops_at_one_of(stops, ids.take(q as int), x)
                                || tv.take(k as int).contains(x)));
                        assert(tv[k as int] == t@);
                        let ghost seen_before = seen@;
                        if !seen.contains_key(t.as_str()) {
                            seen.insert(t.clone(), ());
                            r.push(t.clone());
                            assert(r.deep_view() =~= before.push(t@));
                            assert(!before.contains(t@));
                            assert forall|a: int, b: int|
                                0 <= a < b < r.deep_view().len() implies r.deep_view()[a] != r.deep_view()[b] by {
                                if b == before.len() {
                                    assert(before[a] == r.deep_view()[a]);
                                } else {
                                    assert(before[a] == r.deep_view()[a]);
                                    assert(before[b] == r.deep_view()[b]);
                                }
                            }
                            assert forall|x: Seq<char>| seen@.contains_key(x) <==> r.deep_view().contains(x) by {
                                if x == t@ {
                                    assert(r.deep_view()[before.len() as int] == x);
                                } else if before.contains(x) {
                                    let w = choose|w: int| 0 <= w < before.len() && before[w] == x;
                                    assert(r.deep_view()[w] == x);
                                } else if r.deep_view().contains(x) {
                                    let w = choose|w: int| 0 <= w < r.deep_view().len() && r.deep_view()[w] == x;
                                    assert(before[w] == x);
                                }
                            }
                        }
                        assert(tv.take(k + 1) =~= tv.take(k as int).push(t@));
                        assert(r.deep_view().contains(t@));
                        assert forall|x: Seq<char>|
                            r.deep_view().contains(x) <==> (before.contains(x) || x == t@) by {
                            if r.deep_view().contains(x) && !before.contains(x) {
                                let w = choose|w: int| 0 <= w < r.deep_view().len() && #[trigger] r.deep_view()[w] == x;
                                if w < before.len() {
                                    assert(before[w] == r.deep_view()[w]);
                                } else {
                                    assert(r.deep_view()[w] == t@);
                                }
                            }
                            if before.contains(x) {
                                let w = choose|w: int| 0 <= w < before.len() && #[trigger] before[w] == x;
                                assert(r.deep_view()[w] == x);
                            }
                        }
                        assert forall|x: Seq<char>|
                            tv.take(k + 1).contains(x) <==> (tv.take(k as int).contains(x) || x == t@) by {
                            let next = tv.take(k + 1);
                            let prev = tv.take(k as int);
                            if next.contains(x) && x != t@ {
                                let w = choose|w: int| 0 <= w < next.len() && #[trigger] next[w] == x;
                                assert(prev[w] == x);
                            }
                            if prev.contains(x) {
                                let w = choose|w: int| 0 <= w < prev.len() && #[trigger] prev[w] == x;
                                assert(next[w] == x);
                            }
                            if x == t@ {
                                assert(next[k as int] == x);
                            }
                        }
                        assert forall|x: Seq<char>|
                            r.deep_view().contains(x) <==> (stops_at_one_of(stops, ids.take(q as int), x)
                                || tv.take(k + 1).contains(x)) by {
                            assert(before.contains(x) <==> (stops_at_one_of(stops, ids.take(q as int), x)
                                || tv.take(k as int).contains(x)));
                        }
                        k = k + 1;
                    }
                    assert(tv.take(k as int) =~= tv);
                    assert(tv == added);
                },
                None => {},
            }
            assert(forall|t: Seq<char>|
                r.deep_view().contains(t) <==> (stops_at_one_of(stops, ids.take(q as int), t) || added.contains(t)));
            proof {
                assert forall|t: Seq<char>|
                    stops_at_one_of(stops, ids.take(q + 1), t) <==> (stops_at_one_of(stops, ids.take(q as int), t)
                        || match first_index_of(keys_of(stops), ids[q as int]) {
                            Some(j) => stops[j].trip_ids_stop_here.deep_view().contains(t),
                            None => false,
                        }) by {
                    let next = ids.take(q + 1);
                    let prev = ids.take(q as int);
                    if stops_at_one_of(stops, next, t) {
                        let w = choose|w: int|
                            0 <= w < next.len() && match first_index_of(keys_of(stops), #[trigger] next[w]) {
                                Some(j) => stops[j].trip_ids_stop_here.deep_view().contains(t),
                                None => false,
                            };
                        if w < q {
                            assert(prev[w] == next[w]);
                        }
                    }
                    if stops_at_one_of(stops, prev, t) {
                        let w = choose|w: int|
                            0 <= w < prev.len() && match first_index_of(keys_of(stops), #[trigger] prev[w]) {
                                Some(j) => stops[j].trip_ids_stop_here.deep_view().contains(t),
                                None => false,
                            };
                        assert(prev[w] == next[w]);
                    }
                    if match first_index_of(keys_of(stops), ids[q as int]) {
                        Some(j) => stops[j].trip_ids_stop_here.deep_view().contains(t),
                        None => false,
                    } {
                        assert(next[q as int] == ids[q as int]);
                    }
                }
            }
            q = q + 1;
        }
        assert(ids.take(q as int) =~= ids);
        r
    }

    /// The schedule held by five CSV tables: rows that do not hold an entity
    /// are dropped, then stop times are joined as `from_entities` does.
    pub open spec fn built_from_tables(
        &self,
        routes: (Seq<Seq<char>>, Seq<Option<Seq<Seq<char>>>>),
        stops: (Seq<Seq<char>>, Seq<Option<Seq<Seq<char>>>>),
        trips: (Seq<Seq<char>>, Seq<Option<Seq<Seq<char>>>>),
        shapes: (Seq<Seq<char>>, Seq<Option<Seq<Seq<char>>>>),
        stop_times: (Seq<Seq<char>>, Seq<Option<Seq<Seq<char>>>>),
    ) -> bool {
        &&& rows_read(routes.0, routes.1, self.routes_view())
        &&& rows_read(shapes.0, shapes.1, self.shapes_view())
        &&& visit_order(shape_keys(self.shapes_view()), self.shape_order_view())
        &&& exists|t: Seq<Trip>, s: Seq<Stop>, st: Seq<StopTime>, order: Seq<(u32, usize)>|
            rows_read(trips.0, trips.1, t) && rows_read(stops.0, stops.1, s) && rows_read(
                stop_times.0,
                stop_times.1,
                st,
            ) && visit_order(sequence_keys(st), order) && self.joins(t, s, st, order)
    }

    /// Builds a schedule from its five tables.
    pub fn from_tables(
        routes: &CsvTable,
        stops: &CsvTable,
        trips: &CsvTable,
        shapes: &CsvTable,
        stop_times: &CsvTable,
        created_at: u64,
    ) -> (r: Self)
        ensures
            r.built_from_tables(
                (routes.header_view(), routes.record_view()),
                (stops.header_view(), stops.record_view()),
                (trips.header_view(), trips.record_view()),
                (shapes.header_view(), shapes.record_view()),
                (stop_times.header_view(), stop_times.record_view()),
            ),
            r.created_at_view() == created_at,
    {
        let route_rows: Vec<Route> = read_rows(routes);
        let stop_rows: Vec<Stop> = read_rows(stops);
        let trip_rows: Vec<Trip> = read_rows(trips);
        let shape_rows: Vec<Shape> = read_rows(shapes);
        let stop_time_rows: Vec<StopTime> = read_rows(stop_times);
        let ghost t = trip_rows@;
        let ghost s = stop_rows@;
        let ghost st = stop_time_rows@;
        let r = Self::from_entities(route_rows, stop_rows, trip_rows, shape_rows, stop_time_rows, created_at);
        proof {
            let order = choose|order: Seq<(u32, usize)>|
                visit_order(sequence_keys(st), order) && r.joins(t, s, st, order);
            assert(rows_read(trips.header_view(), trips.record_view(), t) && rows_read(stops.header_view(), stops.record_view(), s)
                && rows_read(stop_times.header_view(), stop_times.record_view(), st) && visit_order(sequence_keys(st), order)
                && r.joins(t, s, st, order));
        }
        r
    }

    /// Loads a schedule from a ZIP archive holding `routes.txt`, `shapes.txt`,
    /// `stops.txt`, `trips.txt` and `stop_times.txt`. A file whose header row
    /// cannot be read counts as an empty table.
    pub fn read_from_zip_bytes(zip_bytes: &Vec<u8>, created_at: u64) -> (r: Result<Self, FileDataError>)
        ensures
            r is Ok <==> (zip_entry_of(zip_bytes@, "routes.txt"@) is Some && zip_entry_of(zip_bytes@, "shapes.txt"@) is Some
                && zip_entry_of(zip_bytes@, "stops.txt"@) is Some && zip_entry_of(zip_bytes@, "trips.txt"@) is Some
                && zip_entry_of(zip_bytes@, "stop_times.txt"@) is Some),
            r matches Ok(s) ==> s.created_at_view() == created_at && s.built_from_tables(
                table_of(zip_entry_of(zip_bytes@, "routes.txt"@)->0),
                table_of(zip_entry_of(zip_bytes@, "stops.txt"@)->0),
                table_of(zip_entry_of(zip_bytes@, "trips.txt"@)->0),
                table_of(zip_entry_of(zip_bytes@, "shapes.txt"@)->0),
                table_of(zip_entry_of(zip_bytes@, "stop_times.txt"@)->0),
            ),
    {
        let archive = zip_bytes.as_slice();
        let routes = read_table(archive, "routes.txt")?;
        let shapes = read_table(archive, "shapes.txt")?;
        let stops = read_table(archive, "stops.txt")?;
        let trips = read_table(archive, "trips.txt")?;
        let stop_times = read_table(archive, "stop_times.txt")?;
        Ok(Self::from_tables(&routes, &stops, &trips, &shapes, &stop_times, created_at))
    }
}

/// Reads one entry of the archive as a CSV table.
fn read_table(archive: &[u8], name: &str) -> (r: Result<CsvTable, FileDataError>)
    ensures
        r is Ok <==> zip_entry_of(archive@, name@) is Some,
        r matches Ok(t) ==> (t.header_view(), t.record_view()) == table_of(zip_entry_of(archive@, name@)->0),
        r matches Err(e) ==> e == FileDataError::Zip(e->0) && e->0@ == name@,
{
    match zip_entry(archive, name) {
        Ok(bytes) => match read_csv(bytes.as_slice()) {
            Some(t) => Ok(t),
            None => {
                let t = CsvTable { headers: Vec::new(), records: Vec::new() };
                assert(t.header_view() =~= seq![]);
                assert(t.record_view() =~= seq![]);
                Ok(t)
            },
        },
        Err(_) => Err(FileDataError::Zip(String::from_str(name))),
    }
}

fn clone_strings(v: &Vec<String>) -> (r: Vec<String>)
    ensures
        r.deep_view() == v.deep_view(),
{
    let mut r: Vec<String> = Vec::new();
    let mut i: usize = 0;
    while i < v.len()
        invariant
            i <= v.len(),
            r.deep_view() == v.deep_view().take(i as int),
        decreases v.len() - i,
    {
        let ghost before = r.deep_view();
        let c = v[i].clone();
        r.push(c);
        assert(r.deep_view() =~= before.push(v@[i as int]@));
        assert(v.deep_view().take(i + 1) =~= v.deep_view().take(i as int).push(v@[i as int]@));
        i = i + 1;
    }
    assert(v.deep_view().take(i as int) =~= v.deep_view());
    r
}

/// How often `x` occurs in `s`.
pub open spec fn occurrences(s: Seq<Seq<char>>, x: Seq<char>) -> nat
    decreases s.len(),
{
    if s.len() == 0 {
        0
    } else {
        occurrences(s.drop_last(), x) + if s.last() == x {
            1nat
        } else {
            0nat
        }
    }
}

/// How many of the first `k` visited rows pair `trip_id` with `stop_id`.
pub open spec fn pair_rows_upto(
    stop_times: Seq<StopTime>,
    order: Seq<(u32, usize)>,
    trip_id: Seq<char>,
    stop_id: Seq<char>,
    k: int,
) -> nat
    decreases k,
{
    if k <= 0 || k > order.len() {
        0
    } else {
        let p = order[k - 1].1 as int;
        pair_rows_upto(stop_times, order, trip_id, stop_id, k - 1) + if p < stop_times.len()
            && stop_times[p].trip_id@ == trip_id && stop_times[p].stop_id@ == stop_id {
            1nat
        } else {
            0nat
        }
    }
}

proof fn lemma_pair_counts(
    stop_times: Seq<StopTime>,
    order: Seq<(u32, usize)>,
    trip_id: Seq<char>,
    stop_id: Seq<char>,
    k: int,
)
    requires
        0 <= k <= order.len(),
    ensures
        occurrences(trip_stops_upto(stop_times, order, trip_id, k), stop_id) == pair_rows_upto(
            stop_times,
            order,
            trip_id,
            stop_id,
            k,
        ),
        occurrences(stop_trips_upto(stop_times, order, stop_id, k), trip_id) == pair_rows_upto(
            stop_times,
            order,
            trip_id,
            stop_id,
            k,
        ),
    decreases k,
{
    if k > 0 {
        lemma_pair_counts(stop_times, order, trip_id, stop_id, k - 1);
        let p = order[k - 1].1 as int;
        let ts = trip_stops_upto(stop_times, order, trip_id, k - 1);
        let sts = stop_trips_upto(stop_times, order, stop_id, k - 1);
        if p < stop_times.len() && stop_times[p].trip_id@ == trip_id {
            assert(ts.push(stop_times[p].stop_id@).drop_last() == ts);
        }
        if p < stop_times.len() && stop_times[p].stop_id@ == stop_id {
            assert(sts.push(stop_times[p].trip_id@).drop_last() == sts);
        }
    }
}

/// The join keeps back-references exact: the first trip of an id lists the
/// first stop of an id as often as that stop lists the trip, both being the
/// number of stop-time rows that pair them.
pub proof fn lemma_back_references(
    trips: Seq<Trip>,
    stops: Seq<Stop>,
    stop_times: Seq<StopTime>,
    order: Seq<(u32, usize)>,
    i: int,
    j: int,
)
    requires
        0 <= i < trips.len(),
        0 <= j < stops.len(),
        first_index_of(keys_of(trips), trips[i].id@) == Some(i),
        first_index_of(keys_of(stops), stops[j].id@) == Some(j),
    ensures
        occurrences(joined_trip_stops(trips, stop_times, order, i), stops[j].id@) == occurrences(
            joined_stop_trips(stops, stop_times, order, j),
            trips[i].id@,
        ),
        occurrences(joined_trip_stops(trips, stop_times, order, i), stops[j].id@) == pair_rows_upto(
            stop_times,
            order,
            trips[i].id@,
            stops[j].id@,
            order.len() as int,
        ),
{
    lemma_pair_counts(stop_times, order, trips[i].id@, stops[j].id@, order.len() as int);
}

/// The back-reference law on a built schedule: where the trips and stops
/// came in with empty lists, the first trip of an id lists the first stop of
/// an id exactly as often as that stop lists the trip.
pub proof fn lemma_schedule_back_references(
    schedule: &GtfsSchedule,
    trips: Seq<Trip>,
    stops: Seq<Stop>,
    stop_times: Seq<StopTime>,
    order: Seq<(u32, usize)>,
    i: int,
    j: int,
)
    requires
        schedule.joins(trips, stops, stop_times, order),
        0 <= i < trips.len(),
        0 <= j < stops.len(),
        trips[i].stop_ids@.len() == 0,
        stops[j].trip_ids_stop_here@.len() == 0,
        first_index_of(keys_of(trips), trips[i].id@) == Some(i),
        first_index_of(keys_of(stops), stops[j].id@) == Some(j),
    ensures
        occurrences(schedule.trips_view()[i].stop_ids.deep_view(), stops[j].id@) == occurrences(
            schedule.stops_view()[j].trip_ids_stop_here.deep_view(),
            trips[i].id@,
        ),
{
    assert(trip_extended(trips[i], schedule.trips_view()[i], joined_trip_stops(trips, stop_times, order, i)));
    assert(stop_extended(stops[j], schedule.stops_view()[j], joined_stop_trips(stops, stop_times, order, j)));
    assert(schedule.trips_view()[i].stop_ids.deep_view() =~= joined_trip_stops(trips, stop_times, order, i));
    assert(schedule.stops_view()[j].trip_ids_stop_here.deep_view() =~= joined_stop_trips(stops, stop_times, order, j));
    lemma_back_references(trips, stops, stop_times, order, i, j);
}

fn sequence_pairs(stop_times: &Vec<StopTime>) -> (r: Vec<(u32, usize)>)
    ensures
        r@ == sequence_keys(stop_times@),
{
    let mut r: Vec<(u32, usize)> = Vec::new();
    let mut i: usize = 0;
    while i < stop_times.len()
        invariant
            i <= stop_times.len(),
            r@ == sequence_keys(stop_times@).take(i as int),
        decreases stop_times.len() - i,
    {
        r.push((stop_times[i].stop_sequence, i));
        i = i + 1;
    }
    assert(sequence_keys(stop_times@).take(i as int) == sequence_keys(stop_times@));
    r
}

fn shape_pairs(shapes: &Vec<Shape>) -> (r: Vec<(u32, usize)>)
    ensures
        r@ == shape_keys(shapes@),
{
    let mut r: Vec<(u32, usize)> = Vec::new();
    let mut i: usize = 0;
    while i < shapes.len()
        invariant
            i <= shapes.len(),
            r@ == shape_keys(shapes@).take(i as int),
        decreases shapes.len() - i,
    {
        r.push((shapes[i].sequence, i));
        i = i + 1;
    }
    assert(shape_keys(shapes@).take(i as int) == shape_keys(shapes@));
    r
}

} // verus!
