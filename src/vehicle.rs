use vstd::prelude::*;
use vstd::string::*;

use crate::feed::{CoordinateBits, FeedEntity, FeedMessage, VehiclePosition};

verus! {

/// A live vehicle: its id, the route and trip it serves, and its position.
#[derive(Clone, Debug, PartialEq)]
pub struct Vehicle {
    pub id: String,
    pub route_id: String,
    pub trip_id: String,
    pub latitude: CoordinateBits,
    pub longitude: CoordinateBits,
}

/// Why a vehicle position does not describe a vehicle.
#[derive(Clone, Copy, Debug, PartialEq, Eq, Structural)]
pub enum VehicleError {
    MissingVehicleInfo,
    MissingTripInfo,
    MissingPositionInfo,
    InvalidRouteId,
    InvalidId,
    InvalidTripId,
}

/// One element of a compact positional tuple.
#[derive(Clone, Debug, PartialEq)]
pub enum MixedValue {
    String(String),
    U32(u32),
    /// The bit pattern of a single-precision float.
    F32(u32),
}

/// The first reason, checked in order, for which `p` does not describe a
/// vehicle.
pub open spec fn position_error(p: VehiclePosition) -> Option<VehicleError> {
    if p.vehicle is None {
        Some(VehicleError::MissingVehicleInfo)
    } else if p.trip is None {
        Some(VehicleError::MissingTripInfo)
    } else if p.position is None {
        Some(VehicleError::MissingPositionInfo)
    } else if p.trip->0.route_id@.len() == 0 {
        Some(VehicleError::InvalidRouteId)
    } else if p.vehicle->0.id@.len() == 0 {
        Some(VehicleError::InvalidId)
    } else if p.trip->0.trip_id@.len() == 0 {
        Some(VehicleError::InvalidTripId)
    } else {
        None
    }
}

/// `v` is the vehicle that `p` describes.
pub open spec fn describes(p: VehiclePosition, v: Vehicle) -> bool {
    &&& p.vehicle matches Some(d) && v.id@ == d.id@
    &&& p.trip matches Some(t) && v.route_id@ == t.route_id@ && v.trip_id@ == t.trip_id@
    &&& p.position matches Some(pos) && v.latitude == pos.latitude && v.longitude == pos.longitude
}

impl Vehicle {
    /// Reads a vehicle from a realtime position; one missing descriptor, or
    /// an empty id, route id or trip id, leaves no vehicle.
    pub fn try_from_position(p: &VehiclePosition) -> (r: Result<Vehicle, VehicleError>)
        ensures
            match r {
                Ok(v) => position_error(*p) is None && describes(*p, v),
                Err(e) => position_error(*p) == Some(e),
            },
    {
        let vehicle_info = match &p.vehicle {
            Some(v) => v,
            None => return Err(VehicleError::MissingVehicleInfo),
        };
        let trip_info = match &p.trip {
            Some(t) => t,
            None => return Err(VehicleError::MissingTripInfo),
        };
        let position = match &p.position {
            Some(pos) => *pos,
            None => return Err(VehicleError::MissingPositionInfo),
        };
        if trip_info.route_id.unicode_len() == 0 {
            return Err(VehicleError::InvalidRouteId);
        }
        if vehicle_info.id.unicode_len() == 0 {
            return Err(VehicleError::InvalidId);
        }
        if trip_info.trip_id.unicode_len() == 0 {
            return Err(VehicleError::InvalidTripId);
        }
        Ok(Vehicle {
            id: vehicle_info.id.clone(),
            route_id: trip_info.route_id.clone(),
            trip_id: trip_info.trip_id.clone(),
            latitude: position.latitude,
            longitude: position.longitude,
        })
    }

    /// The compact positional tuple `[id, route_id, trip_id, lat, lon]`.
    pub fn to_simple(&self) -> (r: Vec<MixedValue>)
        ensures
            self.is_simple(r@),
    {
        let mut r: Vec<MixedValue> = Vec::new();
        r.push(MixedValue::String(self.id.clone()));
        r.push(MixedValue::String(self.route_id.clone()));
        r.push(MixedValue::String(self.trip_id.clone()));
        r.push(MixedValue::F32(self.latitude));
        r.push(MixedValue::F32(self.longitude));
        r
    }

    /// `t` is this vehicle's compact tuple.
    pub open spec fn is_simple(&self, t: Seq<MixedValue>) -> bool {
        &&& t.len() == 5
        &&& t[0] matches MixedValue::String(s) && s@ == self.id@
        &&& t[1] matches MixedValue::String(s) && s@ == self.route_id@
        &&& t[2] matches MixedValue::String(s) && s@ == self.trip_id@
        &&& t[3] == MixedValue::F32(self.latitude)
        &&& t[4] == MixedValue::F32(self.longitude)
    }
}

pub open spec fn entity_has_vehicle(e: FeedEntity) -> bool {
    e.vehicle matches Some(p) && position_error(p) is None
}

/// How many of the first `n` entities describe a vehicle.
pub open spec fn vehicle_count(entities: Seq<FeedEntity>, n: int) -> nat
    decreases n,
{
    if n <= 0 {
        0
    } else {
        vehicle_count(entities, n - 1) + if entity_has_vehicle(entities[n - 1]) {
            1nat
        } else {
            0nat
        }
    }
}

proof fn lemma_vehicle_count_monotone(entities: Seq<FeedEntity>, i: int, j: int)
    requires
        0 <= i <= j,
    ensures
        vehicle_count(entities, i) <= vehicle_count(entities, j),
    decreases j - i,
{
    if i < j {
        lemma_vehicle_count_monotone(entities, i, j - 1);
    }
}

/// `out` holds, in feed order, the vehicle of every entity that describes
/// one.
pub open spec fn feed_vehicles(entities: Seq<FeedEntity>, out: Seq<Vehicle>) -> bool {
    &&& out.len() == vehicle_count(entities, entities.len() as int)
    &&& forall|i: int|
        0 <= i < entities.len() && entity_has_vehicle(#[trigger] entities[i]) ==> describes(
            entities[i].vehicle->0,
            out[vehicle_count(entities, i) as int],
        )
}

/// The vehicles of a feed, in feed order; entities that do not describe a
/// vehicle are dropped.
pub fn vehicles_of_feed(feed: &FeedMessage) -> (r: Vec<Vehicle>)
    ensures
        feed_vehicles(feed.entities@, r@),
{
    let ghost es = feed.entities@;
    let mut r: Vec<Vehicle> = Vec::new();
    let mut i: usize = 0;
    while i < feed.entities.len()
        invariant
            i <= feed.entities.len(),
            es == feed.entities@,
            r@.len() == vehicle_count(es, i as int),
            forall|k: int|
                0 <= k < i && entity_has_vehicle(#[trigger] es[k]) ==> describes(
                    es[k].vehicle->0,
                    r@[vehicle_count(es, k) as int],
                ),
        decreases feed.entities.len() - i,
    {
        match &feed.entities[i].vehicle {
            Some(p) => match Vehicle::try_from_position(p) {
                Ok(v) => r.push(v),
                Err(_) => {},
            },
            None => {},
        }
        proof {
            assert forall|k: int|
                0 <= k < i + 1 && entity_has_vehicle(#[trigger] es[k]) implies describes(
                    es[k].vehicle->0,
                    r@[vehicle_count(es, k) as int],
                ) by {
                if k < i {
                    lemma_vehicle_count_monotone(es, k + 1, i as int);
                }
            }
        }
        i = i + 1;
    }
    r
}

/// The compact tuple of each vehicle, in order.
pub fn simple_vehicles(vehicles: &Vec<Vehicle>) -> (r: Vec<Vec<MixedValue>>)
    ensures
        r@.len() == vehicles@.len(),
        forall|i: int| 0 <= i < r@.len() ==> vehicles@[i].is_simple(#[trigger] r@[i]@),
{
    let mut r: Vec<Vec<MixedValue>> = Vec::new();
    let mut i: usize = 0;
    while i < vehicles.len()
        invariant
            i <= vehicles.len(),
            r@.len() == i,
            forall|k: int| 0 <= k < i ==> vehicles@[k].is_simple(#[trigger] r@[k]@),
        decreases vehicles.len() - i,
    {
        r.push(vehicles[i].to_simple());
        i = i + 1;
    }
    r
}

} // verus!
