use vstd::prelude::*;

use crate::csv_table::{
    field, field_of, numeric_field, numeric_field_of, opt_string_view, optional, optional_field,
    time_field, time_field_of, FromRecord,
};
use crate::route::DropOffType;
use crate::route::PickupType;

verus! {

/// One visit of a trip to a stop. Times are kept as written in the file.
#[derive(Clone, Debug, PartialEq)]
pub struct StopTime {
    pub trip_id: String,
    pub arrival_time: Option<u32>,
    pub departure_time: Option<u32>,
    pub stop_id: String,
    pub stop_sequence: u32,
    pub stop_headsign: Option<String>,
    pub pickup_type: Option<PickupType>,
    pub drop_off_type: Option<DropOffType>,
    pub shape_dist_traveled: Option<String>,
}

impl FromRecord for StopTime {
    open spec fn readable(headers: Seq<Seq<char>>, record: Seq<Seq<char>>) -> bool {
        &&& field_of(headers, record, "trip_id"@).is_some()
        &&& time_field_of(headers, record, "arrival_time"@).is_some()
        &&& time_field_of(headers, record, "departure_time"@).is_some()
        &&& field_of(headers, record, "stop_id"@).is_some()
        &&& numeric_field_of(headers, record, "stop_sequence"@) matches Some(Some(_))
        &&& match numeric_field_of(headers, record, "pickup_type"@) {
            Some(Some(v)) => PickupType::decode(v).is_some(),
            Some(None) => true,
            None => false,
        }
        &&& match numeric_field_of(headers, record, "drop_off_type"@) {
            Some(Some(v)) => DropOffType::decode(v).is_some(),
            Some(None) => true,
            None => false,
        }
    }

    open spec fn read_from(&self, headers: Seq<Seq<char>>, record: Seq<Seq<char>>) -> bool {
        &&& field_of(headers, record, "trip_id"@) == Some(self.trip_id@)
        &&& time_field_of(headers, record, "arrival_time"@) == Some(self.arrival_time)
        &&& time_field_of(headers, record, "departure_time"@) == Some(self.departure_time)
        &&& field_of(headers, record, "stop_id"@) == Some(self.stop_id@)
        &&& numeric_field_of(headers, record, "stop_sequence"@) == Some(Some(self.stop_sequence))
        &&& optional_field(headers, record, "stop_headsign"@) == opt_string_view(self.stop_headsign)
        &&& match numeric_field_of(headers, record, "pickup_type"@) {
            Some(Some(v)) => PickupType::decode(v).is_some() && self.pickup_type == PickupType::decode(v),
            Some(None) => self.pickup_type is None,
            None => false,
        }
        &&& match numeric_field_of(headers, record, "drop_off_type"@) {
            Some(Some(v)) => DropOffType::decode(v).is_some() && self.drop_off_type == DropOffType::decode(v),
            Some(None) => self.drop_off_type is None,
            None => false,
        }
        &&& optional_field(headers, record, "shape_dist_traveled"@) == opt_string_view(self.shape_dist_traveled)
    }

    fn from_record(headers: &Vec<String>, record: &Vec<String>) -> (r: Option<Self>) {
        let trip_id = match field(headers, record, "trip_id") {
            Some(v) => v,
            None => return None,
        };
        let arrival_time = match time_field(headers, record, "arrival_time") {
            Some(v) => v,
            None => return None,
        };
        let departure_time = match time_field(headers, record, "departure_time") {
            Some(v) => v,
            None => return None,
        };
        let stop_id = match field(headers, record, "stop_id") {
            Some(v) => v,
            None => return None,
        };
        let stop_sequence = match numeric_field(headers, record, "stop_sequence") {
            Some(Some(v)) => v,
            _ => return None,
        };
        let stop_headsign = optional(headers, record, "stop_headsign");
        let pickup_type = match numeric_field(headers, record, "pickup_type") {
            Some(Some(v)) => match PickupType::from_code(v) {
                Some(e) => Some(e),
                None => return None,
            },
            Some(None) => None,
            None => return None,
        };
        let drop_off_type = match numeric_field(headers, record, "drop_off_type") {
            Some(Some(v)) => match DropOffType::from_code(v) {
                Some(e) => Some(e),
                None => return None,
            },
            Some(None) => None,
            None => return None,
        };
        let shape_dist_traveled = optional(headers, record, "shape_dist_traveled");
        Some(StopTime { trip_id, arrival_time, departure_time, stop_id, stop_sequence, stop_headsign, pickup_type, drop_off_type, shape_dist_traveled })
    }
}

} // verus!
