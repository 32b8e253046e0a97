use vstd::prelude::*;

use crate::csv_table::{
    field, field_of, numeric_field, numeric_field_of, opt_string_view, optional, optional_field,
    FromRecord,
};
use crate::stop::WheelchairBoarding;

verus! {

/// A trip: one journey of a vehicle along a route.
#[derive(Clone, Debug, PartialEq)]
pub struct Trip {
    pub id: String,
    pub route_id: String,
    pub service_id: String,
    pub headsign: Option<String>,
    pub short_name: Option<String>,
    pub direction_id: Option<Direction>,
    pub block_id: Option<String>,
    pub shape_id: Option<String>,
    pub wheelchair_boarding: WheelchairBoarding,
    pub bikes_allowed: BikesAllowed,
    pub stop_ids: Vec<String>,
}

impl FromRecord for Trip {
    open spec fn readable(headers: Seq<Seq<char>>, record: Seq<Seq<char>>) -> bool {
        &&& field_of(headers, record, "trip_id"@).is_some()
        &&& field_of(headers, record, "route_id"@).is_some()
        &&& field_of(headers, record, "service_id"@).is_some()
        &&& match numeric_field_of(headers, record, "direction_id"@) {
            Some(Some(v)) => Direction::decode(v).is_some(),
            Some(None) => true,
            None => false,
        }
        &&& match numeric_field_of(headers, record, "wheelchair_accessible"@) {
            Some(Some(v)) => WheelchairBoarding::decode(v).is_some(),
            Some(None) => true,
            None => false,
        }
        &&& match numeric_field_of(headers, record, "bikes_allowed"@) {
            Some(Some(v)) => BikesAllowed::decode(v).is_some(),
            Some(None) => true,
            None => false,
        }
    }

    open spec fn read_from(&self, headers: Seq<Seq<char>>, record: Seq<Seq<char>>) -> bool {
        &&& field_of(headers, record, "trip_id"@) == Some(self.id@)
        &&& field_of(headers, record, "route_id"@) == Some(self.route_id@)
        &&& field_of(headers, record, "service_id"@) == Some(self.service_id@)
        &&& optional_field(headers, record, "trip_headsign"@) == opt_string_view(self.headsign)
        &&& optional_field(headers, record, "trip_short_name"@) == opt_string_view(self.short_name)
        &&& match numeric_field_of(headers, record, "direction_id"@) {
            Some(Some(v)) => Direction::decode(v).is_some() && self.direction_id == Direction::decode(v),
            Some(None) => self.direction_id is None,
            None => false,
        }
        &&& optional_field(headers, record, "block_id"@) == opt_string_view(self.block_id)
        &&& optional_field(headers, record, "shape_id"@) == opt_string_view(self.shape_id)
        &&& match numeric_field_of(headers, record, "wheelchair_accessible"@) {
            Some(Some(v)) => WheelchairBoarding::decode(v) == Some(self.wheelchair_boarding),
            Some(None) => self.wheelchair_boarding == WheelchairBoarding::Unknown,
            None => false,
        }
        &&& match numeric_field_of(headers, record, "bikes_allowed"@) {
            Some(Some(v)) => BikesAllowed::decode(v) == Some(self.bikes_allowed),
            Some(None) => self.bikes_allowed == BikesAllowed::Unknown,
            None => false,
        }
        &&& self.stop_ids@.len() == 0
    }

    fn from_record(headers: &Vec<String>, record: &Vec<String>) -> (r: Option<Self>) {
        let id = match field(headers, record, "trip_id") {
            Some(v) => v,
            None => return None,
        };
        let route_id = match field(headers, record, "route_id") {
            Some(v) => v,
            None => return None,
        };
        let service_id = match field(headers, record, "service_id") {
            Some(v) => v,
            None => return None,
        };
        let headsign = optional(headers, record, "trip_headsign");
        let short_name = optional(headers, record, "trip_short_name");
        let direction_id = match numeric_field(headers, record, "direction_id") {
            Some(Some(v)) => match Direction::from_code(v) {
                Some(e) => Some(e),
                None => return None,
            },
            Some(None) => None,
            None => return None,
        };
        let block_id = optional(headers, record, "block_id");
        let shape_id = optional(headers, record, "shape_id");
        let wheelchair_boarding = match numeric_field(headers, record, "wheelchair_accessible") {
            Some(Some(v)) => match WheelchairBoarding::from_code(v) {
                Some(e) => e,
                None => return None,
            },
            Some(None) => WheelchairBoarding::Unknown,
            None => return None,
        };
        let bikes_allowed = match numeric_field(headers, record, "bikes_allowed") {
            Some(Some(v)) => match BikesAllowed::from_code(v) {
                Some(e) => e,
                None => return None,
            },
            Some(None) => BikesAllowed::Unknown,
            None => return None,
        };
        let stop_ids: Vec<String> = Vec::new();
        Some(Trip { id, route_id, service_id, headsign, short_name, direction_id, block_id, shape_id, wheelchair_boarding, bikes_allowed, stop_ids })
    }
}

/// The direction of travel of a trip.
#[derive(Clone, Copy, Debug, PartialEq, Eq, Structural)]
pub enum Direction {
    /// Travel in one direction.
    Outbound,
    /// Travel in the opposite direction.
    Inbound,
}

impl Direction {
    /// The value written for this variant in the file.
    pub open spec fn spec_code(self) -> u32 {
        match self {
            Direction::Outbound => 0,
            Direction::Inbound => 1,
        }
    }

    /// The variant that a code stands for.
    pub open spec fn decode(code: u32) -> Option<Self> {
        match code {
            0 => Some(Direction::Outbound),
            1 => Some(Direction::Inbound),
            _ => None,
        }
    }

    pub fn code(&self) -> (r: u32)
        ensures
            r == self.spec_code(),
    {
        match self {
            Direction::Outbound => 0,
            Direction::Inbound => 1,
        }
    }

    pub fn from_code(code: u32) -> (r: Option<Self>)
        ensures
            r == Self::decode(code),
    {
        match code {
            0 => Some(Direction::Outbound),
            1 => Some(Direction::Inbound),
            _ => None,
        }
    }
}

/// Whether bikes are allowed on a trip.
#[derive(Clone, Copy, Debug, PartialEq, Eq, Structural)]
pub enum BikesAllowed {
    /// No bike information for the trip.
    Unknown,
    /// The vehicle can carry at least one bicycle.
    Allowed,
    /// No bicycles are allowed on the trip.
    NotAllowed,
}

impl BikesAllowed {
    /// The value written for this variant in the file.
    pub open spec fn spec_code(self) -> u32 {
        match self {
            BikesAllowed::Unknown => 0,
            BikesAllowed::Allowed => 1,
            BikesAllowed::NotAllowed => 2,
        }
    }

    /// The variant that a code stands for.
    pub open spec fn decode(code: u32) -> Option<Self> {
        match code {
            0 => Some(BikesAllowed::Unknown),
            1 => Some(BikesAllowed::Allowed),
            2 => Some(BikesAllowed::NotAllowed),
            _ => None,
        }
    }

    pub fn code(&self) -> (r: u32)
        ensures
            r == self.spec_code(),
    {
        match self {
            BikesAllowed::Unknown => 0,
            BikesAllowed::Allowed => 1,
            BikesAllowed::NotAllowed => 2,
        }
    }

    pub fn from_code(code: u32) -> (r: Option<Self>)
        ensures
            r == Self::decode(code),
    {
        match code {
            0 => Some(BikesAllowed::Unknown),
            1 => Some(BikesAllowed::Allowed),
            2 => Some(BikesAllowed::NotAllowed),
            _ => None,
        }
    }
}

impl Default for BikesAllowed {
    fn default() -> (r: Self)
        ensures
            r == BikesAllowed::Unknown,
    {
        BikesAllowed::Unknown
    }
}

} // verus!
