use vstd::prelude::*;

use crate::csv_table::{
    field, field_of, numeric_field, numeric_field_of, opt_string_view, optional, optional_field,
    url_field, url_field_of, FromRecord,
};

verus! {

/// A stop, station or other location. Coordinates are kept as the decimal degrees written in the file.
#[derive(Clone, Debug, PartialEq)]
pub struct Stop {
    pub id: String,
    pub code: Option<String>,
    pub name: Option<String>,
    pub tts_name: Option<String>,
    pub latitude: Option<String>,
    pub longitude: Option<String>,
    pub zone_id: Option<String>,
    pub url: Option<String>,
    pub location_type: Option<LocationType>,
    pub parent_station: Option<String>,
    pub timezone: Option<String>,
    pub wheelchair_boarding: WheelchairBoarding,
    pub level_id: Option<String>,
    pub platform_code: Option<String>,
    pub trip_ids_stop_here: Vec<String>,
}

impl FromRecord for Stop {
    open spec fn readable(headers: Seq<Seq<char>>, record: Seq<Seq<char>>) -> bool {
        &&& field_of(headers, record, "stop_id"@).is_some()
        &&& url_field_of(headers, record, "stop_url"@).is_some()
        &&& match numeric_field_of(headers, record, "location_type"@) {
            Some(Some(v)) => LocationType::decode(v).is_some(),
            Some(None) => true,
            None => false,
        }
        &&& match numeric_field_of(headers, record, "wheelchair_boarding"@) {
            Some(Some(v)) => WheelchairBoarding::decode(v).is_some(),
            Some(None) => true,
            None => false,
        }
    }

    open spec fn read_from(&self, headers: Seq<Seq<char>>, record: Seq<Seq<char>>) -> bool {
        &&& field_of(headers, record, "stop_id"@) == Some(self.id@)
        &&& optional_field(headers, record, "stop_code"@) == opt_string_view(self.code)
        &&& optional_field(headers, record, "stop_name"@) == opt_string_view(self.name)
        &&& optional_field(headers, record, "tts_stop_name"@) == opt_string_view(self.tts_name)
        &&& optional_field(headers, record, "stop_lat"@) == opt_string_view(self.latitude)
        &&& optional_field(headers, record, "stop_lon"@) == opt_string_view(self.longitude)
        &&& optional_field(headers, record, "zone_id"@) == opt_string_view(self.zone_id)
        &&& url_field_of(headers, record, "stop_url"@) == Some(opt_string_view(self.url))
        &&& match numeric_field_of(headers, record, "location_type"@) {
            Some(Some(v)) => LocationType::decode(v).is_some() && self.location_type == LocationType::decode(v),
            Some(None) => self.location_type is None,
            None => false,
        }
        &&& optional_field(headers, record, "parent_station"@) == opt_string_view(self.parent_station)
        &&& optional_field(headers, record, "stop_timezone"@) == opt_string_view(self.timezone)
        &&& match numeric_field_of(headers, record, "wheelchair_boarding"@) {
            Some(Some(v)) => WheelchairBoarding::decode(v) == Some(self.wheelchair_boarding),
            Some(None) => self.wheelchair_boarding == WheelchairBoarding::Unknown,
            None => false,
        }
        &&& optional_field(headers, record, "level_id"@) == opt_string_view(self.level_id)
        &&& optional_field(headers, record, "platform_code"@) == opt_string_view(self.platform_code)
        &&& self.trip_ids_stop_here@.len() == 0
    }

    fn from_record(headers: &Vec<String>, record: &Vec<String>) -> (r: Option<Self>) {
        let id = match field(headers, record, "stop_id") {
            Some(v) => v,
            None => return None,
        };
        let code = optional(headers, record, "stop_code");
        let name = optional(headers, record, "stop_name");
        let tts_name = optional(headers, record, "tts_stop_name");
        let latitude = optional(headers, record, "stop_lat");
        let longitude = optional(headers, record, "stop_lon");
        let zone_id = optional(headers, record, "zone_id");
        let url = match url_field(headers, record, "stop_url") {
            Some(v) => v,
            None => return None,
        };
        let location_type = match numeric_field(headers, record, "location_type") {
            Some(Some(v)) => match LocationType::from_code(v) {
                Some(e) => Some(e),
                None => return None,
            },
            Some(None) => None,
            None => return None,
        };
        let parent_station = optional(headers, record, "parent_station");
        let timezone = optional(headers, record, "stop_timezone");
        let wheelchair_boarding = match numeric_field(headers, record, "wheelchair_boarding") {
            Some(Some(v)) => match WheelchairBoarding::from_code(v) {
                Some(e) => e,
                None => return None,
            },
            Some(None) => WheelchairBoarding::Unknown,
            None => return None,
        };
        let level_id = optional(headers, record, "level_id");
        let platform_code = optional(headers, record, "platform_code");
        let trip_ids_stop_here: Vec<String> = Vec::new();
        Some(Stop { id, code, name, tts_name, latitude, longitude, zone_id, url, location_type, parent_station, timezone, wheelchair_boarding, level_id, platform_code, trip_ids_stop_here })
    }
}

/// What kind of location a stop row describes.
#[derive(Clone, Copy, Debug, PartialEq, Eq, Structural)]
pub enum LocationType {
    /// A stop or platform where passengers board or alight.
    Stop,
    /// A structure or area holding one or more platforms.
    Station,
    /// Where passengers enter or leave a station from the street.
    EntranceOrExit,
    /// A location within a station used to link pathways.
    GenericNode,
    /// A specific location on a platform where passengers board.
    BoardingArea,
}

impl LocationType {
    /// The value written for this variant in the file.
    pub open spec fn spec_code(self) -> u32 {
        match self {
            LocationType::Stop => 0,
            LocationType::Station => 1,
            LocationType::EntranceOrExit => 2,
            LocationType::GenericNode => 3,
            LocationType::BoardingArea => 4,
        }
    }

    /// The variant that a code stands for.
    pub open spec fn decode(code: u32) -> Option<Self> {
        match code {
            0 => Some(LocationType::Stop),
            1 => Some(LocationType::Station),
            2 => Some(LocationType::EntranceOrExit),
            3 => Some(LocationType::GenericNode),
            4 => Some(LocationType::BoardingArea),
            _ => None,
        }
    }

    pub fn code(&self) -> (r: u32)
        ensures
            r == self.spec_code(),
    {
        match self {
            LocationType::Stop => 0,
            LocationType::Station => 1,
            LocationType::EntranceOrExit => 2,
            LocationType::GenericNode => 3,
            LocationType::BoardingArea => 4,
        }
    }

    pub fn from_code(code: u32) -> (r: Option<Self>)
        ensures
            r == Self::decode(code),
    {
        match code {
            0 => Some(LocationType::Stop),
            1 => Some(LocationType::Station),
            2 => Some(LocationType::EntranceOrExit),
            3 => Some(LocationType::GenericNode),
            4 => Some(LocationType::BoardingArea),
            _ => None,
        }
    }
}

/// Whether wheelchair boardings are possible.
#[derive(Clone, Copy, Debug, PartialEq, Eq, Structural)]
pub enum WheelchairBoarding {
    /// No accessibility information.
    Unknown,
    /// Some vehicles can be boarded by a rider in a wheelchair.
    Accessible,
    /// Wheelchair boarding is not possible.
    NotAccessible,
}

impl WheelchairBoarding {
    /// The value written for this variant in the file.
    pub open spec fn spec_code(self) -> u32 {
        match self {
            WheelchairBoarding::Unknown => 0,
            WheelchairBoarding::Accessible => 1,
            WheelchairBoarding::NotAccessible => 2,
        }
    }

    /// The variant that a code stands for.
    pub open spec fn decode(code: u32) -> Option<Self> {
        match code {
            0 => Some(WheelchairBoarding::Unknown),
            1 => Some(WheelchairBoarding::Accessible),
            2 => Some(WheelchairBoarding::NotAccessible),
            _ => None,
        }
    }

    pub fn code(&self) -> (r: u32)
        ensures
            r == self.spec_code(),
    {
        match self {
            WheelchairBoarding::Unknown => 0,
            WheelchairBoarding::Accessible => 1,
            WheelchairBoarding::NotAccessible => 2,
        }
    }

    pub fn from_code(code: u32) -> (r: Option<Self>)
        ensures
            r == Self::decode(code),
    {
        match code {
            0 => Some(WheelchairBoarding::Unknown),
            1 => Some(WheelchairBoarding::Accessible),
            2 => Some(WheelchairBoarding::NotAccessible),
            _ => None,
        }
    }
}

impl Default for WheelchairBoarding {
    fn default() -> (r: Self)
        ensures
            r == WheelchairBoarding::Unknown,
    {
        WheelchairBoarding::Unknown
    }
}

} // verus!
