use vstd::prelude::*;
use vstd::string::*;

use crate::csv_table::{
    field, field_of, numeric_field, numeric_field_of, opt_string_view, optional, optional_field,
    url_field, url_field_of, FromRecord,
};

verus! {

/// A route: a group of trips shown to riders as one service.
#[derive(Clone, Debug, PartialEq)]
pub struct Route {
    pub id: String,
    pub agency_id: Option<String>,
    pub short_name: Option<String>,
    pub long_name: Option<String>,
    pub desc: Option<String>,
    pub route_type: RouteType,
    pub url: Option<String>,
    pub color: String,
    pub text_color: String,
    pub sort_order: Option<u32>,
    pub continuous_pickup: PickupType,
    pub continuous_drop_off: DropOffType,
    pub network_id: Option<String>,
}

impl FromRecord for Route {
    open spec fn readable(headers: Seq<Seq<char>>, record: Seq<Seq<char>>) -> bool {
        &&& field_of(headers, record, "route_id"@).is_some()
        &&& match numeric_field_of(headers, record, "route_type"@) {
            Some(Some(v)) => RouteType::decode(v).is_some(),
            _ => false,
        }
        &&& url_field_of(headers, record, "route_url"@).is_some()
        &&& numeric_field_of(headers, record, "route_sort_order"@).is_some()
        &&& match numeric_field_of(headers, record, "continuous_pickup"@) {
            Some(Some(v)) => PickupType::decode(v).is_some(),
            Some(None) => true,
            None => false,
        }
        &&& match numeric_field_of(headers, record, "continuous_drop_off"@) {
            Some(Some(v)) => DropOffType::decode(v).is_some(),
            Some(None) => true,
            None => false,
        }
    }

    open spec fn read_from(&self, headers: Seq<Seq<char>>, record: Seq<Seq<char>>) -> bool {
        &&& field_of(headers, record, "route_id"@) == Some(self.id@)
        &&& optional_field(headers, record, "agency_id"@) == opt_string_view(self.agency_id)
        &&& optional_field(headers, record, "route_short_name"@) == opt_string_view(self.short_name)
        &&& optional_field(headers, record, "route_long_name"@) == opt_string_view(self.long_name)
        &&& optional_field(headers, record, "route_desc"@) == opt_string_view(self.desc)
        &&& match numeric_field_of(headers, record, "route_type"@) {
            Some(Some(v)) => RouteType::decode(v) == Some(self.route_type),
            _ => false,
        }
        &&& url_field_of(headers, record, "route_url"@) == Some(opt_string_view(self.url))
        &&& self.color@ == match optional_field(headers, record, "route_color"@) {
            Some(v) => v,
            None => "FFFFFF"@,
        }
        &&& self.text_color@ == match optional_field(headers, record, "route_text_color"@) {
            Some(v) => v,
            None => "000000"@,
        }
        &&& numeric_field_of(headers, record, "route_sort_order"@) == Some(self.sort_order)
        &&& match numeric_field_of(headers, record, "continuous_pickup"@) {
            Some(Some(v)) => PickupType::decode(v) == Some(self.continuous_pickup),
            Some(None) => self.continuous_pickup == PickupType::NotAvailable,
            None => false,
        }
        &&& match numeric_field_of(headers, record, "continuous_drop_off"@) {
            Some(Some(v)) => DropOffType::decode(v) == Some(self.continuous_drop_off),
            Some(None) => self.continuous_drop_off == DropOffType::NotAvailable,
            None => false,
        }
        &&& optional_field(headers, record, "network_id"@) == opt_string_view(self.network_id)
    }

    fn from_record(headers: &Vec<String>, record: &Vec<String>) -> (r: Option<Self>) {
        let id = match field(headers, record, "route_id") {
            Some(v) => v,
            None => return None,
        };
        let agency_id = optional(headers, record, "agency_id");
        let short_name = optional(headers, record, "route_short_name");
        let long_name = optional(headers, record, "route_long_name");
        let desc = optional(headers, record, "route_desc");
        let route_type = match numeric_field(headers, record, "route_type") {
            Some(Some(v)) => match RouteType::from_code(v) {
                Some(e) => e,
                None => return None,
            },
            _ => return None,
        };
        let url = match url_field(headers, record, "route_url") {
            Some(v) => v,
            None => return None,
        };
        let color = match optional(headers, record, "route_color") {
            Some(v) => v,
            None => default_route_color(),
        };
        let text_color = match optional(headers, record, "route_text_color") {
            Some(v) => v,
            None => default_route_text_color(),
        };
        let sort_order = match numeric_field(headers, record, "route_sort_order") {
            Some(v) => v,
            None => return None,
        };
        let continuous_pickup = match numeric_field(headers, record, "continuous_pickup") {
            Some(Some(v)) => match PickupType::from_code(v) {
                Some(e) => e,
                None => return None,
            },
            Some(None) => PickupType::NotAvailable,
            None => return None,
        };
        let continuous_drop_off = match numeric_field(headers, record, "continuous_drop_off") {
            Some(Some(v)) => match DropOffType::from_code(v) {
                Some(e) => e,
                None => return None,
            },
            Some(None) => DropOffType::NotAvailable,
            None => return None,
        };
        let network_id = optional(headers, record, "network_id");
        Some(Route { id, agency_id, short_name, long_name, desc, route_type, url, color, text_color, sort_order, continuous_pickup, continuous_drop_off, network_id })
    }
}

/// The value used where the file gives none.
pub fn default_route_color() -> (r: String)
    ensures
        r@ == "FFFFFF"@,
{
    String::from_str("FFFFFF")
}

/// The value used where the file gives none.
pub fn default_route_text_color() -> (r: String)
    ensures
        r@ == "000000"@,
{
    String::from_str("000000")
}

/// The kind of transport used on a route.
#[derive(Clone, Copy, Debug, PartialEq, Eq, Structural)]
pub enum RouteType {
    /// Tram, streetcar or light rail within a metropolitan area.
    Tram,
    /// Subway or metro: underground rail within a metropolitan area.
    Subway,
    /// Intercity or long-distance rail.
    Rail,
    /// Short- and long-distance bus routes.
    Bus,
    /// Short- and long-distance boat service.
    Ferry,
    /// Street-level rail cars drawn by a cable running beneath the vehicle.
    CableTram,
    /// Aerial lift: cabins suspended by one or more cables.
    Gondola,
    /// Rail designed for steep inclines.
    Funicular,
    /// Electric buses drawing power from overhead wires.
    Trolley,
    /// Railway whose track is a single rail or beam.
    Monorail,
}

impl RouteType {
    /// The value written for this variant in the file.
    pub open spec fn spec_code(self) -> u32 {
        match self {
            RouteType::Tram => 0,
            RouteType::Subway => 1,
            RouteType::Rail => 2,
            RouteType::Bus => 3,
            RouteType::Ferry => 4,
            RouteType::CableTram => 5,
            RouteType::Gondola => 6,
            RouteType::Funicular => 7,
            RouteType::Trolley => 11,
            RouteType::Monorail => 12,
        }
    }

    /// The variant that a code stands for.
    pub open spec fn decode(code: u32) -> Option<Self> {
        match code {
            0 => Some(RouteType::Tram),
            1 => Some(RouteType::Subway),
            2 => Some(RouteType::Rail),
            3 => Some(RouteType::Bus),
            4 => Some(RouteType::Ferry),
            5 => Some(RouteType::CableTram),
            6 => Some(RouteType::Gondola),
            7 => Some(RouteType::Funicular),
            11 => Some(RouteType::Trolley),
            12 => Some(RouteType::Monorail),
            _ => None,
        }
    }

    pub fn code(&self) -> (r: u32)
        ensures
            r == self.spec_code(),
    {
        match self {
            RouteType::Tram => 0,
            RouteType::Subway => 1,
            RouteType::Rail => 2,
            RouteType::Bus => 3,
            RouteType::Ferry => 4,
            RouteType::CableTram => 5,
            RouteType::Gondola => 6,
            RouteType::Funicular => 7,
            RouteType::Trolley => 11,
            RouteType::Monorail => 12,
        }
    }

    pub fn from_code(code: u32) -> (r: Option<Self>)
        ensures
            r == Self::decode(code),
    {
        match code {
            0 => Some(RouteType::Tram),
            1 => Some(RouteType::Subway),
            2 => Some(RouteType::Rail),
            3 => Some(RouteType::Bus),
            4 => Some(RouteType::Ferry),
            5 => Some(RouteType::CableTram),
            6 => Some(RouteType::Gondola),
            7 => Some(RouteType::Funicular),
            11 => Some(RouteType::Trolley),
            12 => Some(RouteType::Monorail),
            _ => None,
        }
    }
}

/// Whether riders can board anywhere along the route.
#[derive(Clone, Copy, Debug, PartialEq, Eq, Structural)]
pub enum PickupType {
    /// Continuous stopping pickup.
    Continuous,
    /// No continuous stopping pickup.
    NotAvailable,
    /// Phone the agency to arrange continuous stopping pickup.
    CallAgency,
    /// Coordinate with the driver to arrange continuous stopping pickup.
    CoordinateWithDriver,
}

impl PickupType {
    /// The value written for this variant in the file.
    pub open spec fn spec_code(self) -> u32 {
        match self {
            PickupType::Continuous => 0,
            PickupType::NotAvailable => 1,
            PickupType::CallAgency => 2,
            PickupType::CoordinateWithDriver => 3,
        }
    }

    /// The variant that a code stands for.
    pub open spec fn decode(code: u32) -> Option<Self> {
        match code {
            0 => Some(PickupType::Continuous),
            1 => Some(PickupType::NotAvailable),
            2 => Some(PickupType::CallAgency),
            3 => Some(PickupType::CoordinateWithDriver),
            _ => None,
        }
    }

    pub fn code(&self) -> (r: u32)
        ensures
            r == self.spec_code(),
    {
        match self {
            PickupType::Continuous => 0,
            PickupType::NotAvailable => 1,
            PickupType::CallAgency => 2,
            PickupType::CoordinateWithDriver => 3,
        }
    }

    pub fn from_code(code: u32) -> (r: Option<Self>)
        ensures
            r == Self::decode(code),
    {
        match code {
            0 => Some(PickupType::Continuous),
            1 => Some(PickupType::NotAvailable),
            2 => Some(PickupType::CallAgency),
            3 => Some(PickupType::CoordinateWithDriver),
            _ => None,
        }
    }
}

impl Default for PickupType {
    fn default() -> (r: Self)
        ensures
            r == PickupType::NotAvailable,
    {
        PickupType::NotAvailable
    }
}

/// Whether riders can alight anywhere along the route.
#[derive(Clone, Copy, Debug, PartialEq, Eq, Structural)]
pub enum DropOffType {
    /// Continuous stopping drop off.
    Continuous,
    /// No continuous stopping drop off.
    NotAvailable,
    /// Coordinate with the driver to arrange continuous stopping drop off.
    CoordinateWithDriver,
}

impl DropOffType {
    /// The value written for this variant in the file.
    pub open spec fn spec_code(self) -> u32 {
        match self {
            DropOffType::Continuous => 0,
            DropOffType::NotAvailable => 1,
            DropOffType::CoordinateWithDriver => 2,
        }
    }

    /// The variant that a code stands for.
    pub open spec fn decode(code: u32) -> Option<Self> {
        match code {
            0 => Some(DropOffType::Continuous),
            1 => Some(DropOffType::NotAvailable),
            2 => Some(DropOffType::CoordinateWithDriver),
            _ => None,
        }
    }

    pub fn code(&self) -> (r: u32)
        ensures
            r == self.spec_code(),
    {
        match self {
            DropOffType::Continuous => 0,
            DropOffType::NotAvailable => 1,
            DropOffType::CoordinateWithDriver => 2,
        }
    }

    pub fn from_code(code: u32) -> (r: Option<Self>)
        ensures
            r == Self::decode(code),
    {
        match code {
            0 => Some(DropOffType::Continuous),
            1 => Some(DropOffType::NotAvailable),
            2 => Some(DropOffType::CoordinateWithDriver),
            _ => None,
        }
    }
}

impl Default for DropOffType {
    fn default() -> (r: Self)
        ensures
            r == DropOffType::NotAvailable,
    {
        DropOffType::NotAvailable
    }
}

} // verus!
