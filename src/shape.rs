use vstd::prelude::*;

use crate::csv_table::{
    field, field_of, numeric_field, numeric_field_of, opt_string_view, optional, optional_field,
    FromRecord,
};

verus! {

/// One point of a shape, the path that vehicles travel. Coordinates are kept as the decimal degrees written in the file.
#[derive(Clone, Debug, PartialEq)]
pub struct Shape {
    pub id: String,
    pub latitude: String,
    pub longitude: String,
    pub sequence: u32,
    pub distance: Option<String>,
}

impl FromRecord for Shape {
    open spec fn readable(headers: Seq<Seq<char>>, record: Seq<Seq<char>>) -> bool {
        &&& field_of(headers, record, "shape_id"@).is_some()
        &&& field_of(headers, record, "shape_pt_lat"@).is_some()
        &&& field_of(headers, record, "shape_pt_lon"@).is_some()
        &&& numeric_field_of(headers, record, "shape_pt_sequence"@) matches Some(Some(_))
    }

    open spec fn read_from(&self, headers: Seq<Seq<char>>, record: Seq<Seq<char>>) -> bool {
        &&& field_of(headers, record, "shape_id"@) == Some(self.id@)
        &&& field_of(headers, record, "shape_pt_lat"@) == Some(self.latitude@)
        &&& field_of(headers, record, "shape_pt_lon"@) == Some(self.longitude@)
        &&& numeric_field_of(headers, record, "shape_pt_sequence"@) == Some(Some(self.sequence))
        &&& optional_field(headers, record, "shape_dist_traveled"@) == opt_string_view(self.distance)
    }

    fn from_record(headers: &Vec<String>, record: &Vec<String>) -> (r: Option<Self>) {
        let id = match field(headers, record, "shape_id") {
            Some(v) => v,
            None => return None,
        };
        let latitude = match field(headers, record, "shape_pt_lat") {
            Some(v) => v,
            None => return None,
        };
        let longitude = match field(headers, record, "shape_pt_lon") {
            Some(v) => v,
            None => return None,
        };
        let sequence = match numeric_field(headers, record, "shape_pt_sequence") {
            Some(Some(v)) => v,
            _ => return None,
        };
        let distance = optional(headers, record, "shape_dist_traveled");
        Some(Shape { id, latitude, longitude, sequence, distance })
    }
}

} // verus!
