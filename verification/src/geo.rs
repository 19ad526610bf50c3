use vstd::prelude::*;
use vstd::string::*;
use crate::fixed::{fixed_of_text, parse_fixed};
use crate::json::{owned, Json};

verus! {

/// A point on the globe in WGS84 degrees. Both fields are fixed-point
/// numbers: `UNITS_PER_ONE` units make one degree.
#[derive(Clone, Copy, Debug, PartialEq, Eq, Structural)]
pub struct Coordinates {
    pub lat: i64,
    pub lng: i64,
}

/// The fixed-point number of a JSON number; `None` for any other value and
/// for a number out of range.
pub open spec fn spec_fixed_number(value: Option<Json>) -> Option<i64> {
    match value {
        Some(Json::Number(literal)) => fixed_of_text(literal@),
        _ => None,
    }
}

/// The point that a JSON object with the members `lat` and `lng` gives;
/// `None` unless both are numbers in range.
pub open spec fn spec_point(location: Option<Json>) -> Option<Coordinates> {
    match location {
        Some(place) => match (
            spec_fixed_number(place.spec_member("lat"@)),
            spec_fixed_number(place.spec_member("lng"@)),
        ) {
            (Some(lat), Some(lng)) => Some(Coordinates { lat, lng }),
            _ => None,
        },
        None => None,
    }
}

/// The point under `geometry.location` of a geocoding or places result.
pub open spec fn spec_result_point(result: Json) -> Option<Coordinates> {
    match result.spec_member("geometry"@) {
        Some(geometry) => spec_point(geometry.spec_member("location"@)),
        None => None,
    }
}

/// Reads a JSON number as a fixed-point number.
pub fn fixed_number(value: Option<&Json>) -> (number: Option<i64>)
    ensures
        number == spec_fixed_number(owned(value)),
{
    match value {
        Some(v) => match v.number() {
            Some(literal) => parse_fixed(literal),
            None => None,
        },
        None => None,
    }
}

/// Reads the point of a geocoding or places result.
pub fn result_point(result: &Json) -> (point: Option<Coordinates>)
    ensures
        point == spec_result_point(*result),
{
    match result.member("geometry") {
        Some(geometry) => match geometry.member("location") {
            Some(place) => {
                let lat = fixed_number(place.member("lat"));
                let lng = fixed_number(place.member("lng"));
                match (lat, lng) {
                    (Some(lat), Some(lng)) => Some(Coordinates { lat, lng }),
                    _ => None,
                }
            },
            None => None,
        },
        None => None,
    }
}

} // verus!
