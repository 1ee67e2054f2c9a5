//! Geographic units. Latitudes and longitudes are integer micro-degrees
//! (one millionth of a degree). Distances use the fixed conversions
//! 69 miles per degree of latitude and 54.6 miles per degree of longitude,
//! with no cosine correction, a deliberate simplification.

use vstd::prelude::*;

verus! {

/// Micro-degrees per degree.
pub const MICRODEG: i64 = 1_000_000;

/// Largest latitude, in micro-degrees.
pub const MAX_LAT_MICRODEG: i64 = 90_000_000;

/// Largest longitude, in micro-degrees.
pub const MAX_LON_MICRODEG: i64 = 180_000_000;

/// A latitude/longitude pair in micro-degrees.
#[derive(Clone, Copy, Debug, PartialEq, Eq, Structural)]
pub struct LatLon {
    pub lat: i64,
    pub lon: i64,
}

/// The radar rectangle, in micro-degrees.
#[derive(Clone, Copy, Debug, PartialEq, Eq, Structural)]
pub struct Bounds {
    pub lat1: i64,
    pub lon1: i64,
    pub lat2: i64,
    pub lon2: i64,
}

/// Miles of radius converted to micro-degrees of latitude: one degree of
/// latitude spans 69 miles.
pub fn convert_miles_to_lat(miles: u32) -> (r: i64)
    ensures
        r == miles as int * MICRODEG / 69,
{
    (miles as i64) * MICRODEG / 69
}

/// Miles of radius converted to micro-degrees of longitude: one degree of
/// longitude is taken to span 54.6 miles, so ten million micro-degrees
/// stand for 546 miles.
pub fn convert_miles_to_lon(miles: u32) -> (r: i64)
    ensures
        r == miles as int * 10_000_000 / 546,
{
    (miles as i64) * 10_000_000 / 546
}

/// The radar rectangle around a centre point: the first corner lies
/// north-west of the centre by the radius, the second south-east.
pub fn bounds_from_radius(center: LatLon, radius: u32) -> (b: Bounds)
    requires
        -MAX_LAT_MICRODEG <= center.lat <= MAX_LAT_MICRODEG,
        -MAX_LON_MICRODEG <= center.lon <= MAX_LON_MICRODEG,
    ensures
        b.lat1 == center.lat + radius as int * MICRODEG / 69,
        b.lon1 == center.lon - radius as int * 10_000_000 / 546,
        b.lat2 == center.lat - radius as int * MICRODEG / 69,
        b.lon2 == center.lon + radius as int * 10_000_000 / 546,
{
    let dlat = convert_miles_to_lat(radius);
    let dlon = convert_miles_to_lon(radius);
    Bounds { lat1: center.lat + dlat, lon1: center.lon - dlon, lat2: center.lat - dlat, lon2: center.lon + dlon }
}

} // verus!
