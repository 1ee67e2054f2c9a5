//! The flight-plan model. A plan is fetched for an airliner callsign at
//! most once; the fields here are the plain values the session renders
//! into FSD lines. Scheduled times are unix seconds, rendered as a
//! four-digit UTC time of day.

use vstd::prelude::*;

use crate::text::{append_padded, padded_of};

verus! {

/// The aircraft type of a plan.
#[derive(Debug)]
pub struct Aircraft {
    pub ac_type: String,
}

/// The core of a plan: cruise speed in knots, cruise altitude in feet,
/// and the route string.
#[derive(Debug)]
pub struct PartialFlightPlan {
    pub speed: u64,
    pub altitude: u64,
    pub route: String,
}

/// An endpoint of a plan.
#[derive(Debug)]
pub struct Airport {
    pub icao: String,
    pub gate: Option<String>,
    pub terminal: Option<String>,
}

/// A scheduled instant, in unix seconds.
#[derive(Clone, Copy, Debug, PartialEq, Eq, Structural)]
pub struct Times {
    pub scheduled: u64,
}

/// A complete flight plan.
#[derive(Debug)]
pub struct FlightPlan {
    pub origin: Airport,
    pub destination: Airport,
    pub equipment: Aircraft,
    pub fp: PartialFlightPlan,
    pub arrival_time: Option<Times>,
    pub departure_time: Option<Times>,
}

/// A fetched plan routed back to its track.
#[derive(Debug)]
pub struct FlightPlanResult {
    pub id: String,
    pub callsign: String,
    pub fp: FlightPlan,
}

/// A plan the tracker wants fetched for a track.
#[derive(Debug)]
pub struct FlightPlanRequest {
    pub id: String,
    pub callsign: String,
}

/// Cruise altitudes below 1000 are flight levels in hundreds of feet;
/// they are scaled to feet, other values pass unchanged.
pub fn normalize_fp_altitude(altitude: u64) -> (r: u64)
    ensures
        r == (if altitude < 1000 {
            altitude * 100
        } else {
            altitude as int
        }),
{
    if altitude < 1000 {
        altitude * 100
    } else {
        altitude
    }
}

/// The four-digit UTC time of day of a unix instant, with a `Z` suffix:
/// two digits of hour and two of minute.
pub open spec fn hhmmz_of(secs: nat) -> Seq<char> {
    padded_of(secs / 3600 % 24, 2) + padded_of(secs % 3600 / 60, 2) + seq!['Z']
}

/// Appends the four-digit UTC time of day of a unix instant.
pub fn append_hhmmz(s: &mut String, secs: u64)
    ensures
        final(s)@ == old(s)@ + hhmmz_of(secs as nat),
{
    proof {
        reveal_strlit("Z");
    }
    append_padded(s, secs / 3600 % 24, 2);
    append_padded(s, secs % 3600 / 60, 2);
    s.append("Z");
    proof {
        assert(s@ =~= old(s)@ + hhmmz_of(secs as nat));
    }
}

} // verus!
