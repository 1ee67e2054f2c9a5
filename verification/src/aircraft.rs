//! The per-observation aircraft record. A provider produces one
//! `AircraftData` per aircraft per poll; the tracker fuses them into
//! durable tracks. Latitudes and longitudes are micro-degrees, the
//! timestamp is provider-supplied unix seconds.

use vstd::prelude::*;

use crate::patterns::{
    digit_at, digit_run_end, has_callsign_shape, has_registration_shape, is_airline_seq,
    lemma_digit_run_end_stops, letter_at,
};
use crate::text::{lemma_lex_le_antisymmetric, lex_le};

verus! {

/// One observation of one aircraft, as a provider reported it.
#[derive(Debug)]
pub struct AircraftData {
    pub squawk: String,
    pub callsign: String,
    pub is_on_ground: bool,
    /// Latitude in micro-degrees.
    pub latitude: i64,
    /// Longitude in micro-degrees.
    pub longitude: i64,
    /// Heading in degrees.
    pub heading: u32,
    /// Ground speed in knots.
    pub ground_speed: u32,
    /// Provider-supplied unix seconds.
    pub timestamp: u64,
    /// Altitude in feet.
    pub altitude: i32,
    pub model: String,
    pub hex: String,
    pub origin: String,
    pub destination: String,
    /// Name tag of the provider that produced the record.
    pub provider: String,
}

impl AircraftData {
    /// Whether the callsign has the airline shape.
    pub fn is_airline(&self) -> (r: bool)
        ensures
            r == is_airline_seq(self.callsign@),
    {
        let cs = self.callsign.as_str();
        let len = cs.unicode_len();
        if len < 4 {
            return false;
        }
        letter_at(cs, 0) && letter_at(cs, 1) && letter_at(cs, 2) && digit_at(cs, 3)
    }

    /// The airline-shaped front of the callsign: the three letters and
    /// the whole digit run after them, or nothing when the callsign does
    /// not have the airline shape.
    pub fn get_airline(&self) -> (r: Option<String>)
        ensures
            match r {
                Some(a) => is_airline_seq(self.callsign@) && a@ == self.callsign@.subrange(
                    0,
                    digit_run_end(self.callsign@, 3),
                ),
                None => !is_airline_seq(self.callsign@),
            },
    {
        let cs = self.callsign.as_str();
        let len = cs.unicode_len();
        if len < 4 {
            return None;
        }
        if !(letter_at(cs, 0) && letter_at(cs, 1) && letter_at(cs, 2) && digit_at(cs, 3)) {
            return None;
        }
        let mut j: usize = 4;
        while j < len && digit_at(cs, j)
            invariant
                4 <= j <= len,
                len == cs@.len(),
                forall|k: int| 3 <= k < j ==> crate::patterns::is_ascii_digit(#[trigger] cs@[k]),
            decreases len - j,
        {
            j += 1;
        }
        proof {
            lemma_digit_run_end_stops(cs@, 3, j as int);
        }
        Some(String::from_str(cs.substring_char(0, j)))
    }

    /// Fuses two observations of the same aircraft. The fusion is
    /// deterministic and independent of argument order: the record with
    /// the newer provider timestamp leads — on a timestamp tie the one
    /// whose provider tag sorts first — zero coordinates and altitudes
    /// and empty strings are filled from the other record, and a
    /// callsign without a recognised shape yields to one with a shape.
    pub fn combine_with(self, rhs: Self) -> (r: Self)
        ensures
            fused_fields(spec_lead(self, rhs), spec_trail(self, rhs), r),
    {
        let lead_is_self = if rhs.timestamp < self.timestamp {
            true
        } else if self.timestamp < rhs.timestamp {
            false
        } else {
            crate::text::str_le(self.provider.as_str(), rhs.provider.as_str())
        };
        let (hi, lo) = if lead_is_self {
            (self, rhs)
        } else {
            (rhs, self)
        };
        let hi_callsign_ok = crate::patterns::is_valid_callsign(hi.callsign.as_str());
        let lo_callsign_ok = crate::patterns::is_valid_callsign(lo.callsign.as_str());
        AircraftData {
            squawk: if !hi.squawk.as_str().is_empty() {
                hi.squawk
            } else {
                lo.squawk
            },
            callsign: if hi_callsign_ok || !lo_callsign_ok {
                hi.callsign
            } else {
                lo.callsign
            },
            is_on_ground: hi.is_on_ground,
            latitude: if hi.latitude != 0 {
                hi.latitude
            } else {
                lo.latitude
            },
            longitude: if hi.longitude != 0 {
                hi.longitude
            } else {
                lo.longitude
            },
            heading: hi.heading,
            ground_speed: hi.ground_speed,
            timestamp: hi.timestamp,
            altitude: if hi.altitude != 0 {
                hi.altitude
            } else {
                lo.altitude
            },
            model: if !hi.model.as_str().is_empty() {
                hi.model
            } else {
                lo.model
            },
            hex: hi.hex,
            origin: if !hi.origin.as_str().is_empty() {
                hi.origin
            } else {
                lo.origin
            },
            destination: if !hi.destination.as_str().is_empty() {
                hi.destination
            } else {
                lo.destination
            },
            provider: String::from_str("Combined"),
        }
    }
}

/// Which of two records leads a fusion: the newer provider timestamp,
/// or on a tie the provider tag that sorts lexicographically first.
pub open spec fn spec_leads(a: AircraftData, b: AircraftData) -> bool {
    b.timestamp < a.timestamp || (a.timestamp == b.timestamp && lex_le(a.provider@, b.provider@))
}

/// The leading record of a fusion.
pub open spec fn spec_lead(a: AircraftData, b: AircraftData) -> AircraftData {
    if spec_leads(a, b) {
        a
    } else {
        b
    }
}

/// The trailing record of a fusion.
pub open spec fn spec_trail(a: AircraftData, b: AircraftData) -> AircraftData {
    if spec_leads(a, b) {
        b
    } else {
        a
    }
}

/// What a fused record holds, field by field, given the leading and
/// trailing records: the lead's timestamp (the maximum of the two) and
/// kinematics, with zero coordinates and altitudes and empty strings
/// filled from the trail, and the first recognisable callsign.
pub open spec fn fused_fields(hi: AircraftData, lo: AircraftData, r: AircraftData) -> bool {
    &&& r.timestamp == hi.timestamp
    &&& r.latitude == (if hi.latitude != 0 {
        hi.latitude
    } else {
        lo.latitude
    })
    &&& r.longitude == (if hi.longitude != 0 {
        hi.longitude
    } else {
        lo.longitude
    })
    &&& r.altitude == (if hi.altitude != 0 {
        hi.altitude
    } else {
        lo.altitude
    })
    &&& r.heading == hi.heading
    &&& r.ground_speed == hi.ground_speed
    &&& r.is_on_ground == hi.is_on_ground
    &&& r.squawk == (if hi.squawk@.len() != 0 {
        hi.squawk
    } else {
        lo.squawk
    })
    &&& r.callsign == (if has_callsign_shape(hi.callsign@) || has_registration_shape(hi.callsign@)
        || !(has_callsign_shape(lo.callsign@) || has_registration_shape(lo.callsign@)) {
        hi.callsign
    } else {
        lo.callsign
    })
    &&& r.model == (if hi.model@.len() != 0 {
        hi.model
    } else {
        lo.model
    })
    &&& r.hex == hi.hex
    &&& r.origin == (if hi.origin@.len() != 0 {
        hi.origin
    } else {
        lo.origin
    })
    &&& r.destination == (if hi.destination@.len() != 0 {
        hi.destination
    } else {
        lo.destination
    })
    &&& r.provider@ == "Combined"@
}

/// Law: fusing two observations is order-independent — both argument
/// orders yield the same record — whenever the two records differ in
/// timestamp or in provider tag.
pub proof fn lemma_combine_order_independent(a: AircraftData, b: AircraftData)
    requires
        a.timestamp != b.timestamp || a.provider@ != b.provider@,
    ensures
        spec_lead(a, b) == spec_lead(b, a),
        spec_trail(a, b) == spec_trail(b, a),
{
    if a.timestamp == b.timestamp {
        lemma_lex_le_antisymmetric(a.provider@, b.provider@);
    }
}

} // verus!
