//! Outbound FSD lines. Each builder's contract states the exact
//! character sequence written to the wire, so a session layer can pass
//! the strings through untouched.

use vstd::prelude::*;

use crate::aircraft::AircraftData;
use crate::flightplan::{append_hhmmz, hhmmz_of, FlightPlan};
use crate::geo::LatLon;
use crate::patterns::{digit_run_end, is_airline_seq};
use crate::text::{append_i64, append_microdeg, append_u64, dec_of, dec_signed, microdeg_str};

verus! {

/// The packed pitch/bank/heading word of a position line: pitch and bank
/// are zero, the heading is scaled to ten bits and shifted up two.
pub open spec fn spec_pbh(heading: int) -> int {
    heading % 360 * 1024 / 360 * 4
}

/// Packs a heading into the pitch/bank/heading word.
pub fn pbh_from_heading(heading: u32) -> (r: u32)
    ensures
        r == spec_pbh(heading as int),
        r < 4096,
{
    let h = heading % 360;
    h * 1024 / 360 * 4
}

/// A position line.
pub open spec fn position_line(
    callsign: Seq<char>,
    squawk: Seq<char>,
    lat: int,
    lon: int,
    altitude: int,
    ground_speed: int,
    pbh: int,
) -> Seq<char> {
    "@N:"@ + callsign + ":"@ + squawk + ":1:"@ + microdeg_str(lat) + ":"@ + microdeg_str(lon)
        + ":"@ + dec_signed(altitude) + ":"@ + dec_of(ground_speed as nat) + ":"@ + dec_of(
        pbh as nat,
    ) + ":0\r\n"@
}

/// Builds the position line of one aircraft at an extrapolated position.
pub fn build_aircraft_string(ac_data: &AircraftData, pos: LatLon) -> (r: String)
    requires
        pos.lat != i64::MIN,
        pos.lon != i64::MIN,
    ensures
        r@ == position_line(
            ac_data.callsign@,
            ac_data.squawk@,
            pos.lat as int,
            pos.lon as int,
            ac_data.altitude as int,
            ac_data.ground_speed as int,
            spec_pbh(ac_data.heading as int),
        ),
{
    let mut s = String::new();
    s.append("@N:");
    s.append(ac_data.callsign.as_str());
    s.append(":");
    s.append(ac_data.squawk.as_str());
    s.append(":1:");
    append_microdeg(&mut s, pos.lat);
    s.append(":");
    append_microdeg(&mut s, pos.lon);
    s.append(":");
    append_i64(&mut s, ac_data.altitude as i64);
    s.append(":");
    append_u64(&mut s, ac_data.ground_speed as u64);
    s.append(":");
    let pbh = pbh_from_heading(ac_data.heading);
    append_u64(&mut s, pbh as u64);
    s.append(":0\r\n");
    proof {
        assert(s@ =~= position_line(
            ac_data.callsign@,
            ac_data.squawk@,
            pos.lat as int,
            pos.lon as int,
            ac_data.altitude as int,
            ac_data.ground_speed as int,
            spec_pbh(ac_data.heading as int),
        ));
    }
    s
}

/// The remarks every aircraft carries: its hex id.
pub fn get_remarks(ac_data: &AircraftData) -> (r: String)
    ensures
        r@ == "Hex "@ + ac_data.hex@,
{
    let mut s = String::new();
    s.append("Hex ");
    s.append(ac_data.hex.as_str());
    proof {
        assert(s@ =~= "Hex "@ + ac_data.hex@);
    }
    s
}

/// The placeholder flight-plan line emitted before a real plan is known:
/// flight rules I for airline-shaped callsigns, V otherwise, with the
/// snapshot's model, origin and destination.
pub open spec fn init_flightplan_line(
    callsign: Seq<char>,
    airline: bool,
    model: Seq<char>,
    origin: Seq<char>,
    destination: Seq<char>,
    hex: Seq<char>,
) -> Seq<char> {
    "$FP"@ + callsign + "::"@ + (if airline {
        "I"@
    } else {
        "V"@
    }) + ":"@ + model + ":0:"@ + origin + ":0:0:0:"@ + destination + ":0:0:0:0::/v/ Hex "@ + hex
        + ":\r\n"@
}

/// Builds the placeholder flight-plan line. The caller resolves the
/// origin and destination to ICAO codes where it can.
pub fn build_init_flightplan_string(
    ac_data: &AircraftData,
    origin: &String,
    destination: &String,
) -> (r: String)
    ensures
        r@ == init_flightplan_line(
            ac_data.callsign@,
            is_airline_seq(ac_data.callsign@),
            ac_data.model@,
            origin@,
            destination@,
            ac_data.hex@,
        ),
{
    let mut s = String::new();
    s.append("$FP");
    s.append(ac_data.callsign.as_str());
    s.append("::");
    if ac_data.is_airline() {
        s.append("I");
    } else {
        s.append("V");
    }
    s.append(":");
    s.append(ac_data.model.as_str());
    s.append(":0:");
    s.append(origin.as_str());
    s.append(":0:0:0:");
    s.append(destination.as_str());
    s.append(":0:0:0:0::/v/ Hex ");
    s.append(ac_data.hex.as_str());
    s.append(":\r\n");
    proof {
        assert(s@ =~= init_flightplan_line(
            ac_data.callsign@,
            is_airline_seq(ac_data.callsign@),
            ac_data.model@,
            origin@,
            destination@,
            ac_data.hex@,
        ));
    }
    s
}

/// The remarks of a real flight-plan line: the hex id, then the
/// scheduled departure and arrival times and the gates, where known.
pub open spec fn flightplan_remarks(fp: FlightPlan, hex: Seq<char>) -> Seq<char> {
    "Hex "@ + hex + ", "@ + (match fp.departure_time {
        Option::Some(t) => "STD "@ + hhmmz_of(t.scheduled as nat) + ", "@,
        Option::None => Seq::empty(),
    }) + (match fp.arrival_time {
        Option::Some(t) => "STA "@ + hhmmz_of(t.scheduled as nat) + ", "@,
        Option::None => Seq::empty(),
    }) + (match fp.origin.gate {
        Option::Some(g) => "Departure Gate "@ + g@ + ", "@,
        Option::None => Seq::empty(),
    }) + (match fp.destination.gate {
        Option::Some(g) => "Arrival Gate "@ + g@,
        Option::None => Seq::empty(),
    })
}

/// A real flight-plan line.
pub open spec fn flightplan_line(fp: FlightPlan, callsign: Seq<char>, hex: Seq<char>) -> Seq<
    char,
> {
    "$FP"@ + callsign + "::I:"@ + fp.equipment.ac_type@ + ":"@ + dec_of(fp.fp.speed as nat) + ":"@
        + fp.origin.icao@ + ":0:0:"@ + dec_of(fp.fp.altitude as nat) + ":"@ + fp.destination.icao@
        + ":0:0:0:0::/v/ "@ + flightplan_remarks(fp, hex) + ":"@ + fp.fp.route@ + "\r\n"@
}

/// Builds the flight-plan line of a track that has a real plan.
#[verifier::rlimit(100)]
pub fn build_flightplan_string(fp: &FlightPlan, ac_data: &AircraftData) -> (r: String)
    ensures
        r@ == flightplan_line(*fp, ac_data.callsign@, ac_data.hex@),
{
    let mut s = String::new();
    s.append("$FP");
    s.append(ac_data.callsign.as_str());
    s.append("::I:");
    s.append(fp.equipment.ac_type.as_str());
    s.append(":");
    append_u64(&mut s, fp.fp.speed);
    s.append(":");
    s.append(fp.origin.icao.as_str());
    s.append(":0:0:");
    append_u64(&mut s, fp.fp.altitude);
    s.append(":");
    s.append(fp.destination.icao.as_str());
    s.append(":0:0:0:0::/v/ ");
    s.append("Hex ");
    s.append(ac_data.hex.as_str());
    s.append(", ");
    match &fp.departure_time {
        Option::Some(t) => {
            s.append("STD ");
            append_hhmmz(&mut s, t.scheduled);
            s.append(", ");
        },
        Option::None => {},
    }
    match &fp.arrival_time {
        Option::Some(t) => {
            s.append("STA ");
            append_hhmmz(&mut s, t.scheduled);
            s.append(", ");
        },
        Option::None => {},
    }
    match &fp.origin.gate {
        Option::Some(g) => {
            s.append("Departure Gate ");
            s.append(g.as_str());
            s.append(", ");
        },
        Option::None => {},
    }
    match &fp.destination.gate {
        Option::Some(g) => {
            s.append("Arrival Gate ");
            s.append(g.as_str());
        },
        Option::None => {},
    }
    s.append(":");
    s.append(fp.fp.route.as_str());
    s.append("\r\n");
    proof {
        assert(s@ =~= flightplan_line(*fp, ac_data.callsign@, ac_data.hex@));
    }
    s
}

/// A beacon-code assignment line.
pub open spec fn beacon_code_line(
    my_callsign: Seq<char>,
    callsign: Seq<char>,
    beacon_code: Seq<char>,
) -> Seq<char> {
    "#PCSERVER:"@ + my_callsign + ":CCP:BC:"@ + callsign + ":"@ + beacon_code + "\r\n"@
}

/// Builds the beacon-code assignment line.
pub fn build_beacon_code_string(my_callsign: &str, callsign: &str, beacon_code: &str) -> (r:
    String)
    ensures
        r@ == beacon_code_line(my_callsign@, callsign@, beacon_code@),
{
    let mut s = String::new();
    s.append("#PCSERVER:");
    s.append(my_callsign);
    s.append(":CCP:BC:");
    s.append(callsign);
    s.append(":");
    s.append(beacon_code);
    s.append("\r\n");
    proof {
        assert(s@ =~= beacon_code_line(my_callsign@, callsign@, beacon_code@));
    }
    s
}

/// A METAR broadcast line.
pub open spec fn metar_line(callsign: Seq<char>, metar: Seq<char>) -> Seq<char> {
    "$ARSERVER:"@ + callsign + ":METAR:"@ + metar + "\r\n"@
}

/// Builds the METAR broadcast line.
pub fn build_metar_string(callsign: &str, metar: &String) -> (r: String)
    ensures
        r@ == metar_line(callsign@, metar@),
{
    let mut s = String::new();
    s.append("$ARSERVER:");
    s.append(callsign);
    s.append(":METAR:");
    s.append(metar.as_str());
    s.append("\r\n");
    proof {
        assert(s@ =~= metar_line(callsign@, metar@));
    }
    s
}

/// The ATC validation line that repeats the callsign.
pub open spec fn validate_atc_with_callsign_line(callsign: Seq<char>) -> Seq<char> {
    "$CRSERVER:"@ + callsign + ":ATC:Y:"@ + callsign + "\r\n"@
}

/// Builds the ATC validation line that repeats the callsign.
pub fn build_validate_atc_string_with_callsign(callsign: &str) -> (r: String)
    ensures
        r@ == validate_atc_with_callsign_line(callsign@),
{
    let mut s = String::new();
    s.append("$CRSERVER:");
    s.append(callsign);
    s.append(":ATC:Y:");
    s.append(callsign);
    s.append("\r\n");
    proof {
        assert(s@ =~= validate_atc_with_callsign_line(callsign@));
    }
    s
}

/// The short ATC validation line.
pub open spec fn validate_atc_without_callsign_line(callsign: Seq<char>) -> Seq<char> {
    "$CRSERVER:"@ + callsign + ":ATC:Y\r\n"@
}

/// Builds the short ATC validation line.
pub fn build_validate_atc_string_without_callsign(callsign: &str) -> (r: String)
    ensures
        r@ == validate_atc_without_callsign_line(callsign@),
{
    let mut s = String::new();
    s.append("$CRSERVER:");
    s.append(callsign);
    s.append(":ATC:Y\r\n");
    proof {
        assert(s@ =~= validate_atc_without_callsign_line(callsign@));
    }
    s
}

/// A plane-information line: the model, and the airline prefix of the
/// callsign when it has one.
pub open spec fn plane_info_line(
    callsign: Seq<char>,
    to: Seq<char>,
    model: Seq<char>,
    ac_callsign: Seq<char>,
) -> Seq<char> {
    "#SB"@ + callsign + ":"@ + to + ":PI:GEN:EQUIPMENT="@ + model + (if is_airline_seq(
        ac_callsign,
    ) {
        ":"@ + ac_callsign.subrange(0, digit_run_end(ac_callsign, 3))
    } else {
        Seq::empty()
    }) + "\r\n"@
}

/// Builds the plane-information line for a tower-view query.
pub fn build_plane_info_string(callsign: &str, to: &str, ac_data: &AircraftData) -> (r: String)
    ensures
        r@ == plane_info_line(callsign@, to@, ac_data.model@, ac_data.callsign@),
{
    let mut s = String::new();
    s.append("#SB");
    s.append(callsign);
    s.append(":");
    s.append(to);
    s.append(":PI:GEN:EQUIPMENT=");
    s.append(ac_data.model.as_str());
    match ac_data.get_airline() {
        Option::Some(airline) => {
            s.append(":");
            s.append(airline.as_str());
        },
        Option::None => {},
    }
    s.append("\r\n");
    proof {
        assert(s@ =~= plane_info_line(callsign@, to@, ac_data.model@, ac_data.callsign@));
    }
    s
}

} // verus!
