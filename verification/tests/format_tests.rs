use livetraffic::aircraft::AircraftData;
use livetraffic::config::ConfigData;
use livetraffic::flightplan::{normalize_fp_altitude, Aircraft, Airport, FlightPlan, PartialFlightPlan, Times};
use livetraffic::fsd::{
    build_aircraft_string, build_beacon_code_string, build_flightplan_string,
    build_init_flightplan_string, build_metar_string, build_plane_info_string,
    build_validate_atc_string_with_callsign, build_validate_atc_string_without_callsign,
    get_remarks, pbh_from_heading,
};
use livetraffic::geo::LatLon;
use livetraffic::flightradar::FlightRadar;
use livetraffic::geo::{bounds_from_radius, convert_miles_to_lat, convert_miles_to_lon};

fn plain_data(callsign: &str) -> AircraftData {
    AircraftData {
        squawk: "1234".to_string(),
        callsign: callsign.to_string(),
        is_on_ground: false,
        latitude: 40_000_000,
        longitude: -74_000_000,
        heading: 90,
        ground_speed: 360,
        timestamp: 1000,
        altitude: 10000,
        model: "B739".to_string(),
        hex: "A1B2C3".to_string(),
        origin: "JFK".to_string(),
        destination: "LAX".to_string(),
        provider: "TestFeed".to_string(),
    }
}

#[test]
fn pbh_packs_heading_only() {
    assert_eq!(pbh_from_heading(0), 0);
    assert_eq!(pbh_from_heading(90), 1024);
    assert_eq!(pbh_from_heading(180), 2048);
    assert_eq!(pbh_from_heading(359), 4084);
    assert_eq!(pbh_from_heading(450), 1024);
}

#[test]
fn position_line_negative_altitude() {
    let mut d = plain_data("UAL123");
    d.altitude = -50;
    let line = build_aircraft_string(
        &d,
        LatLon {
            lat: 40_500_000,
            lon: -74_000_001,
        },
    );
    assert_eq!(line, "@N:UAL123:1234:1:40.5:-74.000001:-50:360:1024:0\r\n");
}

#[test]
fn remarks_carry_hex() {
    assert_eq!(get_remarks(&plain_data("UAL123")), "Hex A1B2C3");
}

#[test]
fn init_flightplan_airline_is_ifr() {
    let d = plain_data("UAL123");
    let line = build_init_flightplan_string(&d, &"KJFK".to_string(), &"KLAX".to_string());
    assert_eq!(
        line,
        "$FPUAL123::I:B739:0:KJFK:0:0:0:KLAX:0:0:0:0::/v/ Hex A1B2C3:\r\n"
    );
}

#[test]
fn init_flightplan_registration_is_vfr() {
    let d = plain_data("N12AB");
    let line = build_init_flightplan_string(&d, &"JFK".to_string(), &"LAX".to_string());
    assert_eq!(
        line,
        "$FPN12AB::V:B739:0:JFK:0:0:0:LAX:0:0:0:0::/v/ Hex A1B2C3:\r\n"
    );
}

#[test]
fn flightplan_line_with_times_and_gates() {
    let fp = FlightPlan {
        origin: Airport {
            icao: "KJFK".to_string(),
            gate: Some("B6".to_string()),
            terminal: None,
        },
        destination: Airport {
            icao: "KLAX".to_string(),
            gate: Some("52A".to_string()),
            terminal: None,
        },
        equipment: Aircraft {
            ac_type: "B772".to_string(),
        },
        fp: PartialFlightPlan {
            speed: 480,
            altitude: 36000,
            route: "GREKI JUDDS".to_string(),
        },
        arrival_time: Some(Times { scheduled: 17 * 3600 + 45 * 60 }),
        departure_time: Some(Times { scheduled: 14 * 3600 + 25 * 60 }),
    };
    let d = plain_data("AAL55");
    let line = build_flightplan_string(&fp, &d);
    assert_eq!(
        line,
        "$FPAAL55::I:B772:480:KJFK:0:0:36000:KLAX:0:0:0:0::/v/ Hex A1B2C3, STD 1425Z, STA 1745Z, Departure Gate B6, Arrival Gate 52A:GREKI JUDDS\r\n"
    );
}

#[test]
fn time_of_day_wraps_at_midnight() {
    let fp = FlightPlan {
        origin: Airport {
            icao: "KJFK".to_string(),
            gate: None,
            terminal: None,
        },
        destination: Airport {
            icao: "KLAX".to_string(),
            gate: None,
            terminal: None,
        },
        equipment: Aircraft {
            ac_type: "B738".to_string(),
        },
        fp: PartialFlightPlan {
            speed: 450,
            altitude: 35000,
            route: "DCT".to_string(),
        },
        arrival_time: None,
        // One full day plus five past midnight.
        departure_time: Some(Times { scheduled: 86_400 + 5 * 60 }),
    };
    let d = plain_data("AAL55");
    let line = build_flightplan_string(&fp, &d);
    assert!(line.contains("STD 0005Z, "));
}

#[test]
fn beacon_metar_and_validate_lines() {
    assert_eq!(
        build_beacon_code_string("BOS_TWR", "AAL55", "2000"),
        "#PCSERVER:BOS_TWR:CCP:BC:AAL55:2000\r\n"
    );
    assert_eq!(
        build_metar_string("BOS_TWR", &"KBOS 010151Z 27012KT".to_string()),
        "$ARSERVER:BOS_TWR:METAR:KBOS 010151Z 27012KT\r\n"
    );
    assert_eq!(
        build_validate_atc_string_with_callsign("BOS_TWR"),
        "$CRSERVER:BOS_TWR:ATC:Y:BOS_TWR\r\n"
    );
    assert_eq!(
        build_validate_atc_string_without_callsign("BOS_TWR"),
        "$CRSERVER:BOS_TWR:ATC:Y\r\n"
    );
}

#[test]
fn plane_info_carries_airline_prefix() {
    let d = plain_data("UAL123");
    assert_eq!(
        build_plane_info_string("UAL123", "BOS_TWR", &d),
        "#SBUAL123:BOS_TWR:PI:GEN:EQUIPMENT=B739:UAL123\r\n"
    );
    let g = plain_data("N12AB");
    assert_eq!(
        build_plane_info_string("N12AB", "BOS_TWR", &g),
        "#SBN12AB:BOS_TWR:PI:GEN:EQUIPMENT=B739\r\n"
    );
}

#[test]
fn cruise_altitude_normalisation() {
    assert_eq!(normalize_fp_altitude(0), 0);
    assert_eq!(normalize_fp_altitude(350), 35000);
    assert_eq!(normalize_fp_altitude(999), 99900);
    assert_eq!(normalize_fp_altitude(1000), 1000);
    assert_eq!(normalize_fp_altitude(36000), 36000);
}

#[test]
fn config_defaults() {
    let c = ConfigData::default();
    assert_eq!(c.airport, "");
    assert_eq!(c.range, 30);
    assert_eq!(c.delay, 0);
    assert_eq!(c.floor, 0);
    assert_eq!(c.ceiling, 99999);
    assert!(c.use_flightaware);
}

#[test]
fn mile_conversions() {
    assert_eq!(convert_miles_to_lat(30), 30_000_000 / 69);
    assert_eq!(convert_miles_to_lon(30), 300_000_000 / 546);
    assert_eq!(convert_miles_to_lat(0), 0);
}

#[test]
fn bounds_around_centre() {
    let b = bounds_from_radius(
        LatLon {
            lat: 40_000_000,
            lon: -74_000_000,
        },
        30,
    );
    assert_eq!(b.lat1, 40_000_000 + 434_782);
    assert_eq!(b.lon1, -74_000_000 - 549_450);
    assert_eq!(b.lat2, 40_000_000 - 434_782);
    assert_eq!(b.lon2, -74_000_000 + 549_450);
}

#[test]
fn provider_url_two_decimals() {
    let b = bounds_from_radius(
        LatLon {
            lat: 40_000_000,
            lon: -74_000_000,
        },
        30,
    );
    let p = FlightRadar::new(&b);
    let url = p.base_url();
    assert!(url.starts_with("https://data-live.flightradar24.com/"));
    assert!(url.ends_with("&bounds=40.43,39.57,-74.55,-73.45"));
}
