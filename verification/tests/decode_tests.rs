use livetraffic::aircraft::AircraftData;
use livetraffic::bincraft::{
    convert_char_array_to_string, get_navmodes_from_num, get_track_type_from_num, BoundingLimits,
    NavModes, TrackType,
};
use livetraffic::error::Error;
use livetraffic::inbound::{parse_packet, split_colon, ClientQueryPayload, Packet};
use livetraffic::interpolate::InterpolatePosition;
use livetraffic::patterns::{is_admissible_callsign, is_valid_callsign, matches_registration};

#[test]
fn callsign_patterns() {
    assert!(is_valid_callsign("UAL123"));
    assert!(is_valid_callsign("DAL9"));
    assert!(is_valid_callsign("N12AB"));
    assert!(is_valid_callsign("G-ABCD"));
    assert!(is_valid_callsign("PH-ABC"));
    assert!(is_valid_callsign("xxDAL9yy"));
    assert!(!is_valid_callsign("A320"));
    assert!(!is_valid_callsign(""));
    assert!(!is_valid_callsign("ab12"));
}

#[test]
fn registration_patterns() {
    assert!(matches_registration("N1"));
    assert!(matches_registration("N12345AB"));
    assert!(matches_registration("G-ABCD"));
    assert!(matches_registration("PH-ABC"));
    assert!(!matches_registration("DAL9"));
    assert!(!matches_registration("NAB"));
}

#[test]
fn admission_rule_for_callsigns() {
    assert!(is_admissible_callsign("UAL123"));
    assert!(is_admissible_callsign("N12AB"));
    assert!(!is_admissible_callsign("DAL9"));
    assert!(!is_admissible_callsign("A320"));
}

#[test]
fn airline_prefix() {
    let mut d = AircraftData {
        squawk: "1200".to_string(),
        callsign: "UAL123H".to_string(),
        is_on_ground: false,
        latitude: 0,
        longitude: 0,
        heading: 0,
        ground_speed: 0,
        timestamp: 0,
        altitude: 0,
        model: "".to_string(),
        hex: "".to_string(),
        origin: "".to_string(),
        destination: "".to_string(),
        provider: "".to_string(),
    };
    assert!(d.is_airline());
    assert_eq!(d.get_airline().unwrap(), "UAL123");
    d.callsign = "N12AB".to_string();
    assert!(!d.is_airline());
    assert!(d.get_airline().is_none());
}

fn feed_one_record() -> AircraftData {
    AircraftData {
        squawk: "1234".to_string(),
        callsign: "A320".to_string(),
        is_on_ground: false,
        latitude: 41_000_000,
        longitude: -73_000_000,
        heading: 100,
        ground_speed: 400,
        timestamp: 2000,
        altitude: 12000,
        model: "".to_string(),
        hex: "A1B2C3".to_string(),
        origin: "".to_string(),
        destination: "".to_string(),
        provider: "FeedOne".to_string(),
    }
}

fn feed_two_record() -> AircraftData {
    AircraftData {
        squawk: "7777".to_string(),
        callsign: "UAL123".to_string(),
        is_on_ground: true,
        latitude: 40_000_000,
        longitude: -74_000_000,
        heading: 90,
        ground_speed: 360,
        timestamp: 1000,
        altitude: 10000,
        model: "B738".to_string(),
        hex: "A1B2C3".to_string(),
        origin: "JFK".to_string(),
        destination: "LAX".to_string(),
        provider: "FeedTwo".to_string(),
    }
}

#[test]
fn combine_prefers_newer_kinematics_and_fills_metadata() {
    let newer = AircraftData {
        squawk: "1234".to_string(),
        callsign: "A320".to_string(),
        is_on_ground: false,
        latitude: 41_000_000,
        longitude: -73_000_000,
        heading: 100,
        ground_speed: 400,
        timestamp: 2000,
        altitude: 12000,
        model: "".to_string(),
        hex: "A1B2C3".to_string(),
        origin: "".to_string(),
        destination: "".to_string(),
        provider: "FeedOne".to_string(),
    };
    let older = AircraftData {
        squawk: "7777".to_string(),
        callsign: "UAL123".to_string(),
        is_on_ground: true,
        latitude: 40_000_000,
        longitude: -74_000_000,
        heading: 90,
        ground_speed: 360,
        timestamp: 1000,
        altitude: 10000,
        model: "B738".to_string(),
        hex: "A1B2C3".to_string(),
        origin: "JFK".to_string(),
        destination: "LAX".to_string(),
        provider: "FeedTwo".to_string(),
    };
    let c = newer.combine_with(older);
    // The newer record's callsign has no recognised shape, so the other's
    // fills in; the newer kinematics stay; empty metadata is filled; the
    // merged timestamp is the maximum of the two.
    assert_eq!(c.callsign, "UAL123");
    assert_eq!(c.latitude, 41_000_000);
    assert_eq!(c.heading, 100);
    assert_eq!(c.timestamp, 2000);
    assert_eq!(c.altitude, 12000);
    assert_eq!(c.model, "B738");
    assert_eq!(c.origin, "JFK");
    assert_eq!(c.destination, "LAX");
    assert_eq!(c.squawk, "1234");
    assert_eq!(c.provider, "Combined");
}

#[test]
fn combine_is_order_independent() {
    let one_way = feed_one_record().combine_with(feed_two_record());
    let other_way = feed_two_record().combine_with(feed_one_record());
    assert_eq!(one_way.callsign, other_way.callsign);
    assert_eq!(one_way.timestamp, other_way.timestamp);
    assert_eq!(one_way.latitude, other_way.latitude);
    assert_eq!(one_way.longitude, other_way.longitude);
    assert_eq!(one_way.heading, other_way.heading);
    assert_eq!(one_way.ground_speed, other_way.ground_speed);
    assert_eq!(one_way.altitude, other_way.altitude);
    assert_eq!(one_way.squawk, other_way.squawk);
    assert_eq!(one_way.model, other_way.model);
    assert_eq!(one_way.origin, other_way.origin);
    assert_eq!(one_way.destination, other_way.destination);
    assert_eq!(one_way.is_on_ground, other_way.is_on_ground);
}

#[test]
fn combine_timestamp_tie_breaks_on_provider() {
    let mut a = feed_one_record();
    a.timestamp = 1000;
    let mut b = feed_two_record();
    b.timestamp = 1000;
    // FeedOne sorts before FeedTwo, so it leads both ways around.
    let c1 = a.combine_with(b);
    assert_eq!(c1.heading, 100);
    assert_eq!(c1.squawk, "1234");
    let mut a2 = feed_one_record();
    a2.timestamp = 1000;
    let mut b2 = feed_two_record();
    b2.timestamp = 1000;
    let c2 = b2.combine_with(a2);
    assert_eq!(c2.heading, 100);
    assert_eq!(c2.squawk, "1234");
}

#[test]
fn interpolator_zero_delta_returns_fix() {
    let mut ip = InterpolatePosition::new(40_000_000, -74_000_000, 90, 360, 5000);
    let p = ip.get(5000);
    assert_eq!(p.lat, 40_000_000);
    assert_eq!(p.lon, -74_000_000);
    let cached = ip.get_no_update();
    assert_eq!(cached.lat, 40_000_000);
    assert_eq!(cached.lon, -74_000_000);
}

#[test]
fn interpolator_moves_north() {
    // Heading 0 at 690 knots is ten degrees of latitude per hour.
    let mut ip = InterpolatePosition::new(0, 0, 0, 690, 0);
    let p = ip.get(3_600_000);
    assert_eq!(p.lat, 9_999_997);
    assert_eq!(p.lon, 0);
}

#[test]
fn interpolator_clock_never_runs_backwards() {
    let mut ip = InterpolatePosition::new(40_000_000, -74_000_000, 90, 360, 5000);
    let p = ip.get(4000);
    assert_eq!(p.lat, 40_000_000);
    assert_eq!(p.lon, -74_000_000);
}

#[test]
fn bounding_limits_little_endian() {
    let bytes = [0x10u8, 0x27, 0xF0, 0xD8, 0x00, 0x00, 0xFF, 0x7F, 0xAA];
    let b = BoundingLimits::from_bytes(&bytes);
    assert_eq!(b.south, 10000);
    assert_eq!(b.west, -10000);
    assert_eq!(b.north, 0);
    assert_eq!(b.east, 32767);
}

#[test]
fn track_types() {
    assert!(matches!(get_track_type_from_num(0), TrackType::AdsbIcao));
    assert!(matches!(get_track_type_from_num(4), TrackType::Adsc));
    assert!(matches!(get_track_type_from_num(12), TrackType::ModeAc));
    assert!(matches!(get_track_type_from_num(13), TrackType::Unknown));
    assert!(matches!(get_track_type_from_num(200), TrackType::Unknown));
}

#[test]
fn navmodes_bits() {
    let m = get_navmodes_from_num(0b100101);
    assert_eq!(m.len(), 3);
    assert!(matches!(m[0], NavModes::Autopilot));
    assert!(matches!(m[1], NavModes::AltHold));
    assert!(matches!(m[2], NavModes::Tcas));
    assert_eq!(get_navmodes_from_num(0).len(), 0);
    assert_eq!(get_navmodes_from_num(0b111111).len(), 6);
}

#[test]
fn char_array_decoding() {
    assert_eq!(convert_char_array_to_string(b"UAL123  "), "UAL123  ");
    assert_eq!(convert_char_array_to_string(b""), "");
}

#[test]
fn split_on_colons() {
    let f = split_colon("$CQBOS_TWR:SERVER:ATC:UAL123");
    assert_eq!(f, vec!["$CQBOS_TWR", "SERVER", "ATC", "UAL123"]);
    assert_eq!(split_colon(""), vec![""]);
    assert_eq!(split_colon("a::b"), vec!["a", "", "b"]);
}

#[test]
fn parse_inbound_packets() {
    match parse_packet("$CQBOS_TWR:SERVER:ATC:UAL123") {
        Some(Packet::ClientQuery { from, to, payload }) => {
            assert_eq!(from, "BOS_TWR");
            assert_eq!(to, "SERVER");
            match payload {
                ClientQueryPayload::IsValidATCQuery(Some(target)) => {
                    assert_eq!(target, "UAL123")
                }
                _ => panic!("wrong payload"),
            }
        }
        _ => panic!("wrong packet"),
    }
    match parse_packet("$CQBOS_TWR:SERVER:ATC") {
        Some(Packet::ClientQuery { payload, .. }) => {
            assert!(matches!(payload, ClientQueryPayload::IsValidATCQuery(None)));
        }
        _ => panic!("wrong packet"),
    }
    match parse_packet("$CQBOS_TWR:SERVER:FP:AAL55") {
        Some(Packet::ClientQuery { payload, .. }) => match payload {
            ClientQueryPayload::FlightPlan(cs) => assert_eq!(cs, "AAL55"),
            _ => panic!("wrong payload"),
        },
        _ => panic!("wrong packet"),
    }
    match parse_packet("$AXBOS_TWR:SERVER:METAR:KBOS") {
        Some(Packet::Metar { from, is_response, payload }) => {
            assert_eq!(from, "BOS_TWR");
            assert!(!is_response);
            assert_eq!(payload, "KBOS");
        }
        _ => panic!("wrong packet"),
    }
    match parse_packet("$ARSERVER:BOS_TWR:METAR:KBOS 010151Z") {
        Some(Packet::Metar { is_response, .. }) => assert!(is_response),
        _ => panic!("wrong packet"),
    }
    match parse_packet("#SBBOS_TWR:UAL123:PIR") {
        Some(Packet::PlaneInfoRequest { from, to }) => {
            assert_eq!(from, "BOS_TWR");
            assert_eq!(to, "UAL123");
        }
        _ => panic!("wrong packet"),
    }
    assert!(parse_packet("").is_none());
    assert!(parse_packet("hello world").is_none());
    assert!(parse_packet("$ZZX:Y:Z").is_none());
    // An unknown client-query command still names the sender.
    match parse_packet("$CQBOS_TWR:SERVER:CAPS") {
        Some(Packet::ClientQuery { payload, .. }) => {
            assert!(matches!(payload, ClientQueryPayload::Unknown));
        }
        _ => panic!("wrong packet"),
    }
}

#[test]
fn error_variants_are_distinct() {
    assert_ne!(Error::RequestFailed, Error::NotFound);
    assert_ne!(Error::CsvParseError, Error::JSONParseError);
    assert_eq!(Error::IOError, Error::IOError);
}
