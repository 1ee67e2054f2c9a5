use livetraffic::aircraft::AircraftData;
use livetraffic::flightplan::{Aircraft, Airport, FlightPlan, PartialFlightPlan, Times};
use livetraffic::fsd::{build_aircraft_string, build_beacon_code_string, build_flightplan_string};
use livetraffic::tracker::Tracker;

fn snap(
    hex: &str,
    callsign: &str,
    lat: i64,
    lon: i64,
    heading: u32,
    ground_speed: u32,
    altitude: i32,
    timestamp: u64,
    squawk: &str,
) -> (String, AircraftData) {
    (
        hex.to_string(),
        AircraftData {
            squawk: squawk.to_string(),
            callsign: callsign.to_string(),
            is_on_ground: false,
            latitude: lat,
            longitude: lon,
            heading,
            ground_speed,
            timestamp,
            altitude,
            model: "B738".to_string(),
            hex: hex.to_string(),
            origin: "JFK".to_string(),
            destination: "LAX".to_string(),
            provider: "TestFeed".to_string(),
        },
    )
}

fn simple_fp() -> FlightPlan {
    FlightPlan {
        origin: Airport {
            icao: "KJFK".to_string(),
            gate: None,
            terminal: None,
        },
        destination: Airport {
            icao: "KLAX".to_string(),
            gate: None,
            terminal: None,
        },
        equipment: Aircraft {
            ac_type: "B738".to_string(),
        },
        fp: PartialFlightPlan {
            speed: 450,
            altitude: 35000,
            route: "DCT".to_string(),
        },
        arrival_time: None,
        departure_time: None,
    }
}

#[test]
fn steady_state_position_line() {
    // One snapshot at 40.0 / -74.0, heading 90, 360 knots. Five seconds
    // later the emitted position has drifted east by about 0.00916 deg.
    let mut t = Tracker::new(0, 99999);
    t.push_batch(vec![snap(
        "A1B2C3", "UAL123", 40_000_000, -74_000_000, 90, 360, 10000, 1000, "1234",
    )]);
    t.step(1000);
    assert!(t.aircraft_exists(&"A1B2C3".to_string()));
    assert_eq!(t.track_count(), 1);
    let pos = t.interpolate_track(0, 6000);
    assert_eq!(pos.lat, 40_000_000);
    assert_eq!(pos.lon, -74_000_000 + 9157);
    let td = t.track_at(0);
    let line = build_aircraft_string(&td.ac_data, pos);
    assert_eq!(line, "@N:UAL123:1234:1:40.0:-73.990843:10000:360:1024:0\r\n");
}

#[test]
fn duplicate_hex_first_snapshot_wins() {
    let mut t = Tracker::new(0, 99999);
    let (id1, mut a) = snap(
        "A1B2C3", "UAL123", 40_000_000, -74_000_000, 90, 360, 10000, 1000, "1234",
    );
    a.model = "B738".to_string();
    let (id2, mut b) = snap(
        "A1B2C3", "UAL123", 40_100_000, -74_000_000, 90, 360, 11000, 2000, "1234",
    );
    b.model = "A320".to_string();
    t.push_batch(vec![(id1, a), (id2, b)]);
    t.step(1000);
    assert_eq!(t.track_count(), 1);
    let td = t.get_data_for_callsign(&"UAL123".to_string()).unwrap();
    assert_eq!(td.ac_data.model, "B738");
    assert_eq!(td.ac_data.altitude, 10000);
}

#[test]
fn short_callsign_creates_no_track() {
    // DAL9 is four characters and no registration: neither hex gets a track.
    let mut t = Tracker::new(0, 99999);
    t.push_batch(vec![
        snap("AAAAAA", "DAL9", 40_000_000, -74_000_000, 0, 100, 5000, 1000, "1200"),
        snap("BBBBBB", "DAL9", 41_000_000, -73_000_000, 0, 100, 5000, 1000, "1200"),
    ]);
    t.step(1000);
    assert_eq!(t.track_count(), 0);
}

#[test]
fn registration_callsign_creates_track() {
    let mut t = Tracker::new(0, 99999);
    t.push_batch(vec![snap(
        "C0FFEE", "N12AB", 40_000_000, -74_000_000, 0, 100, 5000, 1000, "1200",
    )]);
    t.step(1000);
    assert_eq!(t.track_count(), 1);
}

#[test]
fn blank_callsign_creates_no_track() {
    let mut t = Tracker::new(0, 99999);
    t.push_batch(vec![snap(
        "A1B2C3", "   ", 40_000_000, -74_000_000, 0, 100, 5000, 1000, "1200",
    )]);
    t.step(1000);
    assert_eq!(t.track_count(), 0);
}

#[test]
fn altitude_band_filters_snapshots() {
    let mut t = Tracker::new(2000, 10000);
    t.push_batch(vec![
        snap("AAAAAA", "UAL123", 40_000_000, -74_000_000, 0, 100, 1999, 1000, "1200"),
        snap("BBBBBB", "DAL456", 40_000_000, -74_000_000, 0, 100, 10001, 1000, "1200"),
        snap("CCCCCC", "AAL789", 40_000_000, -74_000_000, 0, 100, 2000, 1000, "1200"),
    ]);
    t.step(1000);
    assert_eq!(t.track_count(), 1);
    assert!(t.aircraft_exists(&"CCCCCC".to_string()));
}

#[test]
fn callsign_collision_blocks_second_hex() {
    let mut t = Tracker::new(0, 99999);
    t.push_batch(vec![
        snap("AAAAAA", "UAL123", 40_000_000, -74_000_000, 0, 100, 5000, 1000, "1200"),
        snap("BBBBBB", "UAL123", 41_000_000, -73_000_000, 0, 100, 6000, 1000, "1200"),
    ]);
    t.step(1000);
    assert_eq!(t.track_count(), 1);
    assert!(t.aircraft_exists(&"AAAAAA".to_string()));
    assert!(!t.aircraft_exists(&"BBBBBB".to_string()));
}

#[test]
fn buffering_holds_batches_back() {
    let mut t = Tracker::new(0, 99999);
    t.start_buffering();
    assert!(t.is_buffering());
    t.push_batch(vec![snap(
        "A1B2C3", "UAL123", 40_000_000, -74_000_000, 0, 100, 5000, 1000, "1200",
    )]);
    t.push_batch(vec![snap(
        "A1B2C3", "UAL123", 40_010_000, -74_000_000, 0, 100, 5000, 1005, "1200",
    )]);
    t.step(1000);
    t.step(2000);
    assert_eq!(t.track_count(), 0);
    t.stop_buffering();
    t.step(3000);
    assert_eq!(t.track_count(), 1);
    assert_eq!(t.track_at(0).ac_data.timestamp, 1000);
    t.step(4000);
    assert_eq!(t.track_count(), 1);
    assert_eq!(t.track_at(0).ac_data.timestamp, 1005);
}

#[test]
fn older_timestamp_is_dropped() {
    let mut t = Tracker::new(0, 99999);
    t.push_batch(vec![snap(
        "A1B2C3", "UAL123", 40_000_000, -74_000_000, 0, 100, 5000, 1000, "1200",
    )]);
    t.step(1000);
    t.push_batch(vec![snap(
        "A1B2C3", "UAL123", 41_000_000, -74_000_000, 0, 100, 6000, 999, "1200",
    )]);
    t.step(2000);
    let td = t.track_at(0);
    assert_eq!(td.ac_data.latitude, 40_000_000);
    assert_eq!(td.ac_data.timestamp, 1000);
    t.push_batch(vec![snap(
        "A1B2C3", "UAL123", 41_000_000, -74_000_000, 0, 100, 6000, 1001, "1200",
    )]);
    t.step(3000);
    let td = t.track_at(0);
    assert_eq!(td.ac_data.latitude, 41_000_000);
    assert_eq!(td.ac_data.timestamp, 1001);
}

#[test]
fn update_keeps_track_callsign() {
    let mut t = Tracker::new(0, 99999);
    t.push_batch(vec![snap(
        "A1B2C3", "UAL123", 40_000_000, -74_000_000, 0, 100, 5000, 1000, "1200",
    )]);
    t.step(1000);
    t.push_batch(vec![snap(
        "A1B2C3", "UAL124", 41_000_000, -74_000_000, 0, 100, 5000, 2000, "1200",
    )]);
    t.step(2000);
    assert_eq!(t.track_count(), 1);
    let td = t.get_data_for_callsign(&"UAL123".to_string()).unwrap();
    assert_eq!(td.ac_data.latitude, 41_000_000);
    assert!(t.get_data_for_callsign(&"UAL124".to_string()).is_none());
}

#[test]
fn flightplan_requested_once_for_airliner() {
    let mut t = Tracker::new(0, 99999);
    t.run_faware();
    t.push_batch(vec![snap(
        "ABC123", "AAL55", 40_000_000, -74_000_000, 0, 100, 5000, 1000, "2000",
    )]);
    t.step(1000);
    // Admission itself queues the one request, so a plan can arrive
    // before the next poll.
    let reqs = t.take_flightplan_requests();
    assert_eq!(reqs.len(), 1);
    assert_eq!(reqs[0].id, "ABC123");
    assert_eq!(reqs[0].callsign, "AAL55");
    // No second request, even after further updates.
    t.push_batch(vec![snap(
        "ABC123", "AAL55", 40_100_000, -74_000_000, 0, 100, 5000, 1004, "2000",
    )]);
    t.step(2000);
    assert_eq!(t.take_flightplan_requests().len(), 0);
    t.push_batch(vec![snap(
        "ABC123", "AAL55", 40_200_000, -74_000_000, 0, 100, 5000, 1008, "2000",
    )]);
    t.step(3000);
    assert_eq!(t.take_flightplan_requests().len(), 0);
}

#[test]
fn no_flightplan_request_for_registration() {
    let mut t = Tracker::new(0, 99999);
    t.run_faware();
    t.push_batch(vec![snap(
        "ABC123", "N12AB", 40_000_000, -74_000_000, 0, 100, 5000, 1000, "1200",
    )]);
    t.step(1000);
    assert_eq!(t.take_flightplan_requests().len(), 0);
    assert!(t.track_at(0).fp_did_try_update);
    t.push_batch(vec![snap(
        "ABC123", "N12AB", 40_100_000, -74_000_000, 0, 100, 5000, 1004, "1200",
    )]);
    t.step(2000);
    assert_eq!(t.take_flightplan_requests().len(), 0);
    assert!(t.track_at(0).fp_did_try_update);
}

#[test]
fn flightplan_attached_once_and_kept() {
    let mut t = Tracker::new(0, 99999);
    t.run_faware();
    t.push_batch(vec![snap(
        "ABC123", "AAL55", 40_000_000, -74_000_000, 0, 100, 5000, 1000, "2000",
    )]);
    t.step(1000);
    t.update_flightplan(&"ABC123".to_string(), simple_fp());
    let td = t.track_at(0);
    assert!(td.fp.is_some());
    assert_eq!(td.fp.as_ref().unwrap().fp.route, "DCT");
    // A second arrival never replaces the first plan.
    let mut other = simple_fp();
    other.fp.route = "OTHER".to_string();
    t.update_flightplan(&"ABC123".to_string(), other);
    assert_eq!(t.track_at(0).fp.as_ref().unwrap().fp.route, "DCT");
    // The emitted line and the beacon assignment.
    let td = t.track_at(0);
    let line = build_flightplan_string(td.fp.as_ref().unwrap(), &td.ac_data);
    assert_eq!(
        line,
        "$FPAAL55::I:B738:450:KJFK:0:0:35000:KLAX:0:0:0:0::/v/ Hex ABC123, :DCT\r\n"
    );
    if td.ac_data.squawk != "0000" {
        let bc = build_beacon_code_string("BOS_TWR", &td.ac_data.callsign, &td.ac_data.squawk);
        assert_eq!(bc, "#PCSERVER:BOS_TWR:CCP:BC:AAL55:2000\r\n");
    }
}

#[test]
fn stale_track_is_evicted_with_its_callsign() {
    let mut t = Tracker::new(0, 99999);
    t.push_batch(vec![snap(
        "A1B2C3", "UAL123", 40_000_000, -74_000_000, 0, 100, 5000, 1000, "1200",
    )]);
    t.step(1000);
    assert_eq!(t.track_count(), 1);
    // 25 seconds later a batch arrives without the hex: the track and
    // its callsign entry go, and the callsign is free again.
    t.push_batch(vec![]);
    t.step(26_000);
    assert_eq!(t.track_count(), 0);
    assert!(!t.aircraft_exists(&"A1B2C3".to_string()));
    assert!(t.get_data_for_callsign(&"UAL123".to_string()).is_none());
    t.push_batch(vec![snap(
        "D4E5F6", "UAL123", 41_000_000, -74_000_000, 0, 100, 5000, 2000, "1200",
    )]);
    t.step(27_000);
    assert_eq!(t.track_count(), 1);
    assert!(t.aircraft_exists(&"D4E5F6".to_string()));
}

#[test]
fn fresh_track_survives_eviction_pass() {
    let mut t = Tracker::new(0, 99999);
    t.push_batch(vec![snap(
        "A1B2C3", "UAL123", 40_000_000, -74_000_000, 0, 100, 5000, 1000, "1200",
    )]);
    t.step(1000);
    t.push_batch(vec![snap(
        "A1B2C3", "UAL123", 40_010_000, -74_000_000, 0, 100, 5000, 1004, "1200",
    )]);
    t.step(15_000);
    assert_eq!(t.track_count(), 1);
}

#[test]
fn poll_cadence() {
    let mut t = Tracker::new(0, 99999);
    assert!(t.should_poll(0));
    t.mark_polled(1000);
    assert!(!t.should_poll(4000));
    assert!(!t.should_poll(5999));
    assert!(t.should_poll(6001));
}
