//! The aircraft tracker: the identity-stable view of the airspace. It
//! buffers provider batches, admits snapshots through the callsign and
//! altitude filters, keeps the callsign index and the track map mutual
//! inverses, evicts stale tracks, and triggers one flight-plan request
//! per airliner track.
//!
//! Wall-clock instants are milliseconds handed in by the caller; the
//! tracker requires them to be non-decreasing, as a monotonic clock
//! provides.

use vstd::prelude::*;

use crate::aircraft::AircraftData;
use crate::flightplan::{FlightPlan, FlightPlanRequest};
use crate::geo::LatLon;
use crate::interpolate::{spec_fresh, spec_interpolated, InterpolatePosition, MAX_GROUND_SPEED};
use crate::patterns::{has_registration_shape, is_admissible_callsign, is_airline_seq};
use crate::text::{is_blank, spec_is_blank, str_eq};

verus! {

/// Seconds between provider polls.
pub const POLL_RATE: u64 = 4;

/// Milliseconds a track survives without an accepted position update.
pub const EXPIRE_MS: u64 = 20_000;

/// A provider batch: hex and snapshot pairs, duplicates preserved.
pub type AircraftBatch = Vec<(String, AircraftData)>;

/// A snapshot whose values the tracker's arithmetic can carry: the fix
/// lies on the globe and the ground speed is one an aircraft can fly.
pub open spec fn valid_snapshot(d: AircraftData) -> bool {
    &&& -90_000_000 <= d.latitude <= 90_000_000
    &&& -180_000_000 <= d.longitude <= 180_000_000
    &&& d.ground_speed <= MAX_GROUND_SPEED
}

/// Whether the tracker's arithmetic can carry the snapshot.
pub fn check_valid_snapshot(d: &AircraftData) -> (r: bool)
    ensures
        r == valid_snapshot(*d),
{
    -90_000_000 <= d.latitude && d.latitude <= 90_000_000 && -180_000_000 <= d.longitude
        && d.longitude <= 180_000_000 && d.ground_speed <= MAX_GROUND_SPEED
}

/// The durable per-aircraft record, keyed by the provider-stable hex id.
pub struct TrackData {
    pub id: String,
    /// Set once a flight-plan request has been issued; never unset.
    pub fp_did_try_update: bool,
    /// Set at most once; never cleared.
    pub fp: Option<FlightPlan>,
    /// Wall-clock instant of the most recent accepted position update.
    pub at_last_position_update: u64,
    /// Dead-reckons the last confirmed fix.
    pub position: InterpolatePosition,
    /// The latest fused snapshot.
    pub ac_data: AircraftData,
}

impl TrackData {
    /// A fresh track: the snapshot as initial state, the interpolator
    /// initialised from its fix, no flight plan yet.
    pub fn new(id: String, ac_data: AircraftData, now_ms: u64) -> (t: Self)
        requires
            valid_snapshot(ac_data),
        ensures
            t == spec_new_track(id, ac_data, now_ms),
            t.id == id,
            t.ac_data == ac_data,
            !t.fp_did_try_update,
            t.fp is None,
            t.at_last_position_update == now_ms,
            t.position.wf(),
            t.position.spec_valid(),
            t.position.spec_pos() == (LatLon { lat: ac_data.latitude, lon: ac_data.longitude }),
            t.position.spec_fix_ms() == now_ms,
    {
        let position = InterpolatePosition::new(
            ac_data.latitude,
            ac_data.longitude,
            ac_data.heading,
            ac_data.ground_speed,
            now_ms,
        );
        TrackData {
            id,
            fp_did_try_update: false,
            fp: None,
            at_last_position_update: now_ms,
            position,
            ac_data,
        }
    }
}

/// What always holds of one live track: its altitude lies inside the
/// band, its callsign is not blank and could open a track, its snapshot
/// is valid, and its update instant does not outrun the tracker's clock.
pub open spec fn track_wf(t: TrackData, floor: int, ceiling: int, clock_ms: int) -> bool {
    &&& floor <= t.ac_data.altitude <= ceiling
    &&& !spec_is_blank(t.ac_data.callsign@)
    &&& (t.ac_data.callsign@.len() > 4 || has_registration_shape(t.ac_data.callsign@))
    &&& t.position.wf()
    &&& valid_snapshot(t.ac_data)
    &&& t.at_last_position_update <= clock_ms
}

/// How one state of the track map may evolve into another: a track that
/// keeps its id never sees its provider timestamp decrease, never unsets
/// `fp_did_try_update`, and never loses or changes a flight plan once it
/// has one.
pub open spec fn tracks_evolve(a: Seq<TrackData>, b: Seq<TrackData>) -> bool {
    forall|i: int, j: int|
        #![trigger a[i], b[j]]
        0 <= i < a.len() && 0 <= j < b.len() && a[i].id@ == b[j].id@ ==> {
            &&& b[j].ac_data.timestamp >= a[i].ac_data.timestamp
            &&& (a[i].fp_did_try_update ==> b[j].fp_did_try_update)
            &&& (a[i].fp is Some ==> b[j].fp == a[i].fp)
        }
}

/// The track value occurs in the sequence.
pub open spec fn track_in(t: TrackData, b: Seq<TrackData>) -> bool {
    exists|k: int| 0 <= k < b.len() && t == #[trigger] b[k]
}

/// Every id of `a` still names a track in `b`.
pub open spec fn ids_preserved(a: Seq<TrackData>, b: Seq<TrackData>) -> bool {
    forall|i: int|
        0 <= i < a.len() ==> exists|j: int| 0 <= j < b.len() && (#[trigger] a[i]).id@ == b[j].id@
}

/// Track-map evolution composes when no id is lost in the middle state.
pub proof fn lemma_evolve_trans(a: Seq<TrackData>, b: Seq<TrackData>, c: Seq<TrackData>)
    requires
        tracks_evolve(a, b),
        tracks_evolve(b, c),
        ids_preserved(a, b),
    ensures
        tracks_evolve(a, c),
        ids_preserved(a, b),
{
    assert forall|i: int, k: int|
        #![trigger a[i], c[k]]
        0 <= i < a.len() && 0 <= k < c.len() && a[i].id@ == c[k].id@ implies {
        &&& c[k].ac_data.timestamp >= a[i].ac_data.timestamp
        &&& (a[i].fp_did_try_update ==> c[k].fp_did_try_update)
        &&& (a[i].fp is Some ==> c[k].fp == a[i].fp)
    } by {
        let j = choose|j: int| 0 <= j < b.len() && a[i].id@ == b[j].id@;
        assert(a[i].id@ == b[j].id@);
        assert(b[j].ac_data.timestamp >= a[i].ac_data.timestamp);
    }
}

/// The requests of `a` stand unchanged at the front of `b`.
pub open spec fn pending_extends(a: Seq<FlightPlanRequest>, b: Seq<FlightPlanRequest>) -> bool {
    a.len() <= b.len() && forall|i: int| 0 <= i < a.len() ==> a[i] == #[trigger] b[i]
}

/// Evolution survives dropping tracks: whatever `c` keeps of `b`, it
/// still evolves from `a`.
pub proof fn lemma_evolve_membership(a: Seq<TrackData>, b: Seq<TrackData>, c: Seq<TrackData>)
    requires
        tracks_evolve(a, b),
        forall|j: int| 0 <= j < c.len() ==> track_in(#[trigger] c[j], b),
    ensures
        tracks_evolve(a, c),
{
    assert forall|i: int, k: int|
        #![trigger a[i], c[k]]
        0 <= i < a.len() && 0 <= k < c.len() && a[i].id@ == c[k].id@ implies {
        &&& c[k].ac_data.timestamp >= a[i].ac_data.timestamp
        &&& (a[i].fp_did_try_update ==> c[k].fp_did_try_update)
        &&& (a[i].fp is Some ==> c[k].fp == a[i].fp)
    } by {
        assert(track_in(c[k], b));
        let kb = choose|kb: int| 0 <= kb < b.len() && c[k] == #[trigger] b[kb];
        assert(b[kb].ac_data.timestamp >= a[i].ac_data.timestamp);
    }
}

/// Evolution from appending a track whose id is new.
proof fn lemma_evolve_grow(a: Seq<TrackData>, b: Seq<TrackData>, t: TrackData)
    requires
        b == a.push(t),
        forall|x: int| 0 <= x < a.len() ==> (#[trigger] a[x]).id@ != t.id@,
        forall|x: int, y: int|
            0 <= x < y < a.len() ==> (#[trigger] a[x]).id@ != (#[trigger] a[y]).id@,
    ensures
        tracks_evolve(a, b),
        ids_preserved(a, b),
{
    assert forall|x: int, y: int|
        #![trigger a[x], b[y]]
        0 <= x < a.len() && 0 <= y < b.len() && a[x].id@ == b[y].id@ implies {
        &&& b[y].ac_data.timestamp >= a[x].ac_data.timestamp
        &&& (a[x].fp_did_try_update ==> b[y].fp_did_try_update)
        &&& (a[x].fp is Some ==> b[y].fp == a[x].fp)
    } by {
        if y < a.len() {
            assert(b[y] == a[y]);
            if x != y {
                if x < y {
                    assert(a[x].id@ != a[y].id@);
                } else {
                    assert(a[y].id@ != a[x].id@);
                }
            }
        } else {
            assert(b[y] == t);
        }
    }
    assert forall|x: int| 0 <= x < a.len() implies exists|j: int|
        0 <= j < b.len() && (#[trigger] a[x]).id@ == b[j].id@ by {
        assert(a[x].id@ == b[x].id@);
    }
}

/// The id names a live track.
pub open spec fn id_tracked(t: Tracker, id: Seq<char>) -> bool {
    exists|i: int| 0 <= i < t.tracks().len() && (#[trigger] t.tracks()[i]).id@ == id
}

/// The callsign belongs to a live track.
pub open spec fn callsign_tracked(t: Tracker, callsign: Seq<char>) -> bool {
    exists|i: int|
        0 <= i < t.tracks().len() && (#[trigger] t.tracks()[i]).ac_data.callsign@ == callsign
}

/// A track map with distinct ids evolves into itself.
proof fn lemma_evolve_refl(a: Seq<TrackData>)
    requires
        forall|x: int, y: int|
            0 <= x < y < a.len() ==> (#[trigger] a[x]).id@ != (#[trigger] a[y]).id@,
    ensures
        tracks_evolve(a, a),
        ids_preserved(a, a),
{
    assert forall|x: int, y: int|
        #![trigger a[x], a[y]]
        0 <= x < a.len() && 0 <= y < a.len() && a[x].id@ == a[y].id@ implies {
        &&& a[y].ac_data.timestamp >= a[x].ac_data.timestamp
        &&& (a[x].fp_did_try_update ==> a[y].fp_did_try_update)
        &&& (a[x].fp is Some ==> a[y].fp == a[x].fp)
    } by {
        if x != y {
            if x < y {
                assert(a[x].id@ != a[y].id@);
            } else {
                assert(a[y].id@ != a[x].id@);
            }
        }
    }
    assert forall|x: int| 0 <= x < a.len() implies exists|j: int|
        0 <= j < a.len() && (#[trigger] a[x]).id@ == a[j].id@ by {
        assert(a[x].id@ == a[x].id@);
    }
}

/// Evolution from a change that touches only the tracks of one id and
/// moves their fields the allowed way.
proof fn lemma_evolve_by_id(a: Seq<TrackData>, b: Seq<TrackData>, id: Seq<char>)
    requires
        a.len() == b.len(),
        forall|x: int, y: int|
            0 <= x < y < a.len() ==> (#[trigger] a[x]).id@ != (#[trigger] a[y]).id@,
        forall|j: int| 0 <= j < a.len() && (#[trigger] a[j]).id@ != id ==> b[j] == a[j],
        forall|j: int|
            0 <= j < a.len() && (#[trigger] a[j]).id@ == id ==> b[j].id == a[j].id
                && b[j].ac_data.timestamp >= a[j].ac_data.timestamp && (a[j].fp_did_try_update
                ==> b[j].fp_did_try_update) && (a[j].fp is Some ==> b[j].fp == a[j].fp),
    ensures
        tracks_evolve(a, b),
        ids_preserved(a, b),
{
    assert forall|x: int, y: int|
        #![trigger a[x], b[y]]
        0 <= x < a.len() && 0 <= y < b.len() && a[x].id@ == b[y].id@ implies {
        &&& b[y].ac_data.timestamp >= a[x].ac_data.timestamp
        &&& (a[x].fp_did_try_update ==> b[y].fp_did_try_update)
        &&& (a[x].fp is Some ==> b[y].fp == a[x].fp)
    } by {
        assert(b[y].id == a[y].id || b[y] == a[y]);
        if x != y {
            if x < y {
                assert(a[x].id@ != a[y].id@);
            } else {
                assert(a[y].id@ != a[x].id@);
            }
        }
    }
    assert forall|x: int| 0 <= x < a.len() implies exists|j: int|
        0 <= j < b.len() && (#[trigger] a[x]).id@ == b[j].id@ by {
        assert(b[x].id == a[x].id || b[x] == a[x]);
        assert(a[x].id@ == b[x].id@);
    }
}

/// Where the run of tracks without this id that starts at position `i`
/// ends: the index of the first track with the id, or the length when
/// none carries it.
pub open spec fn track_index_from(tracks: Seq<TrackData>, id: Seq<char>, i: int) -> int
    decreases tracks.len() - i,
{
    if 0 <= i < tracks.len() && tracks[i].id@ != id {
        track_index_from(tracks, id, i + 1)
    } else {
        i
    }
}

/// A stretch without the id that ends at a match or at the end pins
/// down the first index.
pub proof fn lemma_track_index_stops(tracks: Seq<TrackData>, id: Seq<char>, i: int, j: int)
    requires
        0 <= i <= j <= tracks.len(),
        forall|k: int| i <= k < j ==> (#[trigger] tracks[k]).id@ != id,
        j == tracks.len() || tracks[j].id@ == id,
    ensures
        track_index_from(tracks, id, i) == j,
    decreases j - i,
{
    if i < j {
        lemma_track_index_stops(tracks, id, i + 1, j);
    }
}

/// The first-index scan stays in bounds, passes only mismatches, and
/// stops on a match.
pub proof fn lemma_track_index_props(tracks: Seq<TrackData>, id: Seq<char>, i: int)
    requires
        0 <= i <= tracks.len(),
    ensures
        ({
            let r = track_index_from(tracks, id, i);
            &&& i <= r <= tracks.len()
            &&& (forall|j: int| i <= j < r ==> (#[trigger] tracks[j]).id@ != id)
            &&& (r < tracks.len() ==> tracks[r].id@ == id)
        }),
    decreases tracks.len() - i,
{
    if i < tracks.len() && tracks[i].id@ != id {
        lemma_track_index_props(tracks, id, i + 1);
    }
}

/// One of the processed ids equals this one.
pub open spec fn spec_seen(processed: Seq<String>, id: Seq<char>) -> bool {
    exists|p: int| 0 <= p < processed.len() && (#[trigger] processed[p])@ == id
}

/// The callsign stands in the index.
pub open spec fn spec_callsign_used(callsigns: Seq<(String, String)>, callsign: Seq<char>) -> bool {
    exists|k: int| 0 <= k < callsigns.len() && (#[trigger] callsigns[k]).0@ == callsign
}

/// The track a fresh admission creates: the snapshot as its state, the
/// interpolator on the snapshot's fix, no plan and no attempt yet.
pub open spec fn spec_new_track(id: String, data: AircraftData, now_ms: u64) -> TrackData {
    TrackData {
        id,
        fp_did_try_update: false,
        fp: Option::None,
        at_last_position_update: now_ms,
        position: spec_fresh(data.latitude, data.longitude, data.heading, data.ground_speed, now_ms),
        ac_data: data,
    }
}

/// What one snapshot does to the track at index `i`: a strictly newer
/// provider timestamp replaces the state — keeping the callsign — and
/// rebuilds the interpolator; otherwise nothing changes.
pub open spec fn spec_update_at(
    tracks: Seq<TrackData>,
    i: int,
    data: AircraftData,
    now_ms: u64,
) -> Seq<TrackData> {
    if data.timestamp > tracks[i].ac_data.timestamp {
        tracks.update(
            i,
            TrackData {
                at_last_position_update: now_ms,
                position: spec_fresh(
                    data.latitude,
                    data.longitude,
                    data.heading,
                    data.ground_speed,
                    now_ms,
                ),
                ac_data: AircraftData { callsign: tracks[i].ac_data.callsign, ..data },
                ..tracks[i]
            },
        )
    } else {
        tracks
    }
}

/// What the flight-plan trigger does to the track at index `i`: while
/// flight plans are enabled, a track without a plan makes its one
/// attempt, and an airline-shaped callsign queues one request.
pub open spec fn spec_flag_at(
    tracks: Seq<TrackData>,
    i: int,
    pending: Seq<FlightPlanRequest>,
    fp_enabled: bool,
) -> (Seq<TrackData>, Seq<FlightPlanRequest>) {
    if fp_enabled && tracks[i].fp is None && !tracks[i].fp_did_try_update {
        (
            tracks.update(i, TrackData { fp_did_try_update: true, ..tracks[i] }),
            if is_airline_seq(tracks[i].ac_data.callsign@) {
                pending.push(
                    FlightPlanRequest { id: tracks[i].id, callsign: tracks[i].ac_data.callsign },
                )
            } else {
                pending
            },
        )
    } else {
        (tracks, pending)
    }
}

/// What one batch entry does to the visible state: a hex already
/// processed in this batch, a blank callsign, an invalid snapshot or an
/// altitude outside the band is dropped; a tracked hex takes the update
/// and the flight-plan trigger; a new hex with a free, admissible
/// callsign joins as a fresh track and takes the trigger; any other new
/// hex is dropped after marking the hex processed.
#[verifier::opaque]
pub open spec fn spec_step_entry(
    tracks: Seq<TrackData>,
    callsigns: Seq<(String, String)>,
    pending: Seq<FlightPlanRequest>,
    processed: Seq<String>,
    id: String,
    data: AircraftData,
    now_ms: u64,
    floor: int,
    ceiling: int,
    fp_enabled: bool,
) -> (Seq<TrackData>, Seq<(String, String)>, Seq<FlightPlanRequest>, Seq<String>) {
    if spec_seen(processed, id@) {
        (tracks, callsigns, pending, processed)
    } else if spec_is_blank(data.callsign@) || !valid_snapshot(data) || !(floor <= data.altitude
        <= ceiling) {
        (tracks, callsigns, pending, processed)
    } else {
        let i = track_index_from(tracks, id@, 0);
        if i < tracks.len() {
            let t1 = spec_update_at(tracks, i, data, now_ms);
            let s = spec_flag_at(t1, i, pending, fp_enabled);
            (s.0, callsigns, s.1, processed.push(id))
        } else if spec_callsign_used(callsigns, data.callsign@) || !(data.callsign@.len() > 4
            || has_registration_shape(data.callsign@)) {
            (tracks, callsigns, pending, processed.push(id))
        } else {
            let t1 = tracks.push(spec_new_track(id, data, now_ms));
            let s = spec_flag_at(t1, tracks.len() as int, pending, fp_enabled);
            (s.0, callsigns.push((data.callsign, id)), s.1, processed.push(id))
        }
    }
}

/// What the remainder of a batch does to the visible state, one entry
/// at a time, front first.
#[verifier::opaque]
pub open spec fn spec_apply_entries(
    tracks: Seq<TrackData>,
    callsigns: Seq<(String, String)>,
    pending: Seq<FlightPlanRequest>,
    processed: Seq<String>,
    batch: Seq<(String, AircraftData)>,
    now_ms: u64,
    floor: int,
    ceiling: int,
    fp_enabled: bool,
) -> (Seq<TrackData>, Seq<(String, String)>, Seq<FlightPlanRequest>)
    decreases batch.len(),
{
    if batch.len() == 0 {
        (tracks, callsigns, pending)
    } else {
        let s = spec_step_entry(
            tracks,
            callsigns,
            pending,
            processed,
            batch[0].0,
            batch[0].1,
            now_ms,
            floor,
            ceiling,
            fp_enabled,
        );
        spec_apply_entries(
            s.0,
            s.1,
            s.2,
            s.3,
            batch.drop_first(),
            now_ms,
            floor,
            ceiling,
            fp_enabled,
        )
    }
}

/// What applying one whole batch does to a tracker's visible state.
pub open spec fn spec_apply_batch(t: Tracker, batch: Seq<(String, AircraftData)>, now_ms: u64) -> (
    Seq<TrackData>,
    Seq<(String, String)>,
    Seq<FlightPlanRequest>,
) {
    spec_apply_entries(
        t.tracks(),
        t.callsigns(),
        t.pending(),
        Seq::empty(),
        batch,
        now_ms,
        t.spec_floor() as int,
        t.spec_ceiling() as int,
        t.spec_fp_enabled(),
    )
}

/// Unfolds one batch step for a hex already processed in this batch.
proof fn lemma_step_skip(
    tracks: Seq<TrackData>,
    callsigns: Seq<(String, String)>,
    pending: Seq<FlightPlanRequest>,
    processed: Seq<String>,
    id: String,
    data: AircraftData,
    now_ms: u64,
    fl: int,
    ce: int,
    en: bool,
)
    requires
        spec_seen(processed, id@),
    ensures
        spec_step_entry(tracks, callsigns, pending, processed, id, data, now_ms, fl, ce, en) == (
        tracks,
        callsigns,
        pending,
        processed,
        ),
{
    reveal(spec_step_entry);
}

/// Unfolds one batch step for a snapshot that fails a filter.
proof fn lemma_step_filtered(
    tracks: Seq<TrackData>,
    callsigns: Seq<(String, String)>,
    pending: Seq<FlightPlanRequest>,
    processed: Seq<String>,
    id: String,
    data: AircraftData,
    now_ms: u64,
    fl: int,
    ce: int,
    en: bool,
)
    requires
        !spec_seen(processed, id@),
        spec_is_blank(data.callsign@) || !valid_snapshot(data) || !(fl <= data.altitude <= ce),
    ensures
        spec_step_entry(tracks, callsigns, pending, processed, id, data, now_ms, fl, ce, en) == (
        tracks,
        callsigns,
        pending,
        processed,
        ),
{
    reveal(spec_step_entry);
}

/// Unfolds one batch step for an admitted snapshot of a tracked hex.
proof fn lemma_step_update(
    tracks: Seq<TrackData>,
    callsigns: Seq<(String, String)>,
    pending: Seq<FlightPlanRequest>,
    processed: Seq<String>,
    id: String,
    data: AircraftData,
    now_ms: u64,
    fl: int,
    ce: int,
    en: bool,
)
    requires
        !spec_seen(processed, id@),
        !spec_is_blank(data.callsign@),
        valid_snapshot(data),
        fl <= data.altitude <= ce,
        track_index_from(tracks, id@, 0) < tracks.len(),
    ensures
        spec_step_entry(tracks, callsigns, pending, processed, id, data, now_ms, fl, ce, en) == ({
            let i = track_index_from(tracks, id@, 0);
            let t1 = spec_update_at(tracks, i, data, now_ms);
            let s = spec_flag_at(t1, i, pending, en);
            (s.0, callsigns, s.1, processed.push(id))
        }),
{
    reveal(spec_step_entry);
}

/// Unfolds one batch step for an admitted snapshot of a new hex whose
/// callsign is taken or cannot open a track.
proof fn lemma_step_blocked(
    tracks: Seq<TrackData>,
    callsigns: Seq<(String, String)>,
    pending: Seq<FlightPlanRequest>,
    processed: Seq<String>,
    id: String,
    data: AircraftData,
    now_ms: u64,
    fl: int,
    ce: int,
    en: bool,
)
    requires
        !spec_seen(processed, id@),
        !spec_is_blank(data.callsign@),
        valid_snapshot(data),
        fl <= data.altitude <= ce,
        track_index_from(tracks, id@, 0) == tracks.len(),
        spec_callsign_used(callsigns, data.callsign@) || !(data.callsign@.len() > 4
            || has_registration_shape(data.callsign@)),
    ensures
        spec_step_entry(tracks, callsigns, pending, processed, id, data, now_ms, fl, ce, en) == (
        tracks,
        callsigns,
        pending,
        processed.push(id),
        ),
{
    reveal(spec_step_entry);
}

/// Unfolds one batch step for an admitted snapshot that opens a track.
proof fn lemma_step_create(
    tracks: Seq<TrackData>,
    callsigns: Seq<(String, String)>,
    pending: Seq<FlightPlanRequest>,
    processed: Seq<String>,
    id: String,
    data: AircraftData,
    now_ms: u64,
    fl: int,
    ce: int,
    en: bool,
)
    requires
        !spec_seen(processed, id@),
        !spec_is_blank(data.callsign@),
        valid_snapshot(data),
        fl <= data.altitude <= ce,
        track_index_from(tracks, id@, 0) == tracks.len(),
        !spec_callsign_used(callsigns, data.callsign@),
        data.callsign@.len() > 4 || has_registration_shape(data.callsign@),
    ensures
        spec_step_entry(tracks, callsigns, pending, processed, id, data, now_ms, fl, ce, en) == ({
            let t1 = tracks.push(spec_new_track(id, data, now_ms));
            let s = spec_flag_at(t1, tracks.len() as int, pending, en);
            (s.0, callsigns.push((data.callsign, id)), s.1, processed.push(id))
        }),
{
    reveal(spec_step_entry);
}

/// What eviction keeps: the tracks whose last accepted update is
/// younger than the horizon, with their index entries, in order.
pub open spec fn spec_evict(
    tracks: Seq<TrackData>,
    callsigns: Seq<(String, String)>,
    now_ms: int,
) -> (Seq<TrackData>, Seq<(String, String)>)
    decreases tracks.len(),
{
    if tracks.len() == 0 {
        (Seq::empty(), Seq::empty())
    } else {
        let r = spec_evict(tracks.drop_first(), callsigns.drop_first(), now_ms);
        if now_ms - tracks[0].at_last_position_update < EXPIRE_MS {
            (seq![tracks[0]] + r.0, seq![callsigns[0]] + r.1)
        } else {
            r
        }
    }
}

/// Eviction over a sequence extended at the back keeps the front
/// unchanged and handles the new last element on its own.
pub proof fn lemma_evict_push(
    tracks: Seq<TrackData>,
    callsigns: Seq<(String, String)>,
    t: TrackData,
    c: (String, String),
    now_ms: int,
)
    requires
        tracks.len() == callsigns.len(),
    ensures
        spec_evict(tracks.push(t), callsigns.push(c), now_ms) == ({
            let r = spec_evict(tracks, callsigns, now_ms);
            if now_ms - t.at_last_position_update < EXPIRE_MS {
                (r.0.push(t), r.1.push(c))
            } else {
                r
            }
        }),
    decreases tracks.len(),
{
    if tracks.len() == 0 {
        assert(tracks.push(t).drop_first() =~= tracks);
        assert(callsigns.push(c).drop_first() =~= callsigns);
        assert(spec_evict(tracks, callsigns, now_ms).0 =~= Seq::<TrackData>::empty());
        assert(spec_evict(tracks, callsigns, now_ms).1 =~= Seq::<(String, String)>::empty());
        if now_ms - t.at_last_position_update < EXPIRE_MS {
            assert(seq![t] + Seq::<TrackData>::empty() =~= Seq::<TrackData>::empty().push(t));
            assert(seq![c] + Seq::<(String, String)>::empty() =~= Seq::<(
                String,
                String,
            )>::empty().push(c));
        }
    } else {
        assert(tracks.push(t).drop_first() =~= tracks.drop_first().push(t));
        assert(callsigns.push(c).drop_first() =~= callsigns.drop_first().push(c));
        lemma_evict_push(tracks.drop_first(), callsigns.drop_first(), t, c, now_ms);
        let rr = spec_evict(tracks.drop_first(), callsigns.drop_first(), now_ms);
        if now_ms - tracks[0].at_last_position_update < EXPIRE_MS {
            if now_ms - t.at_last_position_update < EXPIRE_MS {
                assert(seq![tracks[0]] + rr.0.push(t) =~= (seq![tracks[0]] + rr.0).push(t));
                assert(seq![callsigns[0]] + rr.1.push(c) =~= (seq![callsigns[0]] + rr.1).push(c));
            }
        }
    }
}

/// Both states show the same tracks, index, buffer, and pending
/// requests.
pub open spec fn same_view(a: Tracker, b: Tracker) -> bool {
    &&& a.tracks() == b.tracks()
    &&& a.callsigns() == b.callsigns()
    &&& a.buffered() == b.buffered()
    &&& a.pending() == b.pending()
}

/// Both states carry the same configuration and clocks.
pub open spec fn same_config(a: Tracker, b: Tracker) -> bool {
    &&& a.spec_floor() == b.spec_floor()
    &&& a.spec_ceiling() == b.spec_ceiling()
    &&& a.spec_clock() == b.spec_clock()
    &&& a.spec_poll_time() == b.spec_poll_time()
}

/// The airspace view.
pub struct Tracker {
    buffer: Vec<AircraftBatch>,
    is_buffering: bool,
    tracking: Vec<TrackData>,
    callsign_map: Vec<(String, String)>,
    time: Option<u64>,
    clock_ms: u64,
    fp_enabled: bool,
    pending_fp: Vec<FlightPlanRequest>,
    floor: i32,
    ceiling: i32,
}

impl Tracker {
    /// The live tracks.
    pub closed spec fn tracks(self) -> Seq<TrackData> {
        self.tracking@
    }

    /// The callsign index: pair `i` holds the callsign and id of track `i`.
    pub closed spec fn callsigns(self) -> Seq<(String, String)> {
        self.callsign_map@
    }

    /// The batches waiting to be applied, oldest first.
    pub closed spec fn buffered(self) -> Seq<AircraftBatch> {
        self.buffer@
    }

    /// The flight-plan requests the tracker wants issued.
    pub closed spec fn pending(self) -> Seq<FlightPlanRequest> {
        self.pending_fp@
    }

    pub closed spec fn spec_is_buffering(self) -> bool {
        self.is_buffering
    }

    pub closed spec fn spec_floor(self) -> i32 {
        self.floor
    }

    pub closed spec fn spec_ceiling(self) -> i32 {
        self.ceiling
    }

    pub closed spec fn spec_fp_enabled(self) -> bool {
        self.fp_enabled
    }

    /// The high-water mark of the wall clock the tracker has seen.
    pub closed spec fn spec_clock(self) -> u64 {
        self.clock_ms
    }

    /// The instant of the last provider poll, if any.
    pub closed spec fn spec_poll_time(self) -> Option<u64> {
        self.time
    }

    /// The tracker's invariant: tracks carry distinct ids and distinct
    /// callsigns, the callsign index mirrors the track map exactly, and
    /// every track is well formed.
    pub open spec fn wf(self) -> bool {
        &&& forall|i: int, j: int|
            0 <= i < j < self.tracks().len() ==> (#[trigger] self.tracks()[i]).id@ != (
            #[trigger] self.tracks()[j]).id@
        &&& forall|i: int, j: int|
            0 <= i < j < self.tracks().len() ==> (#[trigger] self.tracks()[i]).ac_data.callsign@
                != (#[trigger] self.tracks()[j]).ac_data.callsign@
        &&& self.callsigns().len() == self.tracks().len()
        &&& forall|i: int|
            0 <= i < self.tracks().len() ==> (#[trigger] self.callsigns()[i]).0@
                == self.tracks()[i].ac_data.callsign@ && self.callsigns()[i].1@
                == self.tracks()[i].id@
        &&& forall|i: int|
            0 <= i < self.tracks().len() ==> track_wf(
                #[trigger] self.tracks()[i],
                self.spec_floor() as int,
                self.spec_ceiling() as int,
                self.spec_clock() as int,
            )
    }

    /// A fresh tracker for an altitude band.
    pub fn new(floor: i32, ceiling: i32) -> (t: Self)
        ensures
            t.wf(),
            t.tracks().len() == 0,
            t.callsigns().len() == 0,
            t.buffered().len() == 0,
            t.pending().len() == 0,
            !t.spec_is_buffering(),
            !t.spec_fp_enabled(),
            t.spec_floor() == floor,
            t.spec_ceiling() == ceiling,
            t.spec_clock() == 0,
            t.spec_poll_time() is None,
    {
        Tracker {
            buffer: Vec::new(),
            is_buffering: false,
            tracking: Vec::new(),
            callsign_map: Vec::new(),
            time: None,
            clock_ms: 0,
            fp_enabled: false,
            pending_fp: Vec::new(),
            floor,
            ceiling,
        }
    }

    /// Allows the tracker to issue flight-plan requests; the fetching
    /// itself runs outside the library.
    pub fn run_faware(&mut self)
        ensures
            same_view(*old(self), *final(self)),
            same_config(*old(self), *final(self)),
            final(self).spec_is_buffering() == old(self).spec_is_buffering(),
            final(self).spec_fp_enabled(),
            old(self).wf() ==> final(self).wf(),
    {
        self.fp_enabled = true;
    }

    pub fn start_buffering(&mut self)
        ensures
            same_view(*old(self), *final(self)),
            same_config(*old(self), *final(self)),
            final(self).spec_fp_enabled() == old(self).spec_fp_enabled(),
            final(self).spec_is_buffering(),
            old(self).wf() ==> final(self).wf(),
    {
        self.is_buffering = true;
    }

    pub fn stop_buffering(&mut self)
        ensures
            same_view(*old(self), *final(self)),
            same_config(*old(self), *final(self)),
            final(self).spec_fp_enabled() == old(self).spec_fp_enabled(),
            !final(self).spec_is_buffering(),
            old(self).wf() ==> final(self).wf(),
    {
        self.is_buffering = false;
    }

    pub fn is_buffering(&self) -> (r: bool)
        ensures
            r == self.spec_is_buffering(),
    {
        self.is_buffering
    }

    /// Whether the polling cadence asks for a fresh provider batch: more
    /// than `POLL_RATE` whole seconds have passed since the last poll, or
    /// no poll has happened yet.
    pub fn should_poll(&self, now_ms: u64) -> (r: bool)
        ensures
            r == match self.spec_poll_time() {
                Option::None => true,
                Option::Some(t) => t <= now_ms && (now_ms - t) / 1000 > POLL_RATE,
            },
    {
        match self.time {
            Option::None => true,
            Option::Some(t) => t <= now_ms && (now_ms - t) / 1000 > POLL_RATE,
        }
    }

    /// Records that a provider poll was issued now.
    pub fn mark_polled(&mut self, now_ms: u64)
        ensures
            same_view(*old(self), *final(self)),
            final(self).spec_floor() == old(self).spec_floor(),
            final(self).spec_ceiling() == old(self).spec_ceiling(),
            final(self).spec_clock() == old(self).spec_clock(),
            final(self).spec_poll_time() == Option::Some(now_ms),
            final(self).spec_is_buffering() == old(self).spec_is_buffering(),
            final(self).spec_fp_enabled() == old(self).spec_fp_enabled(),
            old(self).wf() ==> final(self).wf(),
    {
        self.time = Some(now_ms);
    }

    /// Hands the tracker a fetched batch. The batch always joins the
    /// buffer; nothing of the visible state changes.
    pub fn push_batch(&mut self, batch: AircraftBatch)
        ensures
            final(self).buffered() == old(self).buffered().push(batch),
            final(self).tracks() == old(self).tracks(),
            final(self).callsigns() == old(self).callsigns(),
            final(self).pending() == old(self).pending(),
            final(self).spec_is_buffering() == old(self).spec_is_buffering(),
            final(self).spec_floor() == old(self).spec_floor(),
            final(self).spec_ceiling() == old(self).spec_ceiling(),
            final(self).spec_fp_enabled() == old(self).spec_fp_enabled(),
            final(self).spec_clock() == old(self).spec_clock(),
            final(self).spec_poll_time() == old(self).spec_poll_time(),
            old(self).wf() ==> final(self).wf(),
    {
        self.buffer.push(batch);
    }

    /// The index of the track with this id, if any.
    fn find_track_index(&self, id: &String) -> (r: Option<usize>)
        ensures
            match r {
                Option::Some(i) => i < self.tracks().len() && self.tracks()[i as int].id@ == id@
                    && forall|j: int| 0 <= j < i ==> (#[trigger] self.tracks()[j]).id@ != id@,
                Option::None => forall|i: int|
                    0 <= i < self.tracks().len() ==> (#[trigger] self.tracks()[i]).id@ != id@,
            },
    {
        let mut i: usize = 0;
        while i < self.tracking.len()
            invariant
                i <= self.tracking.len(),
                forall|j: int| 0 <= j < i ==> (#[trigger] self.tracking@[j]).id@ != id@,
            decreases self.tracking.len() - i,
        {
            if str_eq(self.tracking[i].id.as_str(), id.as_str()) {
                return Some(i);
            }
            i += 1;
        }
        None
    }

    /// Whether a callsign is already registered in the index.
    fn callsign_used(&self, callsign: &String) -> (r: bool)
        ensures
            r == exists|i: int|
                0 <= i < self.callsigns().len() && (#[trigger] self.callsigns()[i]).0@
                    == callsign@,
    {
        let mut i: usize = 0;
        while i < self.callsign_map.len()
            invariant
                i <= self.callsign_map.len(),
                forall|j: int| 0 <= j < i ==> (#[trigger] self.callsign_map@[j]).0@ != callsign@,
            decreases self.callsign_map.len() - i,
        {
            if str_eq(self.callsign_map[i].0.as_str(), callsign.as_str()) {
                proof {
                    assert(self.callsigns()[i as int].0@ == callsign@);
                }
                return true;
            }
            i += 1;
        }
        false
    }

    /// Whether a track with this id is live.
    pub fn aircraft_exists(&self, id: &String) -> (r: bool)
        ensures
            r == exists|i: int|
                0 <= i < self.tracks().len() && (#[trigger] self.tracks()[i]).id@ == id@,
    {
        match self.find_track_index(id) {
            Option::Some(_) => true,
            Option::None => false,
        }
    }

    /// The number of live tracks.
    pub fn track_count(&self) -> (r: usize)
        ensures
            r == self.tracks().len(),
    {
        self.tracking.len()
    }

    /// One live track, by index.
    pub fn track_at(&self, i: usize) -> (t: &TrackData)
        requires
            i < self.tracks().len(),
        ensures
            *t == self.tracks()[i as int],
    {
        &self.tracking[i]
    }

    /// The track owning a callsign, through the index.
    pub fn get_data_for_callsign(&self, callsign: &String) -> (r: Option<&TrackData>)
        requires
            self.wf(),
        ensures
            match r {
                Option::Some(t) => exists|i: int|
                    0 <= i < self.tracks().len() && *t == self.tracks()[i]
                        && (#[trigger] self.tracks()[i]).ac_data.callsign@ == callsign@,
                Option::None => forall|i: int|
                    0 <= i < self.tracks().len() ==> (#[trigger] self.tracks()[i]).ac_data.callsign@
                        != callsign@,
            },
    {
        let mut i: usize = 0;
        while i < self.callsign_map.len()
            invariant
                i <= self.callsign_map.len(),
                self.wf(),
                forall|j: int| 0 <= j < i ==> (#[trigger] self.callsign_map@[j]).0@ != callsign@,
            decreases self.callsign_map.len() - i,
        {
            if str_eq(self.callsign_map[i].0.as_str(), callsign.as_str()) {
                proof {
                    assert(self.tracks()[i as int].ac_data.callsign@ == callsign@);
                }
                return Some(&self.tracking[i]);
            }
            i += 1;
        }
        proof {
            assert forall|j: int| 0 <= j < self.tracks().len() implies (
            #[trigger] self.tracks()[j]).ac_data.callsign@ != callsign@ by {
                assert(self.callsigns()[j].0@ != callsign@);
            }
        }
        None
    }

    /// Takes the flight-plan requests issued since the last call.
    pub fn take_flightplan_requests(&mut self) -> (r: Vec<FlightPlanRequest>)
        ensures
            r@ == old(self).pending(),
            final(self).pending().len() == 0,
            final(self).tracks() == old(self).tracks(),
            final(self).callsigns() == old(self).callsigns(),
            final(self).buffered() == old(self).buffered(),
            same_config(*old(self), *final(self)),
            final(self).spec_is_buffering() == old(self).spec_is_buffering(),
            final(self).spec_fp_enabled() == old(self).spec_fp_enabled(),
            old(self).wf() ==> final(self).wf(),
    {
        let mut out: Vec<FlightPlanRequest> = Vec::new();
        core::mem::swap(&mut out, &mut self.pending_fp);
        out
    }

    /// Extrapolates track `i` to `now_ms` and caches the value on the
    /// track; nothing else of the track or the tracker changes.
    pub fn interpolate_track(&mut self, i: usize, now_ms: u64) -> (p: LatLon)
        requires
            old(self).wf(),
            i < old(self).tracks().len(),
        ensures
            final(self).wf(),
            p == spec_interpolated(old(self).tracks()[i as int].position, now_ms as int),
            final(self).tracks().len() == old(self).tracks().len(),
            forall|j: int|
                0 <= j < old(self).tracks().len() && j != i ==> final(self).tracks()[j] == old(
                    self,
                ).tracks()[j],
            final(self).tracks()[i as int] == (TrackData {
                position: final(self).tracks()[i as int].position,
                ..old(self).tracks()[i as int]
            }),
            final(self).tracks()[i as int].position.spec_last() == p,
            final(self).tracks()[i as int].position.spec_pos()
                == old(self).tracks()[i as int].position.spec_pos(),
            final(self).callsigns() == old(self).callsigns(),
            final(self).buffered() == old(self).buffered(),
            final(self).pending() == old(self).pending(),
            final(self).spec_is_buffering() == old(self).spec_is_buffering(),
            final(self).spec_clock() == old(self).spec_clock(),
    {
        let mut td = self.tracking.remove(i);
        let p = td.position.get(now_ms);
        self.tracking.insert(i, td);
        proof {
            assert(self.tracking@ =~= old(self).tracking@.update(
                i as int,
                self.tracking@[i as int],
            ));
        }
        p
    }

    /// Advances the wall-clock high-water mark.
    fn advance_clock(&mut self, now_ms: u64)
        requires
            old(self).wf(),
            now_ms >= old(self).spec_clock(),
        ensures
            final(self).wf(),
            same_view(*old(self), *final(self)),
            final(self).spec_floor() == old(self).spec_floor(),
            final(self).spec_ceiling() == old(self).spec_ceiling(),
            final(self).spec_poll_time() == old(self).spec_poll_time(),
            final(self).spec_is_buffering() == old(self).spec_is_buffering(),
            final(self).spec_fp_enabled() == old(self).spec_fp_enabled(),
            final(self).spec_clock() == now_ms,
    {
        self.clock_ms = now_ms;
    }

    /// Applies one snapshot to the track at index `i`, if the snapshot's
    /// provider timestamp is strictly newer; older or equal timestamps
    /// are dropped. The callsign is part of the track's identity and is
    /// kept.
    fn update_position_at(&mut self, i: usize, data: AircraftData, now_ms: u64)
        requires
            old(self).wf(),
            i < old(self).tracks().len(),
            valid_snapshot(data),
            old(self).spec_floor() <= data.altitude <= old(self).spec_ceiling(),
            now_ms == old(self).spec_clock(),
        ensures
            final(self).wf(),
            final(self).tracks().len() == old(self).tracks().len(),
            forall|j: int|
                0 <= j < old(self).tracks().len() && j != i ==> final(self).tracks()[j] == old(
                    self,
                ).tracks()[j],
            final(self).tracks()[i as int].id == old(self).tracks()[i as int].id,
            final(self).tracks()[i as int].fp == old(self).tracks()[i as int].fp,
            final(self).tracks()[i as int].fp_did_try_update == old(self).tracks()[
                i as int].fp_did_try_update,
            final(self).tracks()[i as int].ac_data.callsign == old(self).tracks()[
                i as int].ac_data.callsign,
            final(self).tracks()[i as int].ac_data.timestamp >= old(self).tracks()[
                i as int].ac_data.timestamp,
            data.timestamp <= old(self).tracks()[i as int].ac_data.timestamp ==> final(self).tracks()[i as int] == old(self).tracks()[i as int],
            data.timestamp > old(self).tracks()[i as int].ac_data.timestamp ==> {
                &&& final(self).tracks()[i as int] == (TrackData {
                    at_last_position_update: now_ms,
                    position: spec_fresh(
                        data.latitude,
                        data.longitude,
                        data.heading,
                        data.ground_speed,
                        now_ms,
                    ),
                    ac_data: (AircraftData {
                        callsign: old(self).tracks()[i as int].ac_data.callsign,
                        ..data
                    }),
                    ..old(self).tracks()[i as int]
                })
                &&& final(self).tracks()[i as int].ac_data.timestamp == data.timestamp
                &&& final(self).tracks()[i as int].ac_data.latitude == data.latitude
                &&& final(self).tracks()[i as int].ac_data.longitude == data.longitude
                &&& final(self).tracks()[i as int].ac_data.altitude == data.altitude
                &&& final(self).tracks()[i as int].ac_data.heading == data.heading
                &&& final(self).tracks()[i as int].ac_data.ground_speed == data.ground_speed
                &&& final(self).tracks()[i as int].at_last_position_update == now_ms
                &&& final(self).tracks()[i as int].position.spec_pos() == (LatLon {
                    lat: data.latitude,
                    lon: data.longitude,
                })
                &&& final(self).tracks()[i as int].position.spec_fix_ms() == now_ms
                &&& final(self).tracks()[i as int].position.spec_valid()
            },
            final(self).callsigns() == old(self).callsigns(),
            final(self).buffered() == old(self).buffered(),
            final(self).pending() == old(self).pending(),
            final(self).spec_is_buffering() == old(self).spec_is_buffering(),
            final(self).spec_fp_enabled() == old(self).spec_fp_enabled(),
            final(self).spec_floor() == old(self).spec_floor(),
            final(self).spec_ceiling() == old(self).spec_ceiling(),
            final(self).spec_clock() == old(self).spec_clock(),
            final(self).spec_poll_time() == old(self).spec_poll_time(),
    {
        let mut td = self.tracking.remove(i);
        if data.timestamp > td.ac_data.timestamp {
            let mut nd = data;
            nd.callsign = td.ac_data.callsign.clone();
            td.position = InterpolatePosition::new(
                nd.latitude,
                nd.longitude,
                nd.heading,
                nd.ground_speed,
                now_ms,
            );
            td.at_last_position_update = now_ms;
            td.ac_data = nd;
        }
        self.tracking.insert(i, td);
        proof {
            assert(self.tracking@ =~= old(self).tracking@.update(
                i as int,
                self.tracking@[i as int],
            ));
        }
    }

    /// Marks the track as attempted and queues a flight-plan request if
    /// the callsign has the airline shape. A track is attempted at most
    /// once, and only while flight plans are enabled.
    fn try_update_flightplan_at(&mut self, i: usize)
        requires
            old(self).wf(),
            i < old(self).tracks().len(),
        ensures
            final(self).wf(),
            final(self).tracks().len() == old(self).tracks().len(),
            forall|j: int|
                0 <= j < old(self).tracks().len() && j != i ==> final(self).tracks()[j] == old(
                    self,
                ).tracks()[j],
            final(self).tracks()[i as int] == (TrackData {
                fp_did_try_update: final(self).tracks()[i as int].fp_did_try_update,
                ..old(self).tracks()[i as int]
            }),
            final(self).tracks()[i as int].fp_did_try_update == (old(self).tracks()[
                i as int].fp_did_try_update || (old(self).spec_fp_enabled() && old(self).tracks()[
                i as int].fp is None)),
            final(self).pending() == (if old(self).spec_fp_enabled() && !old(self).tracks()[
                i as int].fp_did_try_update && old(self).tracks()[i as int].fp is None
                && is_airline_seq(old(self).tracks()[i as int].ac_data.callsign@) {
                old(self).pending().push(
                    FlightPlanRequest {
                        id: old(self).tracks()[i as int].id,
                        callsign: old(self).tracks()[i as int].ac_data.callsign,
                    },
                )
            } else {
                old(self).pending()
            }),
            final(self).callsigns() == old(self).callsigns(),
            final(self).buffered() == old(self).buffered(),
            final(self).spec_is_buffering() == old(self).spec_is_buffering(),
            final(self).spec_fp_enabled() == old(self).spec_fp_enabled(),
            final(self).spec_floor() == old(self).spec_floor(),
            final(self).spec_ceiling() == old(self).spec_ceiling(),
            final(self).spec_clock() == old(self).spec_clock(),
            final(self).spec_poll_time() == old(self).spec_poll_time(),
    {
        if !self.fp_enabled {
            return ;
        }
        let mut td = self.tracking.remove(i);
        if td.fp.is_none() && !td.fp_did_try_update {
            td.fp_did_try_update = true;
            if td.ac_data.is_airline() {
                self.pending_fp.push(
                    FlightPlanRequest {
                        id: td.id.clone(),
                        callsign: td.ac_data.callsign.clone(),
                    },
                );
            }
        }
        self.tracking.insert(i, td);
        proof {
            assert(self.tracking@ =~= old(self).tracking@.update(
                i as int,
                self.tracking@[i as int],
            ));
        }
    }

    /// Attaches a fetched flight plan to its track, if the track is
    /// still live and has no plan yet; a plan is set at most once and
    /// never replaced.
    pub fn update_flightplan(&mut self, id: &String, fp: FlightPlan)
        requires
            old(self).wf(),
        ensures
            final(self).wf(),
            final(self).tracks().len() == old(self).tracks().len(),
            forall|j: int|
                0 <= j < old(self).tracks().len() && old(self).tracks()[j].id@ != id@ ==> final(self).tracks()[j] == old(self).tracks()[j],
            forall|j: int|
                0 <= j < old(self).tracks().len() && old(self).tracks()[j].id@ == id@ ==> final(self).tracks()[j] == (TrackData {
                    fp: final(self).tracks()[j].fp,
                    ..old(self).tracks()[j]
                }) && final(self).tracks()[j].fp == (if old(self).tracks()[j].fp is None {
                    Option::Some(fp)
                } else {
                    old(self).tracks()[j].fp
                }),
            tracks_evolve(old(self).tracks(), final(self).tracks()),
            final(self).callsigns() == old(self).callsigns(),
            final(self).buffered() == old(self).buffered(),
            final(self).pending() == old(self).pending(),
            final(self).spec_is_buffering() == old(self).spec_is_buffering(),
            final(self).spec_fp_enabled() == old(self).spec_fp_enabled(),
            same_config(*old(self), *final(self)),
    {
        match self.find_track_index(id) {
            Option::Some(i) => {
                let mut td = self.tracking.remove(i);
                if td.fp.is_none() {
                    td.fp = Some(fp);
                }
                self.tracking.insert(i, td);
                proof {
                    assert(self.tracking@ =~= old(self).tracking@.update(
                        i as int,
                        self.tracking@[i as int],
                    ));
                }
            },
            Option::None => {},
        }
    }

    /// Evicts every track whose last accepted position update is at
    /// least `EXPIRE_MS` old, together with its callsign index entry.
    fn remove_expired(&mut self, now_ms: u64)
        requires
            old(self).wf(),
            now_ms == old(self).spec_clock(),
        ensures
            final(self).wf(),
            forall|j: int|
                0 <= j < final(self).tracks().len() ==> track_in(
                    #[trigger] final(self).tracks()[j],
                    old(self).tracks(),
                ),
            forall|j: int|
                0 <= j < final(self).tracks().len() ==> now_ms - (#[trigger] final(self).tracks()[
                    j]).at_last_position_update < EXPIRE_MS,
            forall|i: int|
                0 <= i < old(self).tracks().len() && now_ms - (#[trigger] old(self).tracks()[
                    i]).at_last_position_update < EXPIRE_MS ==> track_in(
                    old(self).tracks()[i],
                    final(self).tracks(),
                ),
            ({
                let k = spec_evict(old(self).tracks(), old(self).callsigns(), now_ms as int);
                final(self).tracks() == k.0 && final(self).callsigns() == k.1
            }),
            final(self).buffered() == old(self).buffered(),
            final(self).pending() == old(self).pending(),
            final(self).spec_is_buffering() == old(self).spec_is_buffering(),
            final(self).spec_fp_enabled() == old(self).spec_fp_enabled(),
            same_config(*old(self), *final(self)),
    {
        let ghost pre = *self;
        proof {
            assert forall|j: int| 0 <= j < self.tracking@.len() implies track_in(
                #[trigger] self.tracking@[j],
                pre.tracks(),
            ) by {
                assert(self.tracking@[j] == pre.tracks()[j]);
            }
            assert forall|k: int|
                0 <= k < pre.tracks().len() && now_ms - (#[trigger] pre.tracks()[
                k]).at_last_position_update < EXPIRE_MS implies track_in(
                pre.tracks()[k],
                self.tracking@,
            ) by {
                assert(pre.tracks()[k] == self.tracking@[k]);
            }
            assert(pre.tracks().take(0) =~= Seq::<TrackData>::empty());
            assert(pre.callsigns().take(0) =~= Seq::<(String, String)>::empty());
            assert(spec_evict(
                pre.tracks().take(0),
                pre.callsigns().take(0),
                now_ms as int,
            ).0 =~= Seq::<TrackData>::empty());
            assert(spec_evict(
                pre.tracks().take(0),
                pre.callsigns().take(0),
                now_ms as int,
            ).1 =~= Seq::<(String, String)>::empty());
            assert(self.tracking@ =~= spec_evict(
                pre.tracks().take(0),
                pre.callsigns().take(0),
                now_ms as int,
            ).0 + pre.tracks().skip(0));
            assert(self.callsign_map@ =~= spec_evict(
                pre.tracks().take(0),
                pre.callsigns().take(0),
                now_ms as int,
            ).1 + pre.callsigns().skip(0));
        }
        let mut i: usize = 0;
        while i < self.tracking.len()
            invariant
                self.wf(),
                i <= self.tracking@.len(),
                now_ms == self.spec_clock(),
                forall|j: int|
                    0 <= j < i ==> now_ms - (#[trigger] self.tracking@[j]).at_last_position_update
                        < EXPIRE_MS,
                forall|j: int|
                    0 <= j < self.tracking@.len() ==> track_in(
                        #[trigger] self.tracking@[j],
                        pre.tracks(),
                    ),
                forall|k: int|
                    0 <= k < pre.tracks().len() && now_ms - (#[trigger] pre.tracks()[
                    k]).at_last_position_update < EXPIRE_MS ==> track_in(
                        pre.tracks()[k],
                        self.tracking@,
                    ),
                self.tracking@.len() <= pre.tracks().len(),
                pre.callsigns().len() == pre.tracks().len(),
                i + pre.tracks().len() - self.tracking@.len() <= pre.tracks().len(),
                ({
                    let consumed = i + pre.tracks().len() - self.tracking@.len();
                    let k = spec_evict(
                        pre.tracks().take(consumed as int),
                        pre.callsigns().take(consumed as int),
                        now_ms as int,
                    );
                    &&& self.tracking@ == k.0 + pre.tracks().skip(consumed as int)
                    &&& self.callsign_map@ == k.1 + pre.callsigns().skip(consumed as int)
                    &&& i == k.0.len()
                }),
                self.buffered() == pre.buffered(),
                self.pending() == pre.pending(),
                self.spec_is_buffering() == pre.spec_is_buffering(),
                self.spec_fp_enabled() == pre.spec_fp_enabled(),
                same_config(pre, *self),
            decreases self.tracking@.len() - i,
        {
            let ghost consumed = i + pre.tracks().len() - self.tracking@.len();
            let ghost kpre = spec_evict(
                pre.tracks().take(consumed as int),
                pre.callsigns().take(consumed as int),
                now_ms as int,
            );
            proof {
                assert(self.tracking@[i as int] == pre.tracks()[consumed as int]);
                assert(self.callsign_map@[i as int] == pre.callsigns()[consumed as int]);
                assert(pre.tracks().take(consumed + 1) =~= pre.tracks().take(
                    consumed as int,
                ).push(pre.tracks()[consumed as int]));
                assert(pre.callsigns().take(consumed + 1) =~= pre.callsigns().take(
                    consumed as int,
                ).push(pre.callsigns()[consumed as int]));
                lemma_evict_push(
                    pre.tracks().take(consumed as int),
                    pre.callsigns().take(consumed as int),
                    pre.tracks()[consumed as int],
                    pre.callsigns()[consumed as int],
                    now_ms as int,
                );
            }
            let stale = now_ms - self.tracking[i].at_last_position_update >= EXPIRE_MS;
            if stale {
                let ghost before = self.tracking@;
                self.tracking.remove(i);
                self.callsign_map.remove(i);
                proof {
                    assert(self.tracking@ =~= kpre.0 + pre.tracks().skip(consumed + 1));
                    assert(self.callsign_map@ =~= kpre.1 + pre.callsigns().skip(consumed + 1));
                    assert forall|j: int| 0 <= j < self.tracking@.len() implies track_in(
                        #[trigger] self.tracking@[j],
                        pre.tracks(),
                    ) by {
                        if j < i {
                            assert(self.tracking@[j] == before[j]);
                        } else {
                            assert(self.tracking@[j] == before[j + 1]);
                        }
                    }
                    assert forall|k: int|
                        0 <= k < pre.tracks().len() && now_ms - (#[trigger] pre.tracks()[
                        k]).at_last_position_update < EXPIRE_MS implies track_in(
                        pre.tracks()[k],
                        self.tracking@,
                    ) by {
                        let jb = choose|jb: int|
                            0 <= jb < before.len() && pre.tracks()[k] == #[trigger] before[jb];
                        assert(before[jb].at_last_position_update != before[
                            i as int].at_last_position_update);
                        if jb < i {
                            assert(self.tracking@[jb] == before[jb]);
                        } else {
                            assert(self.tracking@[jb - 1] == before[jb]);
                        }
                    }
                }
            } else {
                proof {
                    let knext = spec_evict(
                        pre.tracks().take(consumed + 1),
                        pre.callsigns().take(consumed + 1),
                        now_ms as int,
                    );
                    assert(knext.0 =~= kpre.0.push(pre.tracks()[consumed as int]));
                    assert(knext.1 =~= kpre.1.push(pre.callsigns()[consumed as int]));
                    assert(self.tracking@ =~= knext.0 + pre.tracks().skip(consumed + 1));
                    assert(self.callsign_map@ =~= knext.1 + pre.callsigns().skip(consumed + 1));
                }
                i += 1;
            }
        }
        proof {
            assert(pre.tracks().take(pre.tracks().len() as int) =~= pre.tracks());
            assert(pre.callsigns().take(pre.callsigns().len() as int) =~= pre.callsigns());
            assert(self.tracking@ =~= self.tracking@ + pre.tracks().skip(
                pre.tracks().len() as int,
            ));
            assert(self.callsign_map@ =~= self.callsign_map@ + pre.callsigns().skip(
                pre.callsigns().len() as int,
            ));
        }
    }

    /// Whether the list already holds this string.
    fn list_contains(v: &Vec<String>, s: &String) -> (r: bool)
        ensures
            r == exists|i: int| 0 <= i < v@.len() && (#[trigger] v@[i])@ == s@,
    {
        let mut i: usize = 0;
        while i < v.len()
            invariant
                i <= v@.len(),
                forall|j: int| 0 <= j < i ==> (#[trigger] v@[j])@ != s@,
            decreases v@.len() - i,
        {
            if str_eq(v[i].as_str(), s.as_str()) {
                proof {
                    assert(v@[i as int]@ == s@);
                }
                return true;
            }
            i += 1;
        }
        false
    }

    /// Applies one snapshot to the track with this id, if any: a strictly
    /// newer provider timestamp replaces the kinematics and rebuilds the
    /// interpolator; an older or equal one is silently dropped. The
    /// track's callsign, flight plan and attempt flag never change here.
    pub fn update_position(&mut self, id: &String, new_ac_data: AircraftData, now_ms: u64)
        requires
            old(self).wf(),
            valid_snapshot(new_ac_data),
            old(self).spec_floor() <= new_ac_data.altitude <= old(self).spec_ceiling(),
            now_ms == old(self).spec_clock(),
        ensures
            final(self).wf(),
            final(self).tracks().len() == old(self).tracks().len(),
            forall|j: int|
                0 <= j < old(self).tracks().len() && (#[trigger] old(self).tracks()[j]).id@ != id@
                    ==> final(self).tracks()[j] == old(self).tracks()[j],
            forall|j: int|
                0 <= j < old(self).tracks().len() && (#[trigger] old(self).tracks()[j]).id@ == id@
                    ==> {
                    let pv = old(self).tracks()[j];
                    let nw = final(self).tracks()[j];
                    &&& nw.id == pv.id
                    &&& nw.fp == pv.fp
                    &&& nw.fp_did_try_update == pv.fp_did_try_update
                    &&& nw.ac_data.callsign == pv.ac_data.callsign
                    &&& (new_ac_data.timestamp <= pv.ac_data.timestamp ==> nw == pv)
                    &&& (new_ac_data.timestamp > pv.ac_data.timestamp ==> {
                        &&& nw.ac_data.timestamp == new_ac_data.timestamp
                        &&& nw.ac_data.latitude == new_ac_data.latitude
                        &&& nw.ac_data.longitude == new_ac_data.longitude
                        &&& nw.ac_data.heading == new_ac_data.heading
                        &&& nw.ac_data.ground_speed == new_ac_data.ground_speed
                        &&& nw.ac_data.altitude == new_ac_data.altitude
                        &&& nw.at_last_position_update == now_ms
                        &&& nw.position.spec_pos() == (LatLon {
                            lat: new_ac_data.latitude,
                            lon: new_ac_data.longitude,
                        })
                        &&& nw.position.spec_fix_ms() == now_ms
                        &&& nw.position.spec_valid()
                    })
                },
            tracks_evolve(old(self).tracks(), final(self).tracks()),
            ids_preserved(old(self).tracks(), final(self).tracks()),
            ({
                let i = track_index_from(old(self).tracks(), id@, 0);
                if i < old(self).tracks().len() {
                    final(self).tracks() == spec_update_at(
                        old(self).tracks(),
                        i,
                        new_ac_data,
                        now_ms,
                    )
                } else {
                    final(self).tracks() == old(self).tracks()
                }
            }),
            final(self).callsigns() == old(self).callsigns(),
            final(self).buffered() == old(self).buffered(),
            final(self).pending() == old(self).pending(),
            final(self).spec_is_buffering() == old(self).spec_is_buffering(),
            final(self).spec_fp_enabled() == old(self).spec_fp_enabled(),
            same_config(*old(self), *final(self)),
    {
        let ghost g_data = new_ac_data;
        match self.find_track_index(id) {
            Option::Some(i) => {
                self.update_position_at(i, new_ac_data, now_ms);
                proof {
                    assert forall|j: int|
                        0 <= j < old(self).tracks().len() && (#[trigger] old(self).tracks()[
                        j]).id@ != id@ implies final(self).tracks()[j] == old(self).tracks()[
                        j] by {
                        assert(j != i);
                    }
                    lemma_evolve_by_id(old(self).tracks(), self.tracks(), id@);
                    lemma_track_index_stops(old(self).tracks(), id@, 0, i as int);
                    let target = spec_update_at(old(self).tracks(), i as int, g_data, now_ms);
                    if g_data.timestamp > old(self).tracks()[i as int].ac_data.timestamp {
                        assert(self.tracks()[i as int] == target[i as int]);
                        assert forall|j: int| 0 <= j < self.tracks().len() implies self.tracks()[
                        j] == target[j] by {
                            if j != i {
                                assert(self.tracks()[j] == old(self).tracks()[j]);
                            }
                        }
                        assert(self.tracks() =~= target);
                    } else {
                        assert(self.tracks() =~= old(self).tracks());
                    }
                }
            },
            Option::None => {
                proof {
                    lemma_evolve_refl(self.tracks());
                    lemma_track_index_stops(
                        old(self).tracks(),
                        id@,
                        0,
                        old(self).tracks().len() as int,
                    );
                }
            },
        }
    }

    /// Marks the track with this id as attempted, at most once, and
    /// queues one flight-plan request if its callsign has the airline
    /// shape; a track that already has a plan, already made its attempt,
    /// or belongs to no airliner queues nothing.
    pub fn try_update_flightplan(&mut self, id: &String)
        requires
            old(self).wf(),
        ensures
            final(self).wf(),
            final(self).tracks().len() == old(self).tracks().len(),
            forall|j: int|
                0 <= j < old(self).tracks().len() && (#[trigger] old(self).tracks()[j]).id@ != id@
                    ==> final(self).tracks()[j] == old(self).tracks()[j],
            forall|j: int|
                0 <= j < old(self).tracks().len() && (#[trigger] old(self).tracks()[j]).id@ == id@
                    ==> {
                    let pv = old(self).tracks()[j];
                    let nw = final(self).tracks()[j];
                    &&& nw == (TrackData { fp_did_try_update: nw.fp_did_try_update, ..pv })
                    &&& nw.fp_did_try_update == (pv.fp_did_try_update || (old(
                        self,
                    ).spec_fp_enabled() && pv.fp is None))
                    &&& final(self).pending() == (if old(self).spec_fp_enabled()
                        && !pv.fp_did_try_update && pv.fp is None && is_airline_seq(
                        pv.ac_data.callsign@,
                    ) {
                        old(self).pending().push(
                            FlightPlanRequest { id: pv.id, callsign: pv.ac_data.callsign },
                        )
                    } else {
                        old(self).pending()
                    })
                },
            !id_tracked(*old(self), id@) ==> final(self).pending() == old(self).pending()
                && final(self).tracks() == old(self).tracks(),
            tracks_evolve(old(self).tracks(), final(self).tracks()),
            ids_preserved(old(self).tracks(), final(self).tracks()),
            pending_extends(old(self).pending(), final(self).pending()),
            ({
                let i = track_index_from(old(self).tracks(), id@, 0);
                if i < old(self).tracks().len() {
                    let s = spec_flag_at(
                        old(self).tracks(),
                        i,
                        old(self).pending(),
                        old(self).spec_fp_enabled(),
                    );
                    final(self).tracks() == s.0 && final(self).pending() == s.1
                } else {
                    final(self).tracks() == old(self).tracks() && final(self).pending() == old(
                        self,
                    ).pending()
                }
            }),
            final(self).callsigns() == old(self).callsigns(),
            final(self).buffered() == old(self).buffered(),
            final(self).spec_is_buffering() == old(self).spec_is_buffering(),
            final(self).spec_fp_enabled() == old(self).spec_fp_enabled(),
            same_config(*old(self), *final(self)),
    {
        match self.find_track_index(id) {
            Option::Some(i) => {
                self.try_update_flightplan_at(i);
                proof {
                    assert forall|j: int|
                        0 <= j < old(self).tracks().len() && (#[trigger] old(self).tracks()[
                        j]).id@ != id@ implies final(self).tracks()[j] == old(self).tracks()[
                        j] by {
                        assert(j != i);
                    }
                    lemma_evolve_by_id(old(self).tracks(), self.tracks(), id@);
                    lemma_track_index_stops(old(self).tracks(), id@, 0, i as int);
                    let s = spec_flag_at(
                        old(self).tracks(),
                        i as int,
                        old(self).pending(),
                        old(self).spec_fp_enabled(),
                    );
                    assert(self.tracks()[i as int] == s.0[i as int]);
                    assert forall|j: int| 0 <= j < self.tracks().len() implies self.tracks()[j]
                        == s.0[j] by {
                        if j != i {
                            assert(self.tracks()[j] == old(self).tracks()[j]);
                        }
                    }
                    assert(self.tracks() =~= s.0);
                    assert(self.pending() =~= s.1);
                }
            },
            Option::None => {
                proof {
                    lemma_evolve_refl(self.tracks());
                    lemma_track_index_stops(
                        old(self).tracks(),
                        id@,
                        0,
                        old(self).tracks().len() as int,
                    );
                }
            },
        }
    }

    /// Admits a snapshot whose hex has no track yet: if the callsign is
    /// unused and may open a track, a fresh track and its index entry are
    /// created and nothing is returned; otherwise — the hex is already
    /// tracked, the callsign is taken, or it cannot open a track — the
    /// snapshot is handed back untouched.
    #[verifier::rlimit(100)]
    pub fn check_and_create_new_aircraft(
        &mut self,
        id: &String,
        data: AircraftData,
        now_ms: u64,
    ) -> (r: Option<AircraftData>)
        requires
            old(self).wf(),
            valid_snapshot(data),
            !spec_is_blank(data.callsign@),
            old(self).spec_floor() <= data.altitude <= old(self).spec_ceiling(),
            now_ms == old(self).spec_clock(),
        ensures
            final(self).wf(),
            tracks_evolve(old(self).tracks(), final(self).tracks()),
            ids_preserved(old(self).tracks(), final(self).tracks()),
            ({
                let rejected = id_tracked(*old(self), id@) || callsign_tracked(
                    *old(self),
                    data.callsign@,
                ) || !(data.callsign@.len() > 4 || has_registration_shape(data.callsign@));
                if rejected {
                    &&& r == Option::Some(data)
                    &&& same_view(*old(self), *final(self))
                } else {
                    &&& r is None
                    &&& final(self).tracks() == old(self).tracks().push(
                        spec_new_track(*id, data, now_ms),
                    )
                    &&& final(self).tracks().len() == old(self).tracks().len() + 1
                    &&& forall|j: int|
                        0 <= j < old(self).tracks().len() ==> final(self).tracks()[j] == old(
                            self,
                        ).tracks()[j]
                    &&& {
                        let tr = final(self).tracks()[old(self).tracks().len() as int];
                        &&& tr.id@ == id@
                        &&& tr.ac_data == data
                        &&& tr.fp is None
                        &&& !tr.fp_did_try_update
                        &&& tr.at_last_position_update == now_ms
                        &&& tr.position.spec_pos() == (LatLon {
                            lat: data.latitude,
                            lon: data.longitude,
                        })
                        &&& tr.position.spec_fix_ms() == now_ms
                        &&& tr.position.spec_valid()
                    }
                    &&& final(self).callsigns() == old(self).callsigns().push(
                        (data.callsign, *id),
                    )
                    &&& final(self).buffered() == old(self).buffered()
                    &&& final(self).pending() == old(self).pending()
                }
            }),
            final(self).spec_is_buffering() == old(self).spec_is_buffering(),
            final(self).spec_fp_enabled() == old(self).spec_fp_enabled(),
            same_config(*old(self), *final(self)),
    {
        match self.find_track_index(id) {
            Option::Some(_) => {
                proof {
                    lemma_evolve_refl(self.tracks());
                }
                Some(data)
            },
            Option::None => {
                if self.callsign_used(&data.callsign) {
                    proof {
                        assert(callsign_tracked(*old(self), data.callsign@)) by {
                            let w = choose|i: int|
                                0 <= i < old(self).callsigns().len() && (#[trigger] old(
                                    self,
                                ).callsigns()[i]).0@ == data.callsign@;
                            assert(old(self).tracks()[w].ac_data.callsign@ == data.callsign@);
                        }
                        lemma_evolve_refl(self.tracks());
                    }
                    return Some(data);
                }
                if !is_admissible_callsign(data.callsign.as_str()) {
                    proof {
                        lemma_evolve_refl(self.tracks());
                    }
                    return Some(data);
                }
                proof {
                    assert(!callsign_tracked(*old(self), data.callsign@)) by {
                        if callsign_tracked(*old(self), data.callsign@) {
                            let w = choose|i: int|
                                0 <= i < old(self).tracks().len() && (#[trigger] old(
                                    self,
                                ).tracks()[i]).ac_data.callsign@ == data.callsign@;
                            assert(old(self).callsigns()[w].0@ == data.callsign@);
                        }
                    }
                }
                let cs = data.callsign.clone();
                let idc = id.clone();
                let idc2 = id.clone();
                let ghost g_data = data;
                let td = TrackData::new(idc, data, now_ms);
                let ghost g_td = td;
                self.callsign_map.push((cs, idc2));
                self.tracking.push(td);
                proof {
                    let n = self.tracks().len() - 1;
                    assert(self.tracks() == old(self).tracks().push(g_td));
                    assert(g_td.id@ == id@);
                    assert(g_td.ac_data == g_data);
                    assert forall|x: int, y: int|
                        0 <= x < y < self.tracks().len() implies (
                    #[trigger] self.tracks()[x]).id@ != (#[trigger] self.tracks()[y]).id@ by {
                        assert(self.tracks()[x] == old(self).tracks()[x]);
                        if y == n {
                            assert(old(self).tracks()[x].id@ != id@);
                        } else {
                            assert(self.tracks()[y] == old(self).tracks()[y]);
                        }
                    }
                    assert forall|x: int, y: int|
                        0 <= x < y < self.tracks().len() implies (
                    #[trigger] self.tracks()[x]).ac_data.callsign@ != (
                    #[trigger] self.tracks()[y]).ac_data.callsign@ by {
                        assert(self.tracks()[x] == old(self).tracks()[x]);
                        if y == n {
                            assert(old(self).callsigns()[x].0@ != g_data.callsign@);
                            assert(old(self).callsigns()[x].0@ == old(self).tracks()[
                                x].ac_data.callsign@);
                        } else {
                            assert(self.tracks()[y] == old(self).tracks()[y]);
                        }
                    }
                    assert forall|i: int|
                        0 <= i < self.tracks().len() implies (#[trigger] self.callsigns()[
                    i]).0@ == self.tracks()[i].ac_data.callsign@ && self.callsigns()[i].1@
                        == self.tracks()[i].id@ by {
                        if i < n {
                            assert(self.callsigns()[i] == old(self).callsigns()[i]);
                            assert(self.tracks()[i] == old(self).tracks()[i]);
                        } else {
                            assert(self.tracks()[i] == g_td);
                        }
                    }
                    assert forall|i: int|
                        0 <= i < self.tracks().len() implies track_wf(
                        #[trigger] self.tracks()[i],
                        self.spec_floor() as int,
                        self.spec_ceiling() as int,
                        self.spec_clock() as int,
                    ) by {
                        if i < n {
                            assert(self.tracks()[i] == old(self).tracks()[i]);
                        } else {
                            assert(self.tracks()[i] == g_td);
                            assert(!spec_is_blank(g_td.ac_data.callsign@));
                            assert(g_td.ac_data.callsign@.len() > 4 || has_registration_shape(
                                g_td.ac_data.callsign@,
                            ));
                        }
                    }
                    assert(g_td == spec_new_track(*id, g_data, now_ms));
                    assert(self.callsigns() =~= old(self).callsigns().push(
                        (g_data.callsign, *id),
                    ));
                    lemma_evolve_grow(old(self).tracks(), self.tracks(), g_td);
                }
                None
            },
        }
    }

    /// Applies one snapshot to an already-tracked hex and runs the
    /// flight-plan trigger on the track: one functional update-and-flag
    /// step of the batch model.
    #[verifier::rlimit(100)]
    fn update_and_flag(&mut self, id: &String, data: AircraftData, now_ms: u64)
        requires
            old(self).wf(),
            valid_snapshot(data),
            old(self).spec_floor() <= data.altitude <= old(self).spec_ceiling(),
            now_ms == old(self).spec_clock(),
        ensures
            final(self).wf(),
            tracks_evolve(old(self).tracks(), final(self).tracks()),
            ids_preserved(old(self).tracks(), final(self).tracks()),
            pending_extends(old(self).pending(), final(self).pending()),
            ({
                let i = track_index_from(old(self).tracks(), id@, 0);
                if i < old(self).tracks().len() {
                    let t1 = spec_update_at(old(self).tracks(), i, data, now_ms);
                    let s = spec_flag_at(t1, i, old(self).pending(), old(self).spec_fp_enabled());
                    final(self).tracks() == s.0 && final(self).pending() == s.1
                } else {
                    final(self).tracks() == old(self).tracks() && final(self).pending() == old(
                        self,
                    ).pending()
                }
            }),
            final(self).callsigns() == old(self).callsigns(),
            final(self).buffered() == old(self).buffered(),
            final(self).spec_is_buffering() == old(self).spec_is_buffering(),
            final(self).spec_fp_enabled() == old(self).spec_fp_enabled(),
            final(self).spec_floor() == old(self).spec_floor(),
            final(self).spec_ceiling() == old(self).spec_ceiling(),
            final(self).spec_clock() == old(self).spec_clock(),
            final(self).spec_poll_time() == old(self).spec_poll_time(),
    {
        let ghost g_data = data;
        let ghost at_entry = *self;
        proof {
            lemma_track_index_props(at_entry.tracks(), id@, 0);
        }
        self.update_position(id, data, now_ms);
        let ghost mid = *self;
        proof {
            let i = track_index_from(at_entry.tracks(), id@, 0);
            if i < at_entry.tracks().len() {
                assert forall|j: int| 0 <= j < mid.tracks().len() implies (
                #[trigger] mid.tracks()[j]).id@ == at_entry.tracks()[j].id@ by {
                    if j != i {
                        assert(mid.tracks()[j] == at_entry.tracks()[j]);
                    }
                }
                lemma_track_index_stops(mid.tracks(), id@, 0, i);
            }
        }
        self.try_update_flightplan(id);
        proof {
            lemma_evolve_trans(at_entry.tracks(), mid.tracks(), self.tracks());
        }
    }

    /// Processes one batch entry: the duplicate-hex check, the admission
    /// filters, and the create-or-update path with the flight-plan
    /// trigger; the outcome is exactly one functional step of the batch
    /// model.
    #[verifier::rlimit(100)]
    fn apply_one_entry(
        &mut self,
        id: String,
        data: AircraftData,
        now_ms: u64,
        processed: &mut Vec<String>,
    )
        requires
            old(self).wf(),
            now_ms == old(self).spec_clock(),
        ensures
            final(self).wf(),
            now_ms == final(self).spec_clock(),
            tracks_evolve(old(self).tracks(), final(self).tracks()),
            ids_preserved(old(self).tracks(), final(self).tracks()),
            pending_extends(old(self).pending(), final(self).pending()),
            ({
                let s = spec_step_entry(
                    old(self).tracks(),
                    old(self).callsigns(),
                    old(self).pending(),
                    old(processed)@,
                    id,
                    data,
                    now_ms,
                    old(self).spec_floor() as int,
                    old(self).spec_ceiling() as int,
                    old(self).spec_fp_enabled(),
                );
                &&& final(self).tracks() == s.0
                &&& final(self).callsigns() == s.1
                &&& final(self).pending() == s.2
                &&& final(processed)@ == s.3
            }),
            final(self).buffered() == old(self).buffered(),
            final(self).spec_is_buffering() == old(self).spec_is_buffering(),
            final(self).spec_fp_enabled() == old(self).spec_fp_enabled(),
            final(self).spec_floor() == old(self).spec_floor(),
            final(self).spec_ceiling() == old(self).spec_ceiling(),
            final(self).spec_poll_time() == old(self).spec_poll_time(),
    {
        let ghost g_id = id;
        let ghost g_data = data;
        let ghost loop_pre = *self;
        let ghost processed_pre = processed@;
        let ghost fl = loop_pre.spec_floor() as int;
        let ghost ce = loop_pre.spec_ceiling() as int;
        let ghost en = loop_pre.spec_fp_enabled();
        let ghost s_entry = spec_step_entry(
            loop_pre.tracks(),
            loop_pre.callsigns(),
            loop_pre.pending(),
            processed_pre,
            g_id,
            g_data,
            now_ms,
            fl,
            ce,
            en,
        );
        proof {
            lemma_track_index_props(loop_pre.tracks(), g_id@, 0);
        }
        if !Self::list_contains(&processed, &id) {
            let blank = is_blank(data.callsign.as_str());
            let valid = check_valid_snapshot(&data);
            if !blank && valid && self.floor <= data.altitude && data.altitude <= self.ceiling {
                match self.check_and_create_new_aircraft(&id, data, now_ms) {
                    Option::Some(new_data) => {
                        let ghost mid1 = *self;
                        self.update_and_flag(&id, new_data, now_ms);
                        proof {
                            lemma_evolve_trans(loop_pre.tracks(), mid1.tracks(), self.tracks());
                        }
                        processed.push(id);
                        proof {
                            assert(processed@ =~= processed_pre.push(g_id));
                            let idx = track_index_from(loop_pre.tracks(), g_id@, 0);
                            if idx < loop_pre.tracks().len() {
                                lemma_step_update(
                                    loop_pre.tracks(),
                                    loop_pre.callsigns(),
                                    loop_pre.pending(),
                                    processed_pre,
                                    g_id,
                                    g_data,
                                    now_ms,
                                    fl,
                                    ce,
                                    en,
                                );
                            } else {
                                assert(!id_tracked(loop_pre, g_id@));
                                assert(spec_callsign_used(
                                    loop_pre.callsigns(),
                                    g_data.callsign@,
                                ) || !(g_data.callsign@.len() > 4 || has_registration_shape(
                                    g_data.callsign@,
                                ))) by {
                                    if callsign_tracked(loop_pre, g_data.callsign@) {
                                        let w = choose|i: int|
                                            0 <= i < loop_pre.tracks().len() && (
                                            #[trigger] loop_pre.tracks()[i]).ac_data.callsign@
                                                == g_data.callsign@;
                                        assert(loop_pre.callsigns()[w].0@ == g_data.callsign@);
                                    }
                                }
                                lemma_step_blocked(
                                    loop_pre.tracks(),
                                    loop_pre.callsigns(),
                                    loop_pre.pending(),
                                    processed_pre,
                                    g_id,
                                    g_data,
                                    now_ms,
                                    fl,
                                    ce,
                                    en,
                                );
                            }
                            assert(self.tracks() == s_entry.0);
                            assert(self.callsigns() == s_entry.1);
                            assert(self.pending() == s_entry.2);
                            assert(processed@ == s_entry.3);
                        }
                    },
                    Option::None => {
                        let ghost mid3 = *self;
                        proof {
                            let n = loop_pre.tracks().len() as int;
                            assert(track_index_from(loop_pre.tracks(), g_id@, 0) == n) by {
                                let idx = track_index_from(loop_pre.tracks(), g_id@, 0);
                                if idx < n {
                                    assert(loop_pre.tracks()[idx].id@ == g_id@);
                                }
                            }
                            assert forall|j: int| 0 <= j < n implies (#[trigger] mid3.tracks()[
                            j]).id@ != g_id@ by {
                                assert(mid3.tracks()[j] == loop_pre.tracks()[j]);
                            }
                            assert(mid3.tracks()[n].id@ == g_id@);
                            lemma_track_index_stops(mid3.tracks(), g_id@, 0, n);
                        }
                        self.try_update_flightplan(&id);
                        proof {
                            lemma_evolve_trans(loop_pre.tracks(), mid3.tracks(), self.tracks());
                        }
                        processed.push(id);
                        proof {
                            assert(processed@ =~= processed_pre.push(g_id));
                            assert(!spec_callsign_used(loop_pre.callsigns(), g_data.callsign@))
                                by {
                                if spec_callsign_used(loop_pre.callsigns(), g_data.callsign@) {
                                    let w = choose|k: int|
                                        0 <= k < loop_pre.callsigns().len() && (
                                        #[trigger] loop_pre.callsigns()[k]).0@
                                            == g_data.callsign@;
                                    assert(loop_pre.tracks()[w].ac_data.callsign@
                                        == g_data.callsign@);
                                }
                            }
                            lemma_step_create(
                                loop_pre.tracks(),
                                loop_pre.callsigns(),
                                loop_pre.pending(),
                                processed_pre,
                                g_id,
                                g_data,
                                now_ms,
                                fl,
                                ce,
                                en,
                            );
                            assert(self.tracks() == s_entry.0);
                            assert(self.callsigns() == s_entry.1);
                            assert(self.pending() == s_entry.2);
                            assert(processed@ == s_entry.3);
                        }
                    },
                }
            } else {
                proof {
                    lemma_step_filtered(
                        loop_pre.tracks(),
                        loop_pre.callsigns(),
                        loop_pre.pending(),
                        processed_pre,
                        g_id,
                        g_data,
                        now_ms,
                        fl,
                        ce,
                        en,
                    );
                    assert(self.tracks() == s_entry.0);
                    assert(self.callsigns() == s_entry.1);
                    assert(self.pending() == s_entry.2);
                    assert(processed@ == s_entry.3);
                }
            }
        } else {
            proof {
                lemma_step_skip(
                    loop_pre.tracks(),
                    loop_pre.callsigns(),
                    loop_pre.pending(),
                    processed_pre,
                    g_id,
                    g_data,
                    now_ms,
                    fl,
                    ce,
                    en,
                );
                assert(self.tracks() == s_entry.0);
                assert(self.callsigns() == s_entry.1);
                assert(self.pending() == s_entry.2);
                assert(processed@ == s_entry.3);
            }
        }
    }

    /// Applies one fetched batch: the first snapshot for each hex wins,
    /// snapshots are admitted through the blank-callsign, validity and
    /// altitude filters, admitted hexes update or create tracks, and
    /// each first-admitted track takes the flight-plan trigger.
    #[verifier::rlimit(100)]
    fn apply_batch(&mut self, batch: AircraftBatch, now_ms: u64)
        requires
            old(self).wf(),
            now_ms >= old(self).spec_clock(),
        ensures
            final(self).wf(),
            tracks_evolve(old(self).tracks(), final(self).tracks()),
            ids_preserved(old(self).tracks(), final(self).tracks()),
            pending_extends(old(self).pending(), final(self).pending()),
            ({
                let s = spec_apply_batch(*old(self), batch@, now_ms);
                &&& final(self).tracks() == s.0
                &&& final(self).callsigns() == s.1
                &&& final(self).pending() == s.2
            }),
            final(self).buffered() == old(self).buffered(),
            final(self).spec_is_buffering() == old(self).spec_is_buffering(),
            final(self).spec_fp_enabled() == old(self).spec_fp_enabled(),
            final(self).spec_floor() == old(self).spec_floor(),
            final(self).spec_ceiling() == old(self).spec_ceiling(),
            final(self).spec_poll_time() == old(self).spec_poll_time(),
            final(self).spec_clock() == now_ms,
    {
        self.advance_clock(now_ms);
        let ghost pre = *self;
        let ghost fl = pre.spec_floor() as int;
        let ghost ce = pre.spec_ceiling() as int;
        let ghost en = pre.spec_fp_enabled();
        let mut batch = batch;
        let ghost b0 = batch@;
        let mut processed: Vec<String> = Vec::new();
        while batch.len() > 0
            invariant
                self.wf(),
                now_ms == self.spec_clock(),
                fl == pre.spec_floor() as int,
                ce == pre.spec_ceiling() as int,
                en == pre.spec_fp_enabled(),
                tracks_evolve(pre.tracks(), self.tracks()),
                ids_preserved(pre.tracks(), self.tracks()),
                pending_extends(pre.pending(), self.pending()),
                spec_apply_entries(
                    pre.tracks(),
                    pre.callsigns(),
                    pre.pending(),
                    Seq::empty(),
                    b0,
                    now_ms,
                    fl,
                    ce,
                    en,
                ) == spec_apply_entries(
                    self.tracks(),
                    self.callsigns(),
                    self.pending(),
                    processed@,
                    batch@,
                    now_ms,
                    fl,
                    ce,
                    en,
                ),
                self.buffered() == pre.buffered(),
                self.spec_is_buffering() == pre.spec_is_buffering(),
                self.spec_fp_enabled() == pre.spec_fp_enabled(),
                self.spec_floor() == pre.spec_floor(),
                self.spec_ceiling() == pre.spec_ceiling(),
                self.spec_poll_time() == pre.spec_poll_time(),
            decreases batch@.len(),
        {
            let ghost batch_pre = batch@;
            let ghost loop_pre = *self;
            let ghost processed_before = processed@;
            let (id, data) = batch.remove(0);
            let ghost g_id = id;
            let ghost g_data = data;
            self.apply_one_entry(id, data, now_ms, &mut processed);
            proof {
                assert(batch@ =~= batch_pre.drop_first());
                assert((g_id, g_data) == batch_pre[0]);
                assert(batch_pre[0].0 == g_id);
                assert(batch_pre[0].1 == g_data);
                assert(loop_pre.spec_floor() == pre.spec_floor());
                assert(loop_pre.spec_ceiling() == pre.spec_ceiling());
                assert(loop_pre.spec_fp_enabled() == pre.spec_fp_enabled());
                lemma_evolve_trans(pre.tracks(), loop_pre.tracks(), self.tracks());
                let se = spec_step_entry(
                    loop_pre.tracks(),
                    loop_pre.callsigns(),
                    loop_pre.pending(),
                    processed_before,
                    g_id,
                    g_data,
                    now_ms,
                    fl,
                    ce,
                    en,
                );
                assert(self.tracks() == se.0);
                assert(self.callsigns() == se.1);
                assert(self.pending() == se.2);
                assert(processed@ == se.3);
                assert(spec_apply_entries(
                    loop_pre.tracks(),
                    loop_pre.callsigns(),
                    loop_pre.pending(),
                    processed_before,
                    batch_pre,
                    now_ms,
                    fl,
                    ce,
                    en,
                ) == spec_apply_entries(
                    se.0,
                    se.1,
                    se.2,
                    se.3,
                    batch_pre.drop_first(),
                    now_ms,
                    fl,
                    ce,
                    en,
                )) by {
                    reveal(spec_apply_entries);
                }
            }
        }
        proof {
            reveal(spec_apply_entries);
        }
    }

    /// One cooperative tick: applies at most one buffered batch — none
    /// while buffering — and then evicts tracks that have dropped off
    /// the radar. Batches leave the buffer in the order they joined it.
    pub fn step(&mut self, now_ms: u64)
        requires
            old(self).wf(),
            now_ms >= old(self).spec_clock(),
        ensures
            final(self).wf(),
            old(self).spec_is_buffering() ==> final(self).tracks() == old(self).tracks()
                && final(self).callsigns() == old(self).callsigns() && final(self).buffered()
                == old(self).buffered() && final(self).pending() == old(self).pending(),
            tracks_evolve(old(self).tracks(), final(self).tracks()),
            pending_extends(old(self).pending(), final(self).pending()),
            (!old(self).spec_is_buffering() && old(self).buffered().len() > 0) ==> final(self).buffered() == old(self).buffered().subrange(
                1,
                old(self).buffered().len() as int,
            ) && forall|j: int|
                0 <= j < final(self).tracks().len() ==> now_ms - (#[trigger] final(self).tracks()[
                    j]).at_last_position_update < EXPIRE_MS,
            (!old(self).spec_is_buffering() && old(self).buffered().len() > 0) ==> ({
                let applied = spec_apply_batch(*old(self), old(self).buffered()[0]@, now_ms);
                let kept = spec_evict(applied.0, applied.1, now_ms as int);
                &&& final(self).tracks() == kept.0
                &&& final(self).callsigns() == kept.1
                &&& final(self).pending() == applied.2
            }),
            (old(self).spec_is_buffering() || old(self).buffered().len() == 0) ==> final(self).buffered() == old(self).buffered() && final(self).tracks() == old(self).tracks()
                && final(self).callsigns() == old(self).callsigns() && final(self).pending()
                == old(self).pending(),
            final(self).spec_is_buffering() == old(self).spec_is_buffering(),
            final(self).spec_fp_enabled() == old(self).spec_fp_enabled(),
            final(self).spec_floor() == old(self).spec_floor(),
            final(self).spec_ceiling() == old(self).spec_ceiling(),
            final(self).spec_poll_time() == old(self).spec_poll_time(),
            final(self).spec_clock() == now_ms,
    {
        self.advance_clock(now_ms);
        if !self.is_buffering && self.buffer.len() > 0 {
            let batch = self.buffer.remove(0);
            let ghost g_batch = batch@;
            let ghost mid = *self;
            self.apply_batch(batch, now_ms);
            proof {
                assert(g_batch == old(self).buffered()[0]@);
            }
            let ghost applied = *self;
            self.remove_expired(now_ms);
            proof {
                lemma_evolve_membership(
                    mid.tracks(),
                    applied.tracks(),
                    self.tracks(),
                );
            }
        }
    }

    /// The cached extrapolated value of track `i`, without advancing time.
    pub fn cached_position(&self, i: usize) -> (p: LatLon)
        requires
            i < self.tracks().len(),
        ensures
            p == self.tracks()[i as int].position.spec_last(),
    {
        self.tracking[i].position.get_no_update()
    }
}

/// Law: the callsign index and the track map are mutual inverses on
/// their common domain — entry `i` of the index carries exactly the
/// callsign and id of track `i`, ids are distinct, and callsigns are
/// distinct, so each direction of the mapping determines the other.
pub proof fn lemma_callsign_index_inverse(t: Tracker)
    requires
        t.wf(),
    ensures
        t.callsigns().len() == t.tracks().len(),
        forall|i: int|
            0 <= i < t.tracks().len() ==> (#[trigger] t.callsigns()[i]).0@
                == t.tracks()[i].ac_data.callsign@ && t.callsigns()[i].1@ == t.tracks()[i].id@,
        forall|i: int, j: int|
            0 <= i < j < t.tracks().len() ==> (#[trigger] t.tracks()[i]).id@ != (
            #[trigger] t.tracks()[j]).id@,
        forall|i: int, j: int|
            0 <= i < j < t.tracks().len() ==> (#[trigger] t.callsigns()[i]).0@ != (
            #[trigger] t.callsigns()[j]).0@,
{
    assert forall|i: int, j: int|
        0 <= i < j < t.tracks().len() implies (#[trigger] t.callsigns()[i]).0@ != (
    #[trigger] t.callsigns()[j]).0@ by {
        assert(t.tracks()[i].ac_data.callsign@ != t.tracks()[j].ac_data.callsign@);
    }
}

/// Law: no two live tracks share a callsign.
pub proof fn lemma_no_shared_callsign(t: Tracker, i: int, j: int)
    requires
        t.wf(),
        0 <= i < t.tracks().len(),
        0 <= j < t.tracks().len(),
        i != j,
    ensures
        t.tracks()[i].ac_data.callsign@ != t.tracks()[j].ac_data.callsign@,
{
}

/// Law: no live track's altitude lies outside the tracker's band.
pub proof fn lemma_altitude_band(t: Tracker, i: int)
    requires
        t.wf(),
        0 <= i < t.tracks().len(),
    ensures
        t.spec_floor() <= t.tracks()[i].ac_data.altitude <= t.spec_ceiling(),
{
}

/// Law: no live track carries a blank callsign — a snapshot whose
/// trimmed callsign is empty never creates a track.
pub proof fn lemma_no_blank_callsign(t: Tracker, i: int)
    requires
        t.wf(),
        0 <= i < t.tracks().len(),
    ensures
        !spec_is_blank(t.tracks()[i].ac_data.callsign@),
        t.tracks()[i].ac_data.callsign@.len() > 0,
{
    assert(!spec_is_blank(t.tracks()[i].ac_data.callsign@));
    if t.tracks()[i].ac_data.callsign@.len() == 0 {
        assert(spec_is_blank(t.tracks()[i].ac_data.callsign@));
    }
}

} // verus!
