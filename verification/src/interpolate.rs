//! Dead reckoning between polls. A confirmed fix (micro-degrees) and a
//! velocity derived from heading and ground speed (nano-degrees per
//! second) extrapolate an aircraft's position forward in wall-clock time
//! (milliseconds).

use vstd::prelude::*;

use crate::geo::LatLon;
use crate::trig::{cos_deg, sin_deg, spec_cos_deg, spec_sin_deg};

verus! {

/// Largest ground speed the velocity conversion accepts, in knots.
pub const MAX_GROUND_SPEED: u32 = 10_000;

/// Extrapolation is cut off after this many milliseconds; a live track is
/// refreshed every few seconds, so the cap only tames stale arithmetic.
pub const MAX_DRIFT_MS: u64 = 3_600_000;

/// A ground-track velocity in nano-degrees per second.
#[derive(Clone, Copy, Debug, PartialEq, Eq, Structural)]
pub struct Velocity {
    pub lat_nanodeg: i64,
    pub lon_nanodeg: i64,
}

/// Multiplies a signed trigonometric factor by a speed and a ratio,
/// rounding the magnitude towards zero.
pub open spec fn scaled_component(trig: int, speed: int, num: int, den: int) -> int {
    if trig >= 0 {
        trig * speed * num / den
    } else {
        -((-trig) * speed * num / den)
    }
}

/// The northward velocity for a heading and speed: `cos(heading)` times
/// the speed, converted from miles per hour to nano-degrees per second at
/// 69 miles per degree of latitude.
pub open spec fn spec_velocity_lat(heading: int, speed: int) -> int {
    scaled_component(spec_cos_deg(heading % 360), speed, 5, 1242)
}

/// The eastward velocity for a heading and speed: `sin(heading)` times
/// the speed, converted from miles per hour to nano-degrees per second at
/// 54.6 miles per degree of longitude.
pub open spec fn spec_velocity_lon(heading: int, speed: int) -> int {
    scaled_component(spec_sin_deg(heading % 360), speed, 25, 4914)
}

/// Splits a heading and a ground speed into northward and eastward
/// velocity components.
pub fn velocity_from_heading_and_speed(heading: u32, speed: u32) -> (v: Velocity)
    requires
        speed <= MAX_GROUND_SPEED,
    ensures
        v.lat_nanodeg == spec_velocity_lat(heading as int, speed as int),
        v.lon_nanodeg == spec_velocity_lon(heading as int, speed as int),
        -51_000_000 <= v.lat_nanodeg <= 51_000_000,
        -51_000_000 <= v.lon_nanodeg <= 51_000_000,
{
    let h = heading % 360;
    let c = cos_deg(h);
    let s = sin_deg(h);
    let sp = speed as i64;
    let cm: i64 = if c >= 0 {
        c
    } else {
        -c
    };
    let sm: i64 = if s >= 0 {
        s
    } else {
        -s
    };
    assert(cm * sp <= 10_000_000_000 && cm * sp >= 0) by (nonlinear_arith)
        requires
            0 <= cm <= 1_000_000,
            0 <= sp <= 10_000,
    ;
    assert(sm * sp <= 10_000_000_000 && sm * sp >= 0) by (nonlinear_arith)
        requires
            0 <= sm <= 1_000_000,
            0 <= sp <= 10_000,
    ;
    let lat_mag: i64 = cm * sp * 5 / 1242;
    let lon_mag: i64 = sm * sp * 25 / 4914;
    let lat_nanodeg: i64 = if c >= 0 {
        lat_mag
    } else {
        -lat_mag
    };
    let lon_nanodeg: i64 = if s >= 0 {
        lon_mag
    } else {
        -lon_mag
    };
    Velocity { lat_nanodeg, lon_nanodeg }
}

/// Milliseconds elapsed since the fix, never negative and capped at the
/// drift cut-off.
pub open spec fn spec_elapsed_ms(fix_ms: int, now_ms: int) -> int {
    if now_ms <= fix_ms {
        0
    } else if now_ms - fix_ms >= MAX_DRIFT_MS {
        MAX_DRIFT_MS as int
    } else {
        now_ms - fix_ms
    }
}

/// Micro-degrees drifted by a velocity component over an elapsed time in
/// milliseconds, rounding the magnitude towards zero.
pub open spec fn spec_drift(vel: int, dt_ms: int) -> int {
    if vel >= 0 {
        vel * dt_ms / 1_000_000
    } else {
        -((-vel) * dt_ms / 1_000_000)
    }
}

/// A position extrapolator: the last confirmed fix, the velocity derived
/// from heading and ground speed, and the wall-clock instant of the fix.
pub struct InterpolatePosition {
    pos: LatLon,
    vel: Velocity,
    fix_ms: u64,
    last_call: LatLon,
    valid: bool,
}

/// The extrapolator that `new` builds from a confirmed fix: the fix as
/// position and cached value, the velocity derived from the heading and
/// speed, and the instant of the fix.
pub closed spec fn spec_fresh(lat: i64, lon: i64, heading: u32, speed: u32, now_ms: u64) -> InterpolatePosition {
    InterpolatePosition {
        pos: LatLon { lat, lon },
        vel: Velocity {
            lat_nanodeg: spec_velocity_lat(heading as int, speed as int) as i64,
            lon_nanodeg: spec_velocity_lon(heading as int, speed as int) as i64,
        },
        fix_ms: now_ms,
        last_call: LatLon { lat, lon },
        valid: true,
    }
}

/// The position an extrapolator reports at a given instant.
pub open spec fn spec_interpolated(ip: InterpolatePosition, now_ms: int) -> LatLon {
    LatLon {
        lat: (ip.spec_pos().lat + spec_drift(
            ip.spec_vel().lat_nanodeg as int,
            spec_elapsed_ms(ip.spec_fix_ms() as int, now_ms),
        )) as i64,
        lon: (ip.spec_pos().lon + spec_drift(
            ip.spec_vel().lon_nanodeg as int,
            spec_elapsed_ms(ip.spec_fix_ms() as int, now_ms),
        )) as i64,
    }
}

impl InterpolatePosition {
    /// The last confirmed fix.
    pub closed spec fn spec_pos(self) -> LatLon {
        self.pos
    }

    /// The velocity in nano-degrees per second.
    pub closed spec fn spec_vel(self) -> Velocity {
        self.vel
    }

    /// The wall-clock instant of the fix, in milliseconds.
    pub closed spec fn spec_fix_ms(self) -> u64 {
        self.fix_ms
    }

    /// The value most recently returned by `get`.
    pub closed spec fn spec_last(self) -> LatLon {
        self.last_call
    }

    /// Whether the extrapolator was built from a confirmed fix rather
    /// than defaulted; consumers should never dead-reckon from a default.
    pub closed spec fn spec_valid(self) -> bool {
        self.valid
    }

    /// A well-formed extrapolator keeps its fix on the globe and its
    /// velocity within what the conversion can produce, so extrapolated
    /// positions never overflow.
    pub open spec fn wf(self) -> bool {
        &&& -90_000_000 <= self.spec_pos().lat <= 90_000_000
        &&& -180_000_000 <= self.spec_pos().lon <= 180_000_000
        &&& -51_000_000 <= self.spec_vel().lat_nanodeg <= 51_000_000
        &&& -51_000_000 <= self.spec_vel().lon_nanodeg <= 51_000_000
    }

    /// Builds an extrapolator from a confirmed fix.
    pub fn new(lat: i64, lon: i64, heading: u32, speed: u32, now_ms: u64) -> (ip: Self)
        requires
            -90_000_000 <= lat <= 90_000_000,
            -180_000_000 <= lon <= 180_000_000,
            speed <= MAX_GROUND_SPEED,
        ensures
            ip == spec_fresh(lat, lon, heading, speed, now_ms),
            ip.wf(),
            ip.spec_valid(),
            ip.spec_pos() == (LatLon { lat, lon }),
            ip.spec_last() == (LatLon { lat, lon }),
            ip.spec_fix_ms() == now_ms,
            ip.spec_vel().lat_nanodeg == spec_velocity_lat(heading as int, speed as int),
            ip.spec_vel().lon_nanodeg == spec_velocity_lon(heading as int, speed as int),
    {
        let vel = velocity_from_heading_and_speed(heading, speed);
        InterpolatePosition {
            pos: LatLon { lat, lon },
            vel,
            fix_ms: now_ms,
            last_call: LatLon { lat, lon },
            valid: true,
        }
    }

    /// An empty extrapolator holding no fix.
    pub fn empty() -> (ip: Self)
        ensures
            ip.wf(),
            !ip.spec_valid(),
            ip.spec_pos() == (LatLon { lat: 0, lon: 0 }),
            ip.spec_last() == (LatLon { lat: 0, lon: 0 }),
            ip.spec_vel() == (Velocity { lat_nanodeg: 0, lon_nanodeg: 0 }),
            ip.spec_fix_ms() == 0,
    {
        InterpolatePosition {
            pos: LatLon { lat: 0, lon: 0 },
            vel: Velocity { lat_nanodeg: 0, lon_nanodeg: 0 },
            fix_ms: 0,
            last_call: LatLon { lat: 0, lon: 0 },
            valid: false,
        }
    }

    /// Extrapolates the fix to `now_ms` and caches the result.
    pub fn get(&mut self, now_ms: u64) -> (p: LatLon)
        requires
            old(self).wf(),
        ensures
            final(self).wf(),
            p == spec_interpolated(*old(self), now_ms as int),
            final(self).spec_last() == p,
            final(self).spec_pos() == old(self).spec_pos(),
            final(self).spec_vel() == old(self).spec_vel(),
            final(self).spec_fix_ms() == old(self).spec_fix_ms(),
            final(self).spec_valid() == old(self).spec_valid(),
    {
        let dt_raw: u64 = if now_ms <= self.fix_ms {
            0
        } else {
            now_ms - self.fix_ms
        };
        let dt: u64 = if dt_raw >= MAX_DRIFT_MS {
            MAX_DRIFT_MS
        } else {
            dt_raw
        };
        let dti = dt as i64;
        let vlat = self.vel.lat_nanodeg;
        let vlon = self.vel.lon_nanodeg;
        let vlat_mag: i64 = if vlat >= 0 {
            vlat
        } else {
            -vlat
        };
        let vlon_mag: i64 = if vlon >= 0 {
            vlon
        } else {
            -vlon
        };
        assert(vlat_mag * dti <= 183_600_000_000_000 && vlat_mag * dti >= 0) by (nonlinear_arith)
            requires
                0 <= vlat_mag <= 51_000_000,
                0 <= dti <= 3_600_000,
        ;
        assert(vlon_mag * dti <= 183_600_000_000_000 && vlon_mag * dti >= 0) by (nonlinear_arith)
            requires
                0 <= vlon_mag <= 51_000_000,
                0 <= dti <= 3_600_000,
        ;
        let dlat_mag: i64 = vlat_mag * dti / 1_000_000;
        let dlon_mag: i64 = vlon_mag * dti / 1_000_000;
        let dlat: i64 = if vlat >= 0 {
            dlat_mag
        } else {
            -dlat_mag
        };
        let dlon: i64 = if vlon >= 0 {
            dlon_mag
        } else {
            -dlon_mag
        };
        let p = LatLon { lat: self.pos.lat + dlat, lon: self.pos.lon + dlon };
        self.last_call = p;
        p
    }

    /// Returns the cached value without advancing time.
    pub fn get_no_update(&self) -> (p: LatLon)
        ensures
            p == self.spec_last(),
    {
        self.last_call
    }
}

/// Law: an extrapolator queried at the instant of its own fix reports the
/// fix itself — dead reckoning adds nothing at zero elapsed time.
pub proof fn lemma_interpolate_zero_delta(ip: InterpolatePosition, now_ms: u64)
    requires
        ip.wf(),
        now_ms == ip.spec_fix_ms(),
    ensures
        spec_interpolated(ip, now_ms as int) == ip.spec_pos(),
{
    assert(spec_elapsed_ms(ip.spec_fix_ms() as int, now_ms as int) == 0);
    assert(spec_interpolated(ip, now_ms as int) == ip.spec_pos());
}

} // verus!
