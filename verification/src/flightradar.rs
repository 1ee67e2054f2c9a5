//! One provider's query address. The feed endpoint takes the radar
//! rectangle as four two-decimal degree values; the fetch itself runs
//! outside the library.

use vstd::prelude::*;

use crate::geo::Bounds;
use crate::text::{append_two_dp, two_dp_str};

verus! {

/// The feed endpoint of the provider.
pub open spec fn spec_endpoint() -> Seq<char> {
    "https://data-live.flightradar24.com/zones/fcgi/feed.js?faa=1&mlat=1&flarm=1&adsb=1&gnd=1&air=1&vehicles=1&estimated=1&gliders=1&stats=0&maxage=14400"@
}

/// The full query address for a radar rectangle.
pub open spec fn spec_base_url(b: Bounds) -> Seq<char> {
    spec_endpoint() + "&bounds="@ + two_dp_str(b.lat1 as int) + ","@ + two_dp_str(b.lat2 as int)
        + ","@ + two_dp_str(b.lon1 as int) + ","@ + two_dp_str(b.lon2 as int)
}

pub struct FlightRadar {
    base_url: String,
}

impl FlightRadar {
    /// The query address held for the session.
    pub closed spec fn spec_url(self) -> Seq<char> {
        self.base_url@
    }

    /// Builds the provider for a radar rectangle.
    pub fn new(radar_loc: &Bounds) -> (r: Self)
        requires
            -1_000_000_000_000 <= radar_loc.lat1 <= 1_000_000_000_000,
            -1_000_000_000_000 <= radar_loc.lat2 <= 1_000_000_000_000,
            -1_000_000_000_000 <= radar_loc.lon1 <= 1_000_000_000_000,
            -1_000_000_000_000 <= radar_loc.lon2 <= 1_000_000_000_000,
        ensures
            r.spec_url() == spec_base_url(*radar_loc),
    {
        let mut s = String::new();
        s.append(
            "https://data-live.flightradar24.com/zones/fcgi/feed.js?faa=1&mlat=1&flarm=1&adsb=1&gnd=1&air=1&vehicles=1&estimated=1&gliders=1&stats=0&maxage=14400",
        );
        s.append("&bounds=");
        append_two_dp(&mut s, radar_loc.lat1);
        s.append(",");
        append_two_dp(&mut s, radar_loc.lat2);
        s.append(",");
        append_two_dp(&mut s, radar_loc.lon1);
        s.append(",");
        append_two_dp(&mut s, radar_loc.lon2);
        proof {
            assert(s@ =~= spec_base_url(*radar_loc));
        }
        FlightRadar { base_url: s }
    }

    /// The query address, for the fetcher outside the library.
    pub fn base_url(&self) -> (r: &String)
        ensures
            r@ == self.spec_url(),
    {
        &self.base_url
    }
}

} // verus!
