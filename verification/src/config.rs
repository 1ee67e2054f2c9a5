//! The user configuration: an airport, a radar range in miles, a
//! playback delay in seconds, the altitude band, and whether flight
//! plans are fetched. Reading and writing the file happens outside the
//! library; the defaults are fixed here.

use vstd::prelude::*;

verus! {

pub struct ConfigData {
    pub airport: String,
    pub range: u32,
    pub delay: u64,
    pub floor: i32,
    pub ceiling: i32,
    pub use_flightaware: bool,
}

impl Default for ConfigData {
    /// The defaults: no airport, thirty miles, no delay, a band from the
    /// ground to 99999 feet, flight plans on.
    fn default() -> (c: Self)
        ensures
            c.airport@.len() == 0,
            c.range == 30,
            c.delay == 0,
            c.floor == 0,
            c.ceiling == 99999,
            c.use_flightaware,
    {
        ConfigData {
            airport: String::new(),
            range: 30,
            delay: 0,
            floor: 0,
            ceiling: 99999,
            use_flightaware: true,
        }
    }
}

} // verus!
