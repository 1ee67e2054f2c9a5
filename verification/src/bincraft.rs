//! Pieces of the binary tile format one provider serves: the bounding
//! limits at the head of a tile, the track-type and navigation-mode
//! decodings, and the character-array decoding the records use. The
//! full tile decoder lives outside the library.

use vstd::prelude::*;

verus! {

#[derive(Clone, Copy, Debug, PartialEq, Eq, Structural)]
pub enum NavModes {
    Autopilot,
    Vnav,
    AltHold,
    Approach,
    Lnav,
    Tcas,
}

#[derive(Clone, Copy, Debug, PartialEq, Eq, Structural)]
pub enum TrackType {
    AdsbIcao,
    AdsbIcaoNt,
    AdsrIcao,
    TisbIcao,
    Adsc,
    Mlat,
    Other,
    ModeS,
    AdsbOther,
    AdsrOther,
    TisbTrackfile,
    TisbOther,
    ModeAc,
    Unknown,
}

/// A signed sixteen-bit value read little-endian from two bytes.
pub open spec fn i16_from_le(lo: u8, hi: u8) -> i16 {
    (((hi as u16) << 8) | (lo as u16)) as i16
}

/// The bounding limits of a tile, in hundredths of a degree.
#[derive(Clone, Copy, Debug, PartialEq, Eq, Structural)]
pub struct BoundingLimits {
    pub south: i16,
    pub west: i16,
    pub north: i16,
    pub east: i16,
}

impl BoundingLimits {
    /// Reads the four limits from the head of a tile: four
    /// little-endian sixteen-bit values, south, west, north, east.
    pub fn from_bytes(bytes: &[u8]) -> (r: Self)
        requires
            bytes@.len() >= 8,
        ensures
            r.south == i16_from_le(bytes@[0], bytes@[1]),
            r.west == i16_from_le(bytes@[2], bytes@[3]),
            r.north == i16_from_le(bytes@[4], bytes@[5]),
            r.east == i16_from_le(bytes@[6], bytes@[7]),
    {
        let south = ((bytes[1] as u16) << 8 | (bytes[0] as u16)) as i16;
        let west = ((bytes[3] as u16) << 8 | (bytes[2] as u16)) as i16;
        let north = ((bytes[5] as u16) << 8 | (bytes[4] as u16)) as i16;
        let east = ((bytes[7] as u16) << 8 | (bytes[6] as u16)) as i16;
        BoundingLimits { south, west, north, east }
    }
}

/// The track type a four-bit code names.
pub open spec fn track_type_of(num: u8) -> TrackType {
    if num == 0 {
        TrackType::AdsbIcao
    } else if num == 1 {
        TrackType::AdsbIcaoNt
    } else if num == 2 {
        TrackType::AdsrIcao
    } else if num == 3 {
        TrackType::TisbIcao
    } else if num == 4 {
        TrackType::Adsc
    } else if num == 5 {
        TrackType::Mlat
    } else if num == 6 {
        TrackType::Other
    } else if num == 7 {
        TrackType::ModeS
    } else if num == 8 {
        TrackType::AdsbOther
    } else if num == 9 {
        TrackType::AdsrOther
    } else if num == 10 {
        TrackType::TisbTrackfile
    } else if num == 11 {
        TrackType::TisbOther
    } else if num == 12 {
        TrackType::ModeAc
    } else {
        TrackType::Unknown
    }
}

/// Decodes a track-type code.
pub fn get_track_type_from_num(num: u8) -> (r: TrackType)
    ensures
        r == track_type_of(num),
{
    match num {
        0 => TrackType::AdsbIcao,
        1 => TrackType::AdsbIcaoNt,
        2 => TrackType::AdsrIcao,
        3 => TrackType::TisbIcao,
        4 => TrackType::Adsc,
        5 => TrackType::Mlat,
        6 => TrackType::Other,
        7 => TrackType::ModeS,
        8 => TrackType::AdsbOther,
        9 => TrackType::AdsrOther,
        10 => TrackType::TisbTrackfile,
        11 => TrackType::TisbOther,
        12 => TrackType::ModeAc,
        _ => TrackType::Unknown,
    }
}

/// The navigation modes a bit set names, lowest bit first.
pub open spec fn navmodes_of(num: u8) -> Seq<NavModes> {
    (if num & 1 != 0 {
        seq![NavModes::Autopilot]
    } else {
        Seq::empty()
    }) + (if num & 2 != 0 {
        seq![NavModes::Vnav]
    } else {
        Seq::empty()
    }) + (if num & 4 != 0 {
        seq![NavModes::AltHold]
    } else {
        Seq::empty()
    }) + (if num & 8 != 0 {
        seq![NavModes::Approach]
    } else {
        Seq::empty()
    }) + (if num & 16 != 0 {
        seq![NavModes::Lnav]
    } else {
        Seq::empty()
    }) + (if num & 32 != 0 {
        seq![NavModes::Tcas]
    } else {
        Seq::empty()
    })
}

/// Decodes a navigation-mode bit set.
pub fn get_navmodes_from_num(num: u8) -> (r: Vec<NavModes>)
    ensures
        r@ == navmodes_of(num),
{
    let mut nav_array: Vec<NavModes> = Vec::new();
    if num & 1 != 0 {
        nav_array.push(NavModes::Autopilot);
    }
    if num & 2 != 0 {
        nav_array.push(NavModes::Vnav);
    }
    if num & 4 != 0 {
        nav_array.push(NavModes::AltHold);
    }
    if num & 8 != 0 {
        nav_array.push(NavModes::Approach);
    }
    if num & 16 != 0 {
        nav_array.push(NavModes::Lnav);
    }
    if num & 32 != 0 {
        nav_array.push(NavModes::Tcas);
    }
    proof {
        assert(nav_array@ =~= navmodes_of(num));
    }
    nav_array
}

/// Relies on String::from_utf8_lossy: bytes below 128 decode to the
/// characters with the same code points.
#[verifier::external_body]
pub fn convert_char_array_to_string(bytes: &[u8]) -> (r: String)
    ensures
        (forall|i: int| 0 <= i < bytes@.len() ==> bytes@[i] < 128) ==> r@ == bytes@.map_values(
            |b: u8| b as char,
        ),
{
    String::from_utf8_lossy(bytes).to_string()
}

} // verus!
