//! Fixed-point trigonometry for dead reckoning. Sines and cosines of
//! whole degrees are tabulated in millionths, so a velocity in
//! nano-degrees per second can be derived from a heading and a ground
//! speed without floating point.

use vstd::prelude::*;

verus! {

/// The sine of a first-quadrant angle, in millionths.
pub open spec fn sin_q_millionths(d: int) -> int {
    if d == 0 {
        0
    } else if d == 1 {
        17452
    } else if d == 2 {
        34899
    } else if d == 3 {
        52336
    } else if d == 4 {
        69756
    } else if d == 5 {
        87156
    } else if d == 6 {
        104528
    } else if d == 7 {
        121869
    } else if d == 8 {
        139173
    } else if d == 9 {
        156434
    } else if d == 10 {
        173648
    } else if d == 11 {
        190809
    } else if d == 12 {
        207912
    } else if d == 13 {
        224951
    } else if d == 14 {
        241922
    } else if d == 15 {
        258819
    } else if d == 16 {
        275637
    } else if d == 17 {
        292372
    } else if d == 18 {
        309017
    } else if d == 19 {
        325568
    } else if d == 20 {
        342020
    } else if d == 21 {
        358368
    } else if d == 22 {
        374607
    } else if d == 23 {
        390731
    } else if d == 24 {
        406737
    } else if d == 25 {
        422618
    } else if d == 26 {
        438371
    } else if d == 27 {
        453990
    } else if d == 28 {
        469472
    } else if d == 29 {
        484810
    } else if d == 30 {
        500000
    } else if d == 31 {
        515038
    } else if d == 32 {
        529919
    } else if d == 33 {
        544639
    } else if d == 34 {
        559193
    } else if d == 35 {
        573576
    } else if d == 36 {
        587785
    } else if d == 37 {
        601815
    } else if d == 38 {
        615661
    } else if d == 39 {
        629320
    } else if d == 40 {
        642788
    } else if d == 41 {
        656059
    } else if d == 42 {
        669131
    } else if d == 43 {
        681998
    } else if d == 44 {
        694658
    } else if d == 45 {
        707107
    } else if d == 46 {
        719340
    } else if d == 47 {
        731354
    } else if d == 48 {
        743145
    } else if d == 49 {
        754710
    } else if d == 50 {
        766044
    } else if d == 51 {
        777146
    } else if d == 52 {
        788011
    } else if d == 53 {
        798636
    } else if d == 54 {
        809017
    } else if d == 55 {
        819152
    } else if d == 56 {
        829038
    } else if d == 57 {
        838671
    } else if d == 58 {
        848048
    } else if d == 59 {
        857167
    } else if d == 60 {
        866025
    } else if d == 61 {
        874620
    } else if d == 62 {
        882948
    } else if d == 63 {
        891007
    } else if d == 64 {
        898794
    } else if d == 65 {
        906308
    } else if d == 66 {
        913545
    } else if d == 67 {
        920505
    } else if d == 68 {
        927184
    } else if d == 69 {
        933580
    } else if d == 70 {
        939693
    } else if d == 71 {
        945519
    } else if d == 72 {
        951057
    } else if d == 73 {
        956305
    } else if d == 74 {
        961262
    } else if d == 75 {
        965926
    } else if d == 76 {
        970296
    } else if d == 77 {
        974370
    } else if d == 78 {
        978148
    } else if d == 79 {
        981627
    } else if d == 80 {
        984808
    } else if d == 81 {
        987688
    } else if d == 82 {
        990268
    } else if d == 83 {
        992546
    } else if d == 84 {
        994522
    } else if d == 85 {
        996195
    } else if d == 86 {
        997564
    } else if d == 87 {
        998630
    } else if d == 88 {
        999391
    } else if d == 89 {
        999848
    } else if d == 90 {
        1000000
    } else {
        0
    }
}

/// The sine of an angle between 0 and 359 degrees, in millionths.
pub open spec fn spec_sin_deg(d: int) -> int {
    if d <= 90 {
        sin_q_millionths(d)
    } else if d <= 180 {
        sin_q_millionths(180 - d)
    } else if d <= 270 {
        -sin_q_millionths(d - 180)
    } else {
        -sin_q_millionths(360 - d)
    }
}

/// The cosine of an angle between 0 and 359 degrees, in millionths.
pub open spec fn spec_cos_deg(d: int) -> int {
    if d < 270 {
        spec_sin_deg(d + 90)
    } else {
        spec_sin_deg(d - 270)
    }
}

/// The sine of a first-quadrant angle, in millionths.
pub fn sin_quadrant(d: u32) -> (r: i64)
    requires
        d <= 90,
    ensures
        r == sin_q_millionths(d as int),
        0 <= r <= 1_000_000,
{
    match d {
        0 => 0,
        1 => 17452,
        2 => 34899,
        3 => 52336,
        4 => 69756,
        5 => 87156,
        6 => 104528,
        7 => 121869,
        8 => 139173,
        9 => 156434,
        10 => 173648,
        11 => 190809,
        12 => 207912,
        13 => 224951,
        14 => 241922,
        15 => 258819,
        16 => 275637,
        17 => 292372,
        18 => 309017,
        19 => 325568,
        20 => 342020,
        21 => 358368,
        22 => 374607,
        23 => 390731,
        24 => 406737,
        25 => 422618,
        26 => 438371,
        27 => 453990,
        28 => 469472,
        29 => 484810,
        30 => 500000,
        31 => 515038,
        32 => 529919,
        33 => 544639,
        34 => 559193,
        35 => 573576,
        36 => 587785,
        37 => 601815,
        38 => 615661,
        39 => 629320,
        40 => 642788,
        41 => 656059,
        42 => 669131,
        43 => 681998,
        44 => 694658,
        45 => 707107,
        46 => 719340,
        47 => 731354,
        48 => 743145,
        49 => 754710,
        50 => 766044,
        51 => 777146,
        52 => 788011,
        53 => 798636,
        54 => 809017,
        55 => 819152,
        56 => 829038,
        57 => 838671,
        58 => 848048,
        59 => 857167,
        60 => 866025,
        61 => 874620,
        62 => 882948,
        63 => 891007,
        64 => 898794,
        65 => 906308,
        66 => 913545,
        67 => 920505,
        68 => 927184,
        69 => 933580,
        70 => 939693,
        71 => 945519,
        72 => 951057,
        73 => 956305,
        74 => 961262,
        75 => 965926,
        76 => 970296,
        77 => 974370,
        78 => 978148,
        79 => 981627,
        80 => 984808,
        81 => 987688,
        82 => 990268,
        83 => 992546,
        84 => 994522,
        85 => 996195,
        86 => 997564,
        87 => 998630,
        88 => 999391,
        89 => 999848,
        _ => 1000000,
    }
}

/// The sine of an angle between 0 and 359 degrees, in millionths.
pub fn sin_deg(d: u32) -> (r: i64)
    requires
        d < 360,
    ensures
        r == spec_sin_deg(d as int),
        -1_000_000 <= r <= 1_000_000,
{
    if d <= 90 {
        sin_quadrant(d)
    } else if d <= 180 {
        sin_quadrant(180 - d)
    } else if d <= 270 {
        -sin_quadrant(d - 180)
    } else {
        -sin_quadrant(360 - d)
    }
}

/// The cosine of an angle between 0 and 359 degrees, in millionths.
pub fn cos_deg(d: u32) -> (r: i64)
    requires
        d < 360,
    ensures
        r == spec_cos_deg(d as int),
        -1_000_000 <= r <= 1_000_000,
{
    if d < 270 {
        sin_deg(d + 90)
    } else {
        sin_deg(d - 270)
    }
}

} // verus!
