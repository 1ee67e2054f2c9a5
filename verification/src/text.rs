//! Plain-text helpers: decimal rendering of integers and micro-degree
//! fixed-point values, blank tests, and character-level string equality.
//! Every renderer is specified against a mathematical sequence of
//! characters, so the protocol builders can state their output exactly.

use vstd::prelude::*;

verus! {

/// The characters that a blank test treats as white space: the ASCII
/// spacing characters that `str::trim` also removes.
pub open spec fn is_space_char(c: char) -> bool {
    c == ' ' || c == '\t' || c == '\n' || c == '\r'
}

/// A sequence is blank when every character is white space.
pub open spec fn spec_is_blank(s: Seq<char>) -> bool {
    forall|i: int| 0 <= i < s.len() ==> is_space_char(#[trigger] s[i])
}

/// Whether the string trims to the empty string.
pub fn is_blank(s: &str) -> (r: bool)
    ensures
        r == spec_is_blank(s@),
{
    let len = s.unicode_len();
    let mut i: usize = 0;
    while i < len
        invariant
            i <= len,
            len == s@.len(),
            forall|j: int| 0 <= j < i ==> is_space_char(#[trigger] s@[j]),
        decreases len - i,
    {
        let c = s.get_char(i);
        if !(c == ' ' || c == '\t' || c == '\n' || c == '\r') {
            return false;
        }
        i += 1;
    }
    true
}

/// Character-level string equality.
pub fn str_eq(a: &str, b: &str) -> (r: bool)
    ensures
        r == (a@ == b@),
{
    let alen = a.unicode_len();
    let blen = b.unicode_len();
    if alen != blen {
        assert(a@ != b@) by {
            assert(a@.len() != b@.len());
        }
        return false;
    }
    let mut i: usize = 0;
    while i < alen
        invariant
            i <= alen,
            alen == a@.len(),
            alen == b@.len(),
            forall|j: int| 0 <= j < i ==> a@[j] == b@[j],
        decreases alen - i,
    {
        if a.get_char(i) != b.get_char(i) {
            return false;
        }
        i += 1;
    }
    proof {
        assert(a@ =~= b@);
    }
    true
}

/// Lexicographic order on character sequences: the empty sequence
/// comes first, otherwise the first differing character decides.
pub open spec fn lex_le(a: Seq<char>, b: Seq<char>) -> bool
    decreases a.len(),
{
    if a.len() == 0 {
        true
    } else if b.len() == 0 {
        false
    } else if a[0] != b[0] {
        a[0] < b[0]
    } else {
        lex_le(a.drop_first(), b.drop_first())
    }
}

/// Of two different sequences, exactly one comes lexicographically
/// first.
pub proof fn lemma_lex_le_antisymmetric(a: Seq<char>, b: Seq<char>)
    requires
        a != b,
    ensures
        lex_le(a, b) <==> !lex_le(b, a),
    decreases a.len(),
{
    if a.len() == 0 {
        if b.len() == 0 {
            assert(a =~= b);
        }
    } else if b.len() == 0 {
    } else if a[0] != b[0] {
    } else {
        if a.drop_first() == b.drop_first() {
            assert(a =~= seq![a[0]] + a.drop_first());
            assert(b =~= seq![b[0]] + b.drop_first());
            assert(seq![a[0]] + a.drop_first() == seq![b[0]] + b.drop_first());
        }
        lemma_lex_le_antisymmetric(a.drop_first(), b.drop_first());
    }
}

/// Whether `a` comes lexicographically before `b` or equals it.
pub fn str_le(a: &str, b: &str) -> (r: bool)
    ensures
        r == lex_le(a@, b@),
{
    let alen = a.unicode_len();
    let blen = b.unicode_len();
    let mut i: usize = 0;
    proof {
        assert(a@.skip(0) =~= a@);
        assert(b@.skip(0) =~= b@);
    }
    loop
        invariant
            i <= alen,
            i <= blen,
            alen == a@.len(),
            blen == b@.len(),
            lex_le(a@, b@) == lex_le(a@.skip(i as int), b@.skip(i as int)),
        ensures
            lex_le(a@, b@) == lex_le(a@.skip(i as int), b@.skip(i as int)),
            i == alen || i == blen || a@[i as int] != b@[i as int],
            i <= alen,
            i <= blen,
        decreases alen - i,
    {
        if i >= alen || i >= blen {
            break ;
        }
        if a.get_char(i) != b.get_char(i) {
            break ;
        }
        proof {
            assert(a@.skip(i as int).drop_first() =~= a@.skip(i + 1));
            assert(b@.skip(i as int).drop_first() =~= b@.skip(i + 1));
            assert(a@.skip(i as int)[0] == a@[i as int]);
            assert(b@.skip(i as int)[0] == b@[i as int]);
        }
        i += 1;
    }
    if i < alen && i < blen {
        let ca = a.get_char(i);
        let cb = b.get_char(i);
        proof {
            assert(a@.skip(i as int)[0] == a@[i as int]);
            assert(b@.skip(i as int)[0] == b@[i as int]);
        }
        ca < cb
    } else if i >= alen {
        proof {
            if i < blen {
                assert(a@.skip(i as int).len() == 0);
            } else {
                assert(a@.skip(i as int).len() == 0);
            }
        }
        true
    } else {
        proof {
            assert(b@.skip(i as int).len() == 0);
            assert(a@.skip(i as int).len() != 0);
        }
        false
    }
}

/// The decimal digit character for a value below ten.
pub open spec fn digit_char(d: int) -> char {
    if d == 0 {
        '0'
    } else if d == 1 {
        '1'
    } else if d == 2 {
        '2'
    } else if d == 3 {
        '3'
    } else if d == 4 {
        '4'
    } else if d == 5 {
        '5'
    } else if d == 6 {
        '6'
    } else if d == 7 {
        '7'
    } else if d == 8 {
        '8'
    } else {
        '9'
    }
}

/// The decimal rendering of a natural number, without leading zeroes.
pub open spec fn dec_of(n: nat) -> Seq<char>
    decreases n,
{
    if n < 10 {
        seq![digit_char(n as int)]
    } else {
        dec_of(n / 10) + seq![digit_char((n % 10) as int)]
    }
}

/// The decimal rendering of a signed value: a minus sign before the
/// magnitude when the value is negative.
pub open spec fn dec_signed(v: int) -> Seq<char> {
    if v < 0 {
        seq!['-'] + dec_of((-v) as nat)
    } else {
        dec_of(v as nat)
    }
}

/// The decimal rendering of a natural number zero-padded to a fixed width;
/// only the `width` lowest digits are kept.
pub open spec fn padded_of(n: nat, width: nat) -> Seq<char>
    decreases width,
{
    if width == 0 {
        Seq::empty()
    } else {
        padded_of(n / 10, (width - 1) as nat) + seq![digit_char((n % 10) as int)]
    }
}

/// The fraction part of a fixed-point rendering: `width` digits with
/// trailing zeroes dropped, but at least one digit kept.
pub open spec fn frac_digits(f: nat, width: nat) -> Seq<char>
    decreases width,
{
    if width <= 1 || f % 10 != 0 {
        padded_of(f, width)
    } else {
        frac_digits(f / 10, (width - 1) as nat)
    }
}

/// The decimal rendering of a non-negative micro-degree value: whole
/// degrees, a point, and the six-digit fraction with trailing zeroes
/// trimmed down to at least one digit.
pub open spec fn microdeg_str_abs(a: nat) -> Seq<char> {
    dec_of(a / 1_000_000) + seq!['.'] + frac_digits(a % 1_000_000, 6)
}

/// The decimal rendering of a micro-degree value.
pub open spec fn microdeg_str(v: int) -> Seq<char> {
    if v < 0 {
        seq!['-'] + microdeg_str_abs((-v) as nat)
    } else {
        microdeg_str_abs(v as nat)
    }
}

/// Appends a single decimal digit.
pub fn append_digit(s: &mut String, d: u8)
    requires
        d < 10,
    ensures
        final(s)@ == old(s)@ + seq![digit_char(d as int)],
{
    proof {
        reveal_strlit("0");
        reveal_strlit("1");
        reveal_strlit("2");
        reveal_strlit("3");
        reveal_strlit("4");
        reveal_strlit("5");
        reveal_strlit("6");
        reveal_strlit("7");
        reveal_strlit("8");
        reveal_strlit("9");
    }
    match d {
        0 => s.append("0"),
        1 => s.append("1"),
        2 => s.append("2"),
        3 => s.append("3"),
        4 => s.append("4"),
        5 => s.append("5"),
        6 => s.append("6"),
        7 => s.append("7"),
        8 => s.append("8"),
        _ => s.append("9"),
    }
    proof {
        assert(s@ =~= old(s)@ + seq![digit_char(d as int)]);
    }
}

/// Appends the decimal rendering of an unsigned value.
pub fn append_u64(s: &mut String, n: u64)
    ensures
        final(s)@ == old(s)@ + dec_of(n as nat),
    decreases n,
{
    if n < 10 {
        append_digit(s, n as u8);
    } else {
        append_u64(s, n / 10);
        append_digit(s, (n % 10) as u8);
        proof {
            assert(s@ =~= old(s)@ + dec_of(n as nat));
        }
    }
}

/// Appends the decimal rendering of a signed value.
pub fn append_i64(s: &mut String, v: i64)
    requires
        v != i64::MIN,
    ensures
        final(s)@ == old(s)@ + dec_signed(v as int),
{
    proof {
        reveal_strlit("-");
    }
    if v < 0 {
        s.append("-");
        append_u64(s, (-v) as u64);
        proof {
            assert(s@ =~= old(s)@ + dec_signed(v as int));
        }
    } else {
        append_u64(s, v as u64);
    }
}

/// Appends the decimal rendering of a value zero-padded to a fixed width.
pub fn append_padded(s: &mut String, n: u64, width: u8)
    ensures
        final(s)@ == old(s)@ + padded_of(n as nat, width as nat),
    decreases width,
{
    if width == 0 {
        proof {
            assert(s@ =~= old(s)@ + padded_of(n as nat, 0));
        }
    } else {
        append_padded(s, n / 10, width - 1);
        append_digit(s, (n % 10) as u8);
        proof {
            assert(s@ =~= old(s)@ + padded_of(n as nat, width as nat));
        }
    }
}

/// The rendering of a micro-degree value rounded to two decimal places,
/// half away from zero, as in `40.13` or `-74.01`.
pub open spec fn two_dp_str(v: int) -> Seq<char> {
    let a = if v < 0 {
        -v
    } else {
        v
    };
    let h = (a + 5000) / 10000;
    (if v < 0 {
        seq!['-']
    } else {
        Seq::<char>::empty()
    }) + dec_of((h / 100) as nat) + seq!['.'] + padded_of((h % 100) as nat, 2)
}

/// Appends a micro-degree value rounded to two decimal places.
pub fn append_two_dp(s: &mut String, v: i64)
    requires
        -1_000_000_000_000 <= v <= 1_000_000_000_000,
    ensures
        final(s)@ == old(s)@ + two_dp_str(v as int),
{
    proof {
        reveal_strlit("-");
        reveal_strlit(".");
    }
    let a: u64 = if v < 0 {
        s.append("-");
        (-v) as u64
    } else {
        v as u64
    };
    let h: u64 = (a + 5000) / 10000;
    append_u64(s, h / 100);
    s.append(".");
    append_padded(s, h % 100, 2);
    proof {
        assert(s@ =~= old(s)@ + two_dp_str(v as int));
    }
}

/// Appends the rendering of a micro-degree value, as in `40.0` or
/// `-74.00917`.
pub fn append_microdeg(s: &mut String, v: i64)
    requires
        v != i64::MIN,
    ensures
        final(s)@ == old(s)@ + microdeg_str(v as int),
{
    proof {
        reveal_strlit("-");
        reveal_strlit(".");
    }
    let a: u64 = if v < 0 {
        s.append("-");
        (-v) as u64
    } else {
        v as u64
    };
    append_u64(s, a / 1_000_000);
    s.append(".");
    let mut f: u64 = a % 1_000_000;
    let mut width: u8 = 6;
    while width > 1 && f % 10 == 0
        invariant
            1 <= width <= 6,
            frac_digits((a % 1_000_000) as nat, 6) == frac_digits(f as nat, width as nat),
        decreases width,
    {
        f = f / 10;
        width = width - 1;
    }
    append_padded(s, f, width);
    proof {
        assert(s@ =~= old(s)@ + microdeg_str(v as int));
    }
}

} // verus!
