//! Identity patterns for callsigns. Three shapes matter: the airline
//! shape (three letters then digits, anchored at the front), the generic
//! callsign shape (three capitals then a capital or digit, found anywhere
//! in the string), and the registration shapes of tail numbers (found
//! anywhere in the string).

use vstd::prelude::*;

verus! {

pub open spec fn is_ascii_upper(c: char) -> bool {
    'A' <= c <= 'Z'
}

pub open spec fn is_ascii_lower(c: char) -> bool {
    'a' <= c <= 'z'
}

pub open spec fn is_ascii_letter(c: char) -> bool {
    is_ascii_upper(c) || is_ascii_lower(c)
}

pub open spec fn is_ascii_digit(c: char) -> bool {
    '0' <= c <= '9'
}

pub open spec fn is_upper_or_digit(c: char) -> bool {
    is_ascii_upper(c) || is_ascii_digit(c)
}

/// The generic callsign shape starting at position `i`: three capital
/// letters followed by a capital letter or digit.
pub open spec fn callsign_shape_at(s: Seq<char>, i: int) -> bool {
    &&& i + 4 <= s.len()
    &&& is_ascii_upper(s[i])
    &&& is_ascii_upper(s[i + 1])
    &&& is_ascii_upper(s[i + 2])
    &&& is_upper_or_digit(s[i + 3])
}

/// A registration shape starting at position `i`: a tail number of the
/// form letter dash four letters, two letters dash three letters, or an
/// `N` number (an `N` followed by a digit).
pub open spec fn registration_shape_at(s: Seq<char>, i: int) -> bool {
    ||| {
        &&& i + 6 <= s.len()
        &&& is_ascii_upper(s[i])
        &&& s[i + 1] == '-'
        &&& is_ascii_upper(s[i + 2])
        &&& is_ascii_upper(s[i + 3])
        &&& is_ascii_upper(s[i + 4])
        &&& is_ascii_upper(s[i + 5])
    }
    ||| {
        &&& i + 6 <= s.len()
        &&& is_ascii_upper(s[i])
        &&& is_ascii_upper(s[i + 1])
        &&& s[i + 2] == '-'
        &&& is_ascii_upper(s[i + 3])
        &&& is_ascii_upper(s[i + 4])
        &&& is_ascii_upper(s[i + 5])
    }
    ||| {
        &&& i + 2 <= s.len()
        &&& s[i] == 'N'
        &&& is_ascii_digit(s[i + 1])
    }
}

/// The string holds the generic callsign shape somewhere.
pub open spec fn has_callsign_shape(s: Seq<char>) -> bool {
    exists|i: int| 0 <= i < s.len() && #[trigger] callsign_shape_at(s, i)
}

/// The string holds a registration shape somewhere.
pub open spec fn has_registration_shape(s: Seq<char>) -> bool {
    exists|i: int| 0 <= i < s.len() && #[trigger] registration_shape_at(s, i)
}

/// The airline shape, anchored at the front of the string: three letters
/// of either case followed by at least one digit.
pub open spec fn is_airline_seq(s: Seq<char>) -> bool {
    &&& s.len() >= 4
    &&& is_ascii_letter(s[0])
    &&& is_ascii_letter(s[1])
    &&& is_ascii_letter(s[2])
    &&& is_ascii_digit(s[3])
}

/// Where the digit run that starts at position `i` ends.
pub open spec fn digit_run_end(s: Seq<char>, i: int) -> int
    decreases s.len() - i,
{
    if 0 <= i < s.len() && is_ascii_digit(s[i]) {
        digit_run_end(s, i + 1)
    } else {
        i
    }
}

/// A digit run that reaches `j` and stops there ends at `j`.
pub proof fn lemma_digit_run_end_stops(s: Seq<char>, i: int, j: int)
    requires
        0 <= i <= j <= s.len(),
        forall|k: int| i <= k < j ==> is_ascii_digit(#[trigger] s[k]),
        j == s.len() || !is_ascii_digit(s[j]),
    ensures
        digit_run_end(s, i) == j,
    decreases j - i,
{
    if i < j {
        lemma_digit_run_end_stops(s, i + 1, j);
    }
}

pub(crate) fn upper_at(s: &str, i: usize) -> (r: bool)
    requires
        i < s@.len(),
    ensures
        r == is_ascii_upper(s@[i as int]),
{
    let c = s.get_char(i);
    'A' <= c && c <= 'Z'
}

pub(crate) fn letter_at(s: &str, i: usize) -> (r: bool)
    requires
        i < s@.len(),
    ensures
        r == is_ascii_letter(s@[i as int]),
{
    let c = s.get_char(i);
    ('A' <= c && c <= 'Z') || ('a' <= c && c <= 'z')
}

pub(crate) fn digit_at(s: &str, i: usize) -> (r: bool)
    requires
        i < s@.len(),
    ensures
        r == is_ascii_digit(s@[i as int]),
{
    let c = s.get_char(i);
    '0' <= c && c <= '9'
}

fn callsign_shape_check(s: &str, i: usize, len: usize) -> (r: bool)
    requires
        len == s@.len(),
        i < len,
    ensures
        r == callsign_shape_at(s@, i as int),
{
    if len - i < 4 {
        return false;
    }
    if !upper_at(s, i) || !upper_at(s, i + 1) || !upper_at(s, i + 2) {
        return false;
    }
    let c = s.get_char(i + 3);
    ('A' <= c && c <= 'Z') || ('0' <= c && c <= '9')
}

fn registration_shape_check(s: &str, i: usize, len: usize) -> (r: bool)
    requires
        len == s@.len(),
        i < len,
    ensures
        r == registration_shape_at(s@, i as int),
{
    if len - i >= 6 {
        if upper_at(s, i) && s.get_char(i + 1) == '-' && upper_at(s, i + 2) && upper_at(s, i + 3)
            && upper_at(s, i + 4) && upper_at(s, i + 5) {
            return true;
        }
        if upper_at(s, i) && upper_at(s, i + 1) && s.get_char(i + 2) == '-' && upper_at(s, i + 3)
            && upper_at(s, i + 4) && upper_at(s, i + 5) {
            return true;
        }
    }
    if len - i >= 2 {
        if s.get_char(i) == 'N' && digit_at(s, i + 1) {
            return true;
        }
    }
    false
}

/// Whether the string holds a registration shape somewhere.
pub fn matches_registration(s: &str) -> (r: bool)
    ensures
        r == has_registration_shape(s@),
{
    let len = s.unicode_len();
    let mut i: usize = 0;
    while i < len
        invariant
            i <= len,
            len == s@.len(),
            forall|j: int| 0 <= j < i ==> !#[trigger] registration_shape_at(s@, j),
        decreases len - i,
    {
        if registration_shape_check(s, i, len) {
            return true;
        }
        i += 1;
    }
    false
}

/// The loose acceptance rule for callsigns: the string holds the
/// generic callsign shape or a registration shape somewhere.
pub fn is_valid_callsign(callsign: &str) -> (r: bool)
    ensures
        r == (has_callsign_shape(callsign@) || has_registration_shape(callsign@)),
{
    let len = callsign.unicode_len();
    let mut i: usize = 0;
    while i < len
        invariant
            i <= len,
            len == callsign@.len(),
            forall|j: int| 0 <= j < i ==> !#[trigger] callsign_shape_at(callsign@, j),
        decreases len - i,
    {
        if callsign_shape_check(callsign, i, len) {
            return true;
        }
        i += 1;
    }
    matches_registration(callsign)
}

/// Whether a callsign may open a new track: it must be longer than four
/// characters or carry a registration shape.
pub fn is_admissible_callsign(callsign: &str) -> (r: bool)
    ensures
        r == (callsign@.len() > 4 || has_registration_shape(callsign@)),
{
    if callsign.unicode_len() > 4 {
        true
    } else {
        matches_registration(callsign)
    }
}

} // verus!
