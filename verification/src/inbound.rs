//! Inbound FSD packets. A client's line is split on colons and the
//! handful of packet shapes the session answers are recognised: METAR
//! requests, plane-information requests for tower view, and client
//! queries (ATC validation and flight-plan queries). Unknown lines
//! yield nothing and are ignored by the session.

use vstd::prelude::*;

use crate::text::str_eq;

verus! {

/// Where the colon run that starts at position `i` ends: the index of
/// the first colon at or after `i`, or the length when there is none.
pub open spec fn first_colon_from(s: Seq<char>, i: int) -> int
    decreases s.len() - i,
{
    if 0 <= i < s.len() && s[i] != ':' {
        first_colon_from(s, i + 1)
    } else {
        i
    }
}

/// A colon-free stretch that ends at a colon or the end pins down the
/// first colon.
proof fn lemma_first_colon_stops(s: Seq<char>, i: int, j: int)
    requires
        0 <= i <= j <= s.len(),
        forall|k: int| i <= k < j ==> (#[trigger] s[k]) != ':',
        j == s.len() || s[j] == ':',
    ensures
        first_colon_from(s, i) == j,
    decreases j - i,
{
    if i < j {
        lemma_first_colon_stops(s, i + 1, j);
    }
}

/// The fields of a line, split on colons.
pub open spec fn split_fields(s: Seq<char>) -> Seq<Seq<char>>
    decreases s.len(),
{
    let idx = first_colon_from(s, 0);
    if idx < 0 || idx >= s.len() {
        seq![s]
    } else {
        seq![s.take(idx)] + split_fields(s.skip(idx + 1))
    }
}

/// The views of a list of strings.
pub open spec fn views_of(v: Seq<String>) -> Seq<Seq<char>> {
    Seq::new(v.len(), |i: int| v[i]@)
}

/// Splits a line on colons. Every line has at least one field; colons
/// are not part of any field.
pub fn split_colon(s: &str) -> (r: Vec<String>)
    ensures
        views_of(r@) == split_fields(s@),
        r@.len() >= 1,
{
    let len = s.unicode_len();
    let mut out: Vec<String> = Vec::new();
    let mut start: usize = 0;
    let mut i: usize = 0;
    proof {
        assert(s@.subrange(0, len as int) =~= s@);
        assert(views_of(out@) =~= Seq::<Seq<char>>::empty());
        assert(views_of(out@) + split_fields(s@) =~= split_fields(s@));
    }
    while i < len
        invariant
            start <= i <= len,
            len == s@.len(),
            forall|k: int| start <= k < i ==> (#[trigger] s@[k]) != ':',
            split_fields(s@) == views_of(out@) + split_fields(s@.subrange(start as int, len as int)),
        decreases len - i,
    {
        if s.get_char(i) == ':' {
            let ghost pre_out = out@;
            let field = s.substring_char(start, i);
            out.push(String::from_str(field));
            proof {
                let sub = s@.subrange(start as int, len as int);
                assert forall|k: int| 0 <= k < i - start implies (#[trigger] sub[k]) != ':' by {
                    assert(sub[k] == s@[start + k]);
                }
                lemma_first_colon_stops(sub, 0, i - start);
                assert(sub.take(i - start) =~= field@);
                assert(sub.skip(i - start + 1) =~= s@.subrange(i + 1 as int, len as int));
                assert(views_of(out@) =~= views_of(pre_out).push(field@));
                assert(views_of(out@) + split_fields(s@.subrange(i + 1 as int, len as int))
                    =~= views_of(pre_out) + split_fields(s@.subrange(start as int, len as int)));
            }
            start = i + 1;
        }
        i += 1;
    }
    let ghost pre_out = out@;
    let field = s.substring_char(start, len);
    out.push(String::from_str(field));
    proof {
        let sub = s@.subrange(start as int, len as int);
        assert forall|k: int| 0 <= k < sub.len() implies (#[trigger] sub[k]) != ':' by {
            assert(sub[k] == s@[start + k]);
        }
        lemma_first_colon_stops(sub, 0, sub.len() as int);
        assert(sub =~= field@);
        assert(split_fields(sub) =~= seq![field@]);
        assert(views_of(out@) =~= views_of(pre_out).push(field@));
        assert(views_of(out@) =~= views_of(pre_out) + seq![field@]);
    }
    out
}

/// The payload of a client query.
pub enum ClientQueryPayload {
    FlightPlan(String),
    IsValidATCQuery(Option<String>),
    Unknown,
}

/// An inbound packet the session answers.
pub enum Packet {
    Metar { from: String, is_response: bool, payload: String },
    PlaneInfoRequest { from: String, to: String },
    ClientQuery { from: String, to: String, payload: ClientQueryPayload },
}

/// A METAR packet: a `$AX` request or `$AR` response whose third field
/// reads METAR, with the station or report in the fourth.
pub open spec fn is_metar_shape(f: Seq<Seq<char>>) -> bool {
    &&& f.len() >= 4
    &&& f[0].len() >= 3
    &&& (f[0].take(3) == "$AX"@ || f[0].take(3) == "$AR"@)
    &&& f[2] == "METAR"@
}

/// A plane-information request: `#SB` with PIR in the third field.
pub open spec fn is_pir_shape(f: Seq<Seq<char>>) -> bool {
    &&& f.len() >= 3
    &&& f[0].len() >= 3
    &&& f[0].take(3) == "#SB"@
    &&& f[2] == "PIR"@
}

/// A client query: `$CQ` with at least a sender, receiver and command.
pub open spec fn is_cq_shape(f: Seq<Seq<char>>) -> bool {
    &&& f.len() >= 3
    &&& f[0].len() >= 3
    &&& f[0].take(3) == "$CQ"@
}

/// Parses one inbound line. The result names the packet shape found,
/// with its fields; a line of no known shape yields nothing.
pub fn parse_packet(line: &str) -> (r: Option<Packet>)
    ensures
        ({
            let f = split_fields(line@);
            match r {
                Option::Some(p) => match p {
                    Packet::Metar { from, is_response, payload } => {
                        &&& is_metar_shape(f)
                        &&& from@ == f[0].skip(3)
                        &&& is_response == (f[0].take(3) == "$AR"@)
                        &&& payload@ == f[3]
                    },
                    Packet::PlaneInfoRequest { from, to } => {
                        &&& is_pir_shape(f)
                        &&& !is_metar_shape(f)
                        &&& from@ == f[0].skip(3)
                        &&& to@ == f[1]
                    },
                    Packet::ClientQuery { from, to, payload } => {
                        &&& is_cq_shape(f)
                        &&& !is_metar_shape(f)
                        &&& !is_pir_shape(f)
                        &&& from@ == f[0].skip(3)
                        &&& to@ == f[1]
                        &&& match payload {
                            ClientQueryPayload::FlightPlan(cs) => f[2] == "FP"@ && f.len() >= 4
                                && cs@ == f[3],
                            ClientQueryPayload::IsValidATCQuery(target) => f[2] == "ATC"@
                                && match target {
                                Option::Some(x) => f.len() >= 4 && x@ == f[3],
                                Option::None => f.len() == 3,
                            },
                            ClientQueryPayload::Unknown => f[2] != "ATC"@ && (f[2] != "FP"@
                                || f.len() < 4),
                        }
                    },
                },
                Option::None => !is_metar_shape(f) && !is_pir_shape(f) && !is_cq_shape(f),
            }
        }),
{
    let fields = split_colon(line);
    proof {
        assert(fields@[0]@ == split_fields(line@)[0]);
    }
    let f0 = &fields[0];
    let f0len = f0.as_str().unicode_len();
    if f0len < 3 {
        return None;
    }
    let prefix = f0.as_str().substring_char(0, 3);
    let from_str = f0.as_str().substring_char(3, f0len);
    proof {
        assert(prefix@ =~= split_fields(line@)[0].take(3));
        assert(from_str@ =~= split_fields(line@)[0].skip(3));
    }
    if (str_eq(prefix, "$AX") || str_eq(prefix, "$AR")) && fields.len() >= 4 && str_eq(
        fields[2].as_str(),
        "METAR",
    ) {
        proof {
            assert(fields@[2]@ == split_fields(line@)[2]);
            assert(fields@[3]@ == split_fields(line@)[3]);
        }
        return Some(
            Packet::Metar {
                from: String::from_str(from_str),
                is_response: str_eq(prefix, "$AR"),
                payload: fields[3].clone(),
            },
        );
    }
    if str_eq(prefix, "#SB") && fields.len() >= 3 && str_eq(fields[2].as_str(), "PIR") {
        proof {
            assert(fields@[1]@ == split_fields(line@)[1]);
            assert(fields@[2]@ == split_fields(line@)[2]);
        }
        return Some(
            Packet::PlaneInfoRequest {
                from: String::from_str(from_str),
                to: fields[1].clone(),
            },
        );
    }
    if str_eq(prefix, "$CQ") && fields.len() >= 3 {
        proof {
            assert(fields@[1]@ == split_fields(line@)[1]);
            assert(fields@[2]@ == split_fields(line@)[2]);
        }
        let payload: ClientQueryPayload = if str_eq(fields[2].as_str(), "FP") && fields.len()
            >= 4 {
            proof {
                assert(fields@[3]@ == split_fields(line@)[3]);
            }
            ClientQueryPayload::FlightPlan(fields[3].clone())
        } else if str_eq(fields[2].as_str(), "ATC") {
            if fields.len() >= 4 {
                proof {
                    assert(fields@[3]@ == split_fields(line@)[3]);
                }
                ClientQueryPayload::IsValidATCQuery(Some(fields[3].clone()))
            } else {
                ClientQueryPayload::IsValidATCQuery(None)
            }
        } else {
            ClientQueryPayload::Unknown
        };
        return Some(
            Packet::ClientQuery {
                from: String::from_str(from_str),
                to: fields[1].clone(),
                payload,
            },
        );
    }
    None
}

} // verus!
