//! What the BER encoding of a value is, and how a string of octets is read
//! back as a value (X.690). Values are written in the definite-length form,
//! primitive where they can be; the other forms BER allows for the types CAP
//! uses are read too.
//!
//! Every definition takes a `fuel` argument that bounds the nesting depth of the
//! schema; each nested type is read or written with one unit less.

use super::integer::fits_i64;
use super::model::{Asn, SpecField, SpecKind, SpecSchema};
use super::octets::{be_signed, int_octets, parse_header, parse_identifier, tlv, Tag, UNIVERSAL};
use vstd::prelude::*;

verus! {

/// A schema that can be written and read back: valid tags, no CHOICE as a
/// component or element, the components of a SEQUENCE and the alternatives
/// of a CHOICE each under a distinct tag.
pub open spec fn wf(fuel: nat, s: SpecSchema) -> bool
    decreases fuel,
{
    if fuel == 0 {
        false
    } else {
        match s.kind {
            SpecKind::Sequence(fs) => {
                &&& s.tag.valid()
                &&& forall|i: int|
                    0 <= i < fs.len() ==> !(#[trigger] fs[i].schema.kind is Choice) && wf(
                        (fuel - 1) as nat,
                        fs[i].schema,
                    )
                &&& forall|i: int, j: int|
                    0 <= i < j < fs.len() ==> #[trigger] fs[i].schema.tag != #[trigger] fs[j].schema.tag
            },
            SpecKind::SequenceOf(e) => {
                &&& s.tag.valid()
                &&& !(e.kind is Choice)
                &&& wf((fuel - 1) as nat, *e)
            },
            SpecKind::Choice(alts) => {
                &&& forall|i: int|
                    0 <= i < alts.len() ==> !(#[trigger] alts[i].kind is Choice) && wf(
                        (fuel - 1) as nat,
                        alts[i],
                    )
                &&& forall|i: int, j: int|
                    0 <= i < j < alts.len() ==> #[trigger] alts[i].tag != #[trigger] alts[j].tag
            },
            _ => s.tag.valid(),
        }
    }
}

/// `v` is a value of the type `s`.
pub open spec fn wt(fuel: nat, s: SpecSchema, v: Asn) -> bool
    decreases fuel,
{
    if fuel == 0 {
        false
    } else {
        match s.kind {
            SpecKind::Boolean => v is Bool,
            SpecKind::Integer => v is Integer,
            SpecKind::Null => v is Null,
            SpecKind::OctetString => v is Octets,
            SpecKind::Enumerated(allowed) => v matches Asn::Int(i) && allowed.contains(i),
            SpecKind::Sequence(fs) => v matches Asn::Sequence(vals) && vals.len() == fs.len() && (
            forall|i: int|
                0 <= i < fs.len() ==> match #[trigger] vals[i] {
                    None => fs[i].optional,
                    Some(x) => wt((fuel - 1) as nat, fs[i].schema, x),
                }),
            SpecKind::SequenceOf(e) => v matches Asn::SequenceOf(items) && (forall|i: int|
                0 <= i < items.len() ==> wt((fuel - 1) as nat, *e, #[trigger] items[i])),
            SpecKind::Choice(alts) => v matches Asn::Choice(i, b) && i < alts.len() && wt(
                (fuel - 1) as nat,
                alts[i as int],
                *b,
            ),
        }
    }
}

/// The contents octets of a BOOLEAN.
pub open spec fn bool_octets(b: bool) -> Seq<u8> {
    if b {
        seq![0xFFu8]
    } else {
        seq![0x00u8]
    }
}

/// The BER encoding of `v` as a value of `s`.
pub open spec fn enc(fuel: nat, s: SpecSchema, v: Asn) -> Seq<u8>
    decreases fuel, 0nat,
{
    if fuel == 0 {
        Seq::empty()
    } else {
        match s.kind {
            SpecKind::Boolean => match v {
                Asn::Bool(b) => tlv(s.tag, false, bool_octets(b)),
                _ => Seq::empty(),
            },
            SpecKind::Integer => match v {
                Asn::Integer(i) => tlv(s.tag, false, int_octets(i)),
                _ => Seq::empty(),
            },
            SpecKind::Enumerated(_) => match v {
                Asn::Int(i) => tlv(s.tag, false, int_octets(i as int)),
                _ => Seq::empty(),
            },
            SpecKind::Null => match v {
                Asn::Null => tlv(s.tag, false, Seq::empty()),
                _ => Seq::empty(),
            },
            SpecKind::OctetString => match v {
                Asn::Octets(o) => tlv(s.tag, false, o),
                _ => Seq::empty(),
            },
            SpecKind::Sequence(fs) => match v {
                Asn::Sequence(vals) => tlv(s.tag, true, enc_fields((fuel - 1) as nat, fs, vals)),
                _ => Seq::empty(),
            },
            SpecKind::SequenceOf(e) => match v {
                Asn::SequenceOf(items) => tlv(s.tag, true, enc_items((fuel - 1) as nat, *e, items)),
                _ => Seq::empty(),
            },
            SpecKind::Choice(alts) => match v {
                Asn::Choice(i, b) => if i < alts.len() {
                    enc((fuel - 1) as nat, alts[i as int], *b)
                } else {
                    Seq::empty()
                },
                _ => Seq::empty(),
            },
        }
    }
}

/// The components of a SEQUENCE, in order; an absent one is not written.
pub open spec fn enc_fields(fuel: nat, fs: Seq<SpecField>, vals: Seq<Option<Asn>>) -> Seq<u8>
    decreases fuel, vals.len() + 1,
{
    if vals.len() == 0 || fs.len() == 0 {
        Seq::empty()
    } else {
        (match vals[0] {
            Some(x) => enc(fuel, fs[0].schema, x),
            None => Seq::empty(),
        }) + enc_fields(fuel, fs.drop_first(), vals.drop_first())
    }
}

/// The elements of a SEQUENCE OF, in order.
pub open spec fn enc_items(fuel: nat, e: SpecSchema, items: Seq<Asn>) -> Seq<u8>
    decreases fuel, items.len() + 1,
{
    if items.len() == 0 {
        Seq::empty()
    } else {
        enc(fuel, e, items[0]) + enc_items(fuel, e, items.drop_first())
    }
}

/// The first alternative written under `t`.
pub open spec fn find_alt(alts: Seq<SpecSchema>, t: Tag) -> Option<nat>
    decreases alts.len(),
{
    if alts.len() == 0 {
        None
    } else if alts[0].tag == t {
        Some(0)
    } else {
        match find_alt(alts.drop_first(), t) {
            Some(i) => Some(i + 1),
            None => None,
        }
    }
}

/// An OPTIONAL component under `tag` is absent from what is left of the
/// contents `c`: nothing is left, an end-of-contents pair follows, or the
/// next identifier carries another tag.
pub open spec fn absent(tag: Tag, c: Seq<u8>) -> bool {
    ||| c.len() == 0
    ||| (c.len() >= 2 && c[0] == 0 && c[1] == 0)
    ||| (parse_identifier(c) matches Some((t, _, _)) && t != tag)
}

/// The tag of the segments of a constructed OCTET STRING.
pub open spec fn segment_tag() -> Tag {
    Tag { class: UNIVERSAL, number: 4 }
}

/// How deep the segments of a constructed OCTET STRING may nest: a
/// constructed string is read with this depth, and each constructed segment
/// with one less than the string that holds it.
pub const SEGMENT_DEPTH: u32 = 100;

/// Reads one segment of a constructed OCTET STRING from the start of `input`,
/// at nesting depth `d`: its contents and the number of octets it takes. A
/// segment is an OCTET STRING itself, primitive or, while `d` is positive,
/// constructed of further segments, in the definite or the indefinite form.
pub open spec fn dec_segment(d: nat, input: Seq<u8>) -> Option<(Seq<u8>, nat)>
    decreases d, input.len(), 0nat,
{
    match parse_header(input) {
        Some(h) => if h.tag != segment_tag() || h.header_len == 0 {
            None
        } else {
            let n = h.header_len + h.content_len;
            let content = input.subrange(h.header_len as int, n as int);
            if !h.constructed {
                Some((content, n))
            } else if d == 0 {
                None
            } else {
                match dec_segments((d - 1) as nat, content) {
                    Some(b) => Some((b, n)),
                    None => None,
                }
            }
        },
        None => match indefinite_header(input) {
            Some((t, hl)) => if t != segment_tag() || d == 0 {
                None
            } else {
                match dec_segments_eoc((d - 1) as nat, input.skip(hl as int)) {
                    Some((b, m)) => Some((b, hl + m + 2)),
                    None => None,
                }
            },
            None => None,
        },
    }
}

/// Reads all of `c` as the segments of a constructed OCTET STRING at nesting
/// depth `d`: their contents, one after the other.
pub open spec fn dec_segments(d: nat, c: Seq<u8>) -> Option<Seq<u8>>
    decreases d, c.len(), 1nat,
{
    if c.len() == 0 {
        Some(Seq::empty())
    } else {
        match dec_segment(d, c) {
            Some((b, n)) => if 0 < n <= c.len() {
                match dec_segments(d, c.skip(n as int)) {
                    Some(rest) => Some(b + rest),
                    None => None,
                }
            } else {
                None
            },
            None => None,
        }
    }
}

/// Reads the segments of a constructed OCTET STRING of indefinite length at
/// nesting depth `d` from the start of `c`, up to the end-of-contents octets:
/// their contents, one after the other, and the number of octets the
/// segments take.
pub open spec fn dec_segments_eoc(d: nat, c: Seq<u8>) -> Option<(Seq<u8>, nat)>
    decreases d, c.len(), 1nat,
{
    if eoc_at(c) {
        Some((Seq::empty(), 0))
    } else {
        match dec_segment(d, c) {
            Some((b, n)) => if 0 < n <= c.len() {
                match dec_segments_eoc(d, c.skip(n as int)) {
                    Some((rest, m)) => Some((b + rest, n + m)),
                    None => None,
                }
            } else {
                None
            },
            None => None,
        }
    }
}

/// `c` starts with the end-of-contents octets `00 00`.
pub open spec fn eoc_at(c: Seq<u8>) -> bool {
    c.len() >= 2 && c[0] == 0 && c[1] == 0
}

/// The identifier octets of a constructed encoding followed by the
/// indefinite-length octet `0x80`: the tag and the number of header octets.
pub open spec fn indefinite_header(s: Seq<u8>) -> Option<(Tag, nat)> {
    match parse_identifier(s) {
        Some((t, constructed, il)) => if constructed && il < s.len() && s[il as int] == 0x80 {
            Some((t, il + 1))
        } else {
            None
        },
        None => None,
    }
}

/// Reads a value of `s` from the start of `input`: the value and the number
/// of octets it takes; `None` where `input` does not start with one.
///
/// An OCTET STRING may be constructed, of OCTET STRING segments that may be
/// constructed in turn, up to `SEGMENT_DEPTH` levels deep. A constructed
/// OCTET STRING, SEQUENCE or SEQUENCE OF may have the indefinite
/// length: its contents then run up to the end-of-contents octets that follow
/// them.
pub open spec fn dec(fuel: nat, s: SpecSchema, input: Seq<u8>) -> Option<(Asn, nat)>
    decreases fuel, 0nat,
{
    if fuel == 0 {
        None
    } else {
        match s.kind {
            SpecKind::Choice(alts) => match parse_identifier(input) {
                None => None,
                Some((t, _, _)) => match find_alt(alts, t) {
                    None => None,
                    Some(i) => match dec((fuel - 1) as nat, alts[i as int], input) {
                        Some((v, n)) => Some((Asn::Choice(i, Box::new(v)), n)),
                        None => None,
                    },
                },
            },
            _ => match parse_header(input) {
                None => match indefinite_header(input) {
                    None => None,
                    Some((t, hl)) => if t != s.tag {
                        None
                    } else {
                        let c = input.skip(hl as int);
                        match s.kind {
                            SpecKind::Sequence(fs) => match dec_fields((fuel - 1) as nat, fs, c) {
                                Some((vals, m)) => if eoc_at(c.skip(m as int)) {
                                    Some((Asn::Sequence(vals), hl + m + 2))
                                } else {
                                    None
                                },
                                None => None,
                            },
                            SpecKind::SequenceOf(e) => match dec_items_eoc((fuel - 1) as nat, *e, c) {
                                Some((items, m)) => Some((Asn::SequenceOf(items), hl + m + 2)),
                                None => None,
                            },
                            SpecKind::OctetString => match dec_segments_eoc(SEGMENT_DEPTH as nat, c) {
                                Some((b, m)) => Some((Asn::Octets(b), hl + m + 2)),
                                None => None,
                            },
                            _ => None,
                        }
                    },
                },
                Some(h) => if h.tag != s.tag {
                    None
                } else {
                    let content = input.subrange(
                        h.header_len as int,
                        (h.header_len + h.content_len) as int,
                    );
                    let n = h.header_len + h.content_len;
                    match s.kind {
                        SpecKind::Boolean => if h.content_len == 1 {
                            Some((Asn::Bool(content[0] != 0), n))
                        } else {
                            None
                        },
                        SpecKind::Integer => if 1 <= h.content_len {
                            Some((Asn::Integer(be_signed(content)), n))
                        } else {
                            None
                        },
                        SpecKind::Enumerated(allowed) => if 1 <= h.content_len && fits_i64(
                            be_signed(content),
                        ) && allowed.contains(be_signed(content) as i64) {
                            Some((Asn::Int(be_signed(content) as i64), n))
                        } else {
                            None
                        },
                        SpecKind::Null => if h.content_len == 0 {
                            Some((Asn::Null, n))
                        } else {
                            None
                        },
                        SpecKind::OctetString => if !h.constructed {
                            Some((Asn::Octets(content), n))
                        } else {
                            match dec_segments(SEGMENT_DEPTH as nat, content) {
                                Some(b) => Some((Asn::Octets(b), n)),
                                None => None,
                            }
                        },
                        SpecKind::Sequence(fs) => if !h.constructed {
                            None
                        } else {
                            match dec_fields((fuel - 1) as nat, fs, content) {
                                Some((vals, m)) => if m == content.len() {
                                    Some((Asn::Sequence(vals), n))
                                } else {
                                    None
                                },
                                None => None,
                            }
                        },
                        SpecKind::SequenceOf(e) => if !h.constructed {
                            None
                        } else {
                            match dec_items((fuel - 1) as nat, *e, content) {
                                Some(items) => Some((Asn::SequenceOf(items), n)),
                                None => None,
                            }
                        },
                        SpecKind::Choice(_) => None,
                    }
                },
            },
        }
    }
}

/// Reads the components of a SEQUENCE from the start of `c`.
pub open spec fn dec_fields(fuel: nat, fs: Seq<SpecField>, c: Seq<u8>) -> Option<
    (Seq<Option<Asn>>, nat),
>
    decreases fuel, fs.len() + 1,
{
    if fs.len() == 0 {
        Some((Seq::empty(), 0))
    } else {
        let head: Option<(Option<Asn>, nat)> = if fs[0].optional && absent(fs[0].schema.tag, c) {
            Some((None, 0))
        } else {
            match dec(fuel, fs[0].schema, c) {
                Some((v, n)) => Some((Some(v), n)),
                None => None,
            }
        };
        match head {
            None => None,
            Some((hv, n)) => match dec_fields(fuel, fs.drop_first(), c.skip(n as int)) {
                Some((rest, m)) => Some((seq![hv] + rest, n + m)),
                None => None,
            },
        }
    }
}

/// Reads the elements of a SEQUENCE OF of indefinite length from the start of
/// `c`, up to the end-of-contents octets: the elements and the number of
/// octets they take.
pub open spec fn dec_items_eoc(fuel: nat, e: SpecSchema, c: Seq<u8>) -> Option<(Seq<Asn>, nat)>
    decreases fuel, c.len() + 1,
{
    if eoc_at(c) {
        Some((Seq::empty(), 0))
    } else if c.len() == 0 {
        None
    } else {
        match dec(fuel, e, c) {
            None => None,
            Some((v, n)) => if n == 0 || n > c.len() {
                None
            } else {
                match dec_items_eoc(fuel, e, c.skip(n as int)) {
                    Some((rest, m)) => Some((seq![v] + rest, n + m)),
                    None => None,
                }
            },
        }
    }
}

/// Reads all of `c` as the elements of a SEQUENCE OF.
pub open spec fn dec_items(fuel: nat, e: SpecSchema, c: Seq<u8>) -> Option<Seq<Asn>>
    decreases fuel, c.len() + 1,
{
    if c.len() == 0 {
        Some(Seq::empty())
    } else {
        match dec(fuel, e, c) {
            None => None,
            Some((v, n)) => if n == 0 || n > c.len() {
                None
            } else {
                match dec_items(fuel, e, c.skip(n as int)) {
                    Some(rest) => Some(seq![v] + rest),
                    None => None,
                }
            },
        }
    }
}

} // verus!
