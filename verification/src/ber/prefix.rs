//! Reading a value looks no further than the value: what follows it in the
//! input does not change what is read.

use super::model::{SpecField, SpecKind, SpecSchema};
use super::octets::{first_final, parse_header, parse_identifier, parse_length};
use super::roundtrip::{lemma_dec_fields_wt, lemma_dec_wt};
use super::spec::{
    absent, dec, dec_fields, dec_items_eoc, dec_segment, dec_segments_eoc, eoc_at, find_alt,
    indefinite_header, SEGMENT_DEPTH,
};
use vstd::prelude::*;

verus! {

/// The end of a base-128 number is found within the octets that hold it.
pub proof fn lemma_first_final_prefix(s: Seq<u8>, rest: Seq<u8>)
    ensures
        first_final(s) matches Some(k) ==> k < s.len() && first_final(s + rest) == Some(k),
    decreases s.len(),
{
    if s.len() > 0 && s[0] >= 128 {
        lemma_first_final_prefix(s.drop_first(), rest);
        assert((s + rest).drop_first() =~= s.drop_first() + rest);
    }
}

/// Identifier octets are read from themselves alone.
pub proof fn lemma_identifier_prefix(s: Seq<u8>, rest: Seq<u8>)
    ensures
        parse_identifier(s) matches Some((_, _, n)) ==> n <= s.len() && parse_identifier(s + rest)
            == parse_identifier(s),
{
    if s.len() > 0 {
        let r = s.skip(1);
        lemma_first_final_prefix(r, rest);
        assert((s + rest).skip(1) =~= r + rest);
        if let Some(k) = first_final(r) {
            assert((r + rest).take(k + 1 as int) =~= r.take(k + 1 as int));
        }
    }
}

/// Length octets are read from themselves alone.
pub proof fn lemma_length_prefix(s: Seq<u8>, rest: Seq<u8>)
    ensures
        parse_length(s) matches Some((_, n)) ==> n <= s.len() && parse_length(s + rest)
            == parse_length(s),
{
    if s.len() > 0 && s[0] >= 128 && s[0] != 128 && s[0] != 255 {
        let k = (s[0] - 128) as nat;
        if s.len() >= k + 1 {
            assert((s + rest).subrange(1, k + 1 as int) =~= s.subrange(1, k + 1 as int));
        }
    }
}

/// The header of an encoding is read alike whatever follows the encoding.
pub proof fn lemma_header_prefix(s: Seq<u8>, rest: Seq<u8>)
    ensures
        parse_header(s) is Some ==> parse_header(s + rest) == parse_header(s),
{
    lemma_identifier_prefix(s, rest);
    if let Some((tag, constructed, il)) = parse_identifier(s) {
        lemma_length_prefix(s.skip(il as int), rest);
        assert((s + rest).skip(il as int) =~= s.skip(il as int) + rest);
    }
}

/// An input that announces an indefinite length has no definite header,
/// whatever follows it.
pub proof fn lemma_indefinite_prefix(s: Seq<u8>, rest: Seq<u8>)
    ensures
        indefinite_header(s) is Some ==> parse_header(s + rest) is None && indefinite_header(
            s + rest,
        ) == indefinite_header(s),
{
    lemma_identifier_prefix(s, rest);
    if let Some((t, il)) = indefinite_header(s) {
        let n = parse_identifier(s)->Some_0.2;
        assert((s + rest)[n as int] == s[n as int]);
        assert((s + rest).skip(n as int)[0] == 0x80);
    }
}

/// A value starts with identifier octets.
pub proof fn lemma_dec_identifier(fuel: nat, s: SpecSchema, c: Seq<u8>)
    ensures
        dec(fuel, s, c) is Some ==> parse_identifier(c) is Some,
{
}

/// A value read from `input` is read alike from `input` followed by anything.
pub proof fn lemma_dec_prefix(fuel: nat, s: SpecSchema, input: Seq<u8>, rest: Seq<u8>)
    ensures
        dec(fuel, s, input) is Some ==> dec(fuel, s, input + rest) == dec(fuel, s, input),
    decreases fuel, 0nat,
{
    if fuel > 0 && dec(fuel, s, input) is Some {
        match s.kind {
            SpecKind::Choice(alts) => {
                lemma_identifier_prefix(input, rest);
                let t = parse_identifier(input)->Some_0.0;
                let i = find_alt(alts, t)->Some_0;
                lemma_dec_prefix((fuel - 1) as nat, alts[i as int], input, rest);
            },
            _ => {
                lemma_header_prefix(input, rest);
                if let Some(h) = parse_header(input) {
                    let content = input.subrange(
                        h.header_len as int,
                        (h.header_len + h.content_len) as int,
                    );
                    assert((input + rest).subrange(
                        h.header_len as int,
                        (h.header_len + h.content_len) as int,
                    ) =~= content);
                } else {
                    lemma_indefinite_prefix(input, rest);
                    let (t, hl) = indefinite_header(input)->Some_0;
                    let c = input.skip(hl as int);
                    assert((input + rest).skip(hl as int) =~= c + rest);
                    match s.kind {
                        SpecKind::Sequence(fs) => {
                            let m = dec_fields((fuel - 1) as nat, fs, c)->Some_0.1;
                            lemma_dec_fields_wt((fuel - 1) as nat, fs, c);
                            lemma_fields_prefix((fuel - 1) as nat, fs, c, rest);
                            assert((c + rest).skip(m as int)[0] == c.skip(m as int)[0]);
                            assert((c + rest).skip(m as int)[1] == c.skip(m as int)[1]);
                        },
                        SpecKind::SequenceOf(e) => {
                            lemma_items_eoc_prefix((fuel - 1) as nat, *e, c, rest);
                        },
                        SpecKind::OctetString => {
                            lemma_segments_eoc_prefix(SEGMENT_DEPTH as nat, c, rest);
                        },
                        _ => {},
                    }
                }
            },
        }
    }
}

/// Components read from `c`, when more octets of `c` follow them, are read
/// alike from `c` followed by anything.
pub proof fn lemma_fields_prefix(fuel: nat, fs: Seq<SpecField>, c: Seq<u8>, rest: Seq<u8>)
    ensures
        dec_fields(fuel, fs, c) matches Some((_, m)) ==> (m < c.len() ==> dec_fields(
            fuel,
            fs,
            c + rest,
        ) == dec_fields(fuel, fs, c)),
    decreases fuel, fs.len() + 1,
{
    if fs.len() > 0 {
        if let Some((vals, m)) = dec_fields(fuel, fs, c) {
            if m < c.len() {
                let tag = fs[0].schema.tag;
                lemma_identifier_prefix(c, rest);
                lemma_dec_identifier(fuel, fs[0].schema, c);
                lemma_dec_prefix(fuel, fs[0].schema, c, rest);
                lemma_dec_wt(fuel, fs[0].schema, c);
                if c.len() == 1 {
                    assert((c + rest)[0] == c[0]);
                } else {
                    assert((c + rest)[0] == c[0]);
                    assert((c + rest)[1] == c[1]);
                }
                assert(absent(tag, c + rest) == absent(tag, c) || (!fs[0].optional || !absent(
                    tag,
                    c,
                )));
                let n: nat = if fs[0].optional && absent(tag, c) {
                    0
                } else {
                    dec(fuel, fs[0].schema, c)->Some_0.1
                };
                assert((c + rest).skip(n as int) =~= c.skip(n as int) + rest);
                lemma_fields_prefix(fuel, fs.drop_first(), c.skip(n as int), rest);
            }
        }
    }
}

/// The elements of an indefinite-length SEQUENCE OF read from `c` are read
/// alike from `c` followed by anything.
pub proof fn lemma_items_eoc_prefix(fuel: nat, e: SpecSchema, c: Seq<u8>, rest: Seq<u8>)
    ensures
        dec_items_eoc(fuel, e, c) is Some ==> dec_items_eoc(fuel, e, c + rest) == dec_items_eoc(
            fuel,
            e,
            c,
        ),
    decreases fuel, c.len() + 1,
{
    if dec_items_eoc(fuel, e, c) is Some {
        if eoc_at(c) {
            assert((c + rest)[0] == c[0] && (c + rest)[1] == c[1]);
        } else {
            lemma_dec_identifier(fuel, e, c);
            lemma_dec_prefix(fuel, e, c, rest);
            assert((c + rest)[0] == c[0]);
            if c.len() >= 2 {
                assert((c + rest)[1] == c[1]);
            }
            let n = dec(fuel, e, c)->Some_0.1;
            assert((c + rest).skip(n as int) =~= c.skip(n as int) + rest);
            lemma_items_eoc_prefix(fuel, e, c.skip(n as int), rest);
        }
    }
}

/// A segment of a constructed OCTET STRING read from `c` is read alike from
/// `c` followed by anything.
pub proof fn lemma_segment_prefix(d: nat, c: Seq<u8>, rest: Seq<u8>)
    ensures
        dec_segment(d, c) is Some ==> dec_segment(d, c + rest) == dec_segment(d, c),
    decreases d, c.len(), 0nat,
{
    if dec_segment(d, c) is Some {
        if let Some(h) = parse_header(c) {
            lemma_header_prefix(c, rest);
            let n = h.header_len + h.content_len;
            assert((c + rest).subrange(h.header_len as int, n as int) =~= c.subrange(
                h.header_len as int,
                n as int,
            ));
        } else {
            lemma_indefinite_prefix(c, rest);
            let (t, hl) = indefinite_header(c)->Some_0;
            assert(d > 0);
            assert((c + rest).skip(hl as int) =~= c.skip(hl as int) + rest);
            lemma_segments_eoc_prefix((d - 1) as nat, c.skip(hl as int), rest);
        }
    }
}

/// The segments of an indefinite-length OCTET STRING read from `c` are read
/// alike from `c` followed by anything.
pub proof fn lemma_segments_eoc_prefix(d: nat, c: Seq<u8>, rest: Seq<u8>)
    ensures
        dec_segments_eoc(d, c) is Some ==> dec_segments_eoc(d, c + rest) == dec_segments_eoc(d, c),
    decreases d, c.len(), 1nat,
{
    if dec_segments_eoc(d, c) is Some {
        if eoc_at(c) {
            assert((c + rest)[0] == c[0] && (c + rest)[1] == c[1]);
        } else {
            lemma_identifier_prefix(c, rest);
            assert((c + rest)[0] == c[0]);
            if c.len() >= 2 {
                assert((c + rest)[1] == c[1]);
            }
            lemma_segment_prefix(d, c, rest);
            let n = dec_segment(d, c)->Some_0.1;
            assert(0 < n <= c.len());
            assert((c + rest).skip(n as int) =~= c.skip(n as int) + rest);
            lemma_segments_eoc_prefix(d, c.skip(n as int), rest);
        }
    }
}

} // verus!
