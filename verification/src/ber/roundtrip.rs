//! What is written is read back: decoding the encoding of a value gives the
//! value, whatever follows the encoding.

use super::model::{Asn, SpecField, SpecKind, SpecSchema};
use super::octets::{lemma_int_octets, lemma_int_octets_i64, lemma_tlv_roundtrip, parse_header, parse_identifier, Tag};
use super::spec::{
    absent, bool_octets, dec, dec_fields, dec_items, dec_items_eoc, enc, enc_fields, enc_items,
    dec_segment, dec_segments_eoc, eoc_at, find_alt, indefinite_header, wf, wt, SEGMENT_DEPTH,
};
use vstd::prelude::*;

verus! {

/// The alternative of a CHOICE is found again by its tag.
pub proof fn lemma_find_alt(alts: Seq<SpecSchema>, i: int)
    requires
        0 <= i < alts.len(),
        forall|a: int, b: int|
            0 <= a < b < alts.len() ==> #[trigger] alts[a].tag != #[trigger] alts[b].tag,
    ensures
        find_alt(alts, alts[i].tag) == Some(i as nat),
    decreases alts.len(),
{
    if i > 0 {
        let rest = alts.drop_first();
        assert(alts[0].tag != alts[i].tag);
        assert(rest[i - 1] == alts[i]);
        lemma_find_alt(rest, i - 1);
    }
}

/// Decoding the encoding of a well-typed value gives the value back and
/// reports the length of the encoding; what follows is not read.
pub proof fn lemma_enc_dec(fuel: nat, s: SpecSchema, v: Asn, rest: Seq<u8>)
    requires
        wf(fuel, s),
        wt(fuel, s, v),
        enc(fuel, s, v).len() < 0x1_0000_0000_0000_0000,
    ensures
        dec(fuel, s, enc(fuel, s, v) + rest) == Some((v, enc(fuel, s, v).len())),
        enc(fuel, s, v).len() > 0,
        enc(fuel, s, v)[0] != 0,
        !(s.kind is Choice) ==> (parse_identifier(enc(fuel, s, v) + rest) matches Some(
            (t, _, _),
        ) && t == s.tag),
    decreases fuel, 0nat,
{
    let e = enc(fuel, s, v);
    let input = e + rest;
    match s.kind {
        SpecKind::Boolean => {
            let b = v->Bool_0;
            lemma_tlv_roundtrip(s.tag, false, bool_octets(b), rest);
        },
        SpecKind::Integer => {
            let i = v->Integer_0;
            lemma_int_octets(i);
            lemma_tlv_roundtrip(s.tag, false, super::octets::int_octets(i), rest);
        },
        SpecKind::Enumerated(_) => {
            let i = v->Int_0;
            lemma_int_octets_i64(i);
            lemma_tlv_roundtrip(s.tag, false, super::octets::int_octets(i as int), rest);
        },
        SpecKind::Null => {
            lemma_tlv_roundtrip(s.tag, false, Seq::empty(), rest);
        },
        SpecKind::OctetString => {
            let o = v->Octets_0;
            lemma_tlv_roundtrip(s.tag, false, o, rest);
        },
        SpecKind::Sequence(fs) => {
            let vals = v->Sequence_0;
            let c = enc_fields((fuel - 1) as nat, fs, vals);
            lemma_tlv_roundtrip(s.tag, true, c, rest);
            lemma_fields((fuel - 1) as nat, fs, vals);
        },
        SpecKind::SequenceOf(el) => {
            let items = v->SequenceOf_0;
            let c = enc_items((fuel - 1) as nat, *el, items);
            lemma_tlv_roundtrip(s.tag, true, c, rest);
            lemma_items((fuel - 1) as nat, *el, items);
        },
        SpecKind::Choice(alts) => {
            let i = v->Choice_0;
            let b = *v->Choice_1;
            assert(!(alts[i as int].kind is Choice));
            lemma_enc_dec((fuel - 1) as nat, alts[i as int], b, rest);
            lemma_find_alt(alts, i as int);
        },
    }
}

/// The components of a SEQUENCE are read back from their encoding.
#[verifier::spinoff_prover]
pub proof fn lemma_fields(fuel: nat, fs: Seq<SpecField>, vals: Seq<Option<Asn>>)
    requires
        forall|i: int|
            0 <= i < fs.len() ==> !(#[trigger] fs[i].schema.kind is Choice) && wf(
                fuel,
                fs[i].schema,
            ),
        forall|i: int, j: int|
            0 <= i < j < fs.len() ==> #[trigger] fs[i].schema.tag != #[trigger] fs[j].schema.tag,
        vals.len() == fs.len(),
        forall|i: int|
            0 <= i < fs.len() ==> match #[trigger] vals[i] {
                None => fs[i].optional,
                Some(x) => wt(fuel, fs[i].schema, x),
            },
        enc_fields(fuel, fs, vals).len() < 0x1_0000_0000_0000_0000,
    ensures
        dec_fields(fuel, fs, enc_fields(fuel, fs, vals)) == Some(
            (vals, enc_fields(fuel, fs, vals).len()),
        ),
        enc_fields(fuel, fs, vals).len() > 0 ==> {
            &&& enc_fields(fuel, fs, vals)[0] != 0
            &&& parse_identifier(enc_fields(fuel, fs, vals)) matches Some((t, _, _))
            &&& exists|j: int| 0 <= j < fs.len() && t == #[trigger] fs[j].schema.tag
        },
    decreases fuel, fs.len() + 1,
{
    if fs.len() > 0 {
        let fs1 = fs.drop_first();
        let vals1 = vals.drop_first();
        let tail = enc_fields(fuel, fs1, vals1);
        assert forall|i: int| 0 <= i < fs1.len() implies match #[trigger] vals1[i] {
            None => fs1[i].optional,
            Some(x) => wt(fuel, fs1[i].schema, x),
        } by {
            assert(vals1[i] == vals[i + 1]);
            assert(fs1[i] == fs[i + 1]);
        }
        assert forall|i: int| 0 <= i < fs1.len() implies !(#[trigger] fs1[i].schema.kind is Choice)
            && wf(fuel, fs1[i].schema) by {
            assert(fs1[i] == fs[i + 1]);
        }
        assert forall|i: int, j: int|
            0 <= i < j < fs1.len() implies #[trigger] fs1[i].schema.tag
            != #[trigger] fs1[j].schema.tag by {
            assert(fs1[i] == fs[i + 1]);
            assert(fs1[j] == fs[j + 1]);
        }
        let c = enc_fields(fuel, fs, vals);
        match vals[0] {
            Some(x) => {
                assert(!(fs[0].schema.kind is Choice) && wf(fuel, fs[0].schema));
                let head = enc(fuel, fs[0].schema, x);
                assert(c == head + tail);
                lemma_enc_dec(fuel, fs[0].schema, x, tail);
                lemma_fields(fuel, fs1, vals1);
                assert(c.skip(head.len() as int) =~= tail);
                assert(!absent(fs[0].schema.tag, c));
                assert(seq![Some(x)] + vals1 =~= vals);
                assert(c[0] == head[0]);
            },
            None => {
                assert(c == tail);
                lemma_fields(fuel, fs1, vals1);
                if tail.len() > 0 {
                    let t = parse_identifier(tail)->Some_0.0;
                    let j = choose|j: int| 0 <= j < fs1.len() && t == #[trigger] fs1[j].schema.tag;
                    assert(fs1[j] == fs[j + 1]);
                    assert(fs[0].schema.tag != fs[j + 1].schema.tag);
                }
                assert(absent(fs[0].schema.tag, c));
                assert(c.skip(0) =~= c);
                assert(seq![None] + vals1 =~= vals);
            },
        }
    }
}

/// The elements of a SEQUENCE OF are read back from their encoding.
pub proof fn lemma_items(fuel: nat, e: SpecSchema, items: Seq<Asn>)
    requires
        !(e.kind is Choice),
        wf(fuel, e),
        forall|i: int| 0 <= i < items.len() ==> wt(fuel, e, #[trigger] items[i]),
        enc_items(fuel, e, items).len() < 0x1_0000_0000_0000_0000,
    ensures
        dec_items(fuel, e, enc_items(fuel, e, items)) == Some(items),
    decreases fuel, items.len() + 1,
{
    if items.len() > 0 {
        let items1 = items.drop_first();
        let tail = enc_items(fuel, e, items1);
        let head = enc(fuel, e, items[0]);
        let c = enc_items(fuel, e, items);
        assert(c == head + tail);
        assert forall|i: int| 0 <= i < items1.len() implies wt(fuel, e, #[trigger] items1[i]) by {
            assert(items1[i] == items[i + 1]);
        }
        lemma_enc_dec(fuel, e, items[0], tail);
        lemma_items(fuel, e, items1);
        assert(c.skip(head.len() as int) =~= tail);
        assert(seq![items[0]] + items1 =~= items);
    }
}

/// The alternative found by its tag is one of the alternatives.
pub proof fn lemma_find_alt_bound(alts: Seq<SpecSchema>, t: Tag)
    ensures
        find_alt(alts, t) matches Some(i) ==> i < alts.len() && alts[i as int].tag == t,
    decreases alts.len(),
{
    if alts.len() > 0 && alts[0].tag != t {
        lemma_find_alt_bound(alts.drop_first(), t);
    }
}

/// What is read is a value of the schema, and no more octets are consumed
/// than there are.
pub proof fn lemma_dec_wt(fuel: nat, s: SpecSchema, input: Seq<u8>)
    ensures
        dec(fuel, s, input) matches Some((v, n)) ==> wt(fuel, s, v) && n <= input.len(),
    decreases fuel, 0nat,
{
    if fuel > 0 {
        match s.kind {
            SpecKind::Choice(alts) => {
                if let Some((t, _, _)) = parse_identifier(input) {
                    lemma_find_alt_bound(alts, t);
                    if let Some(i) = find_alt(alts, t) {
                        lemma_dec_wt((fuel - 1) as nat, alts[i as int], input);
                    }
                }
            },
            SpecKind::Sequence(fs) => {
                if let Some(h) = parse_header(input) {
                    let content = input.subrange(
                        h.header_len as int,
                        (h.header_len + h.content_len) as int,
                    );
                    lemma_dec_fields_wt((fuel - 1) as nat, fs, content);
                } else if let Some((t, hl)) = indefinite_header(input) {
                    let c = input.skip(hl as int);
                    lemma_dec_fields_wt((fuel - 1) as nat, fs, c);
                }
            },
            SpecKind::OctetString => {
                if parse_header(input) is None {
                    if let Some((t, hl)) = indefinite_header(input) {
                        lemma_segments_eoc_bound(SEGMENT_DEPTH as nat, input.skip(hl as int));
                    }
                }
            },
            SpecKind::SequenceOf(e) => {
                if let Some(h) = parse_header(input) {
                    let content = input.subrange(
                        h.header_len as int,
                        (h.header_len + h.content_len) as int,
                    );
                    lemma_dec_items_wt((fuel - 1) as nat, *e, content);
                } else if let Some((t, hl)) = indefinite_header(input) {
                    let c = input.skip(hl as int);
                    lemma_dec_items_eoc_wt((fuel - 1) as nat, *e, c);
                }
            },
            _ => {},
        }
    }
}

/// What is read as the components of a SEQUENCE fits its schema.
pub proof fn lemma_dec_fields_wt(fuel: nat, fs: Seq<SpecField>, c: Seq<u8>)
    ensures
        dec_fields(fuel, fs, c) matches Some((vals, m)) ==> {
            &&& vals.len() == fs.len()
            &&& m <= c.len()
            &&& forall|i: int|
                0 <= i < fs.len() ==> match #[trigger] vals[i] {
                    None => fs[i].optional,
                    Some(x) => wt(fuel, fs[i].schema, x),
                }
        },
    decreases fuel, fs.len() + 1,
{
    if fs.len() > 0 {
        lemma_dec_wt(fuel, fs[0].schema, c);
        let head: Option<(Option<Asn>, nat)> = if fs[0].optional && absent(fs[0].schema.tag, c) {
            Some((None, 0))
        } else {
            match dec(fuel, fs[0].schema, c) {
                Some((v, n)) => Some((Some(v), n)),
                None => None,
            }
        };
        if let Some((hv, n)) = head {
            let fs1 = fs.drop_first();
            let c1 = c.skip(n as int);
            lemma_dec_fields_wt(fuel, fs1, c1);
            if let Some((rest, m)) = dec_fields(fuel, fs1, c1) {
                let vals = seq![hv] + rest;
                assert forall|i: int| 0 <= i < fs.len() implies match #[trigger] vals[i] {
                    None => fs[i].optional,
                    Some(x) => wt(fuel, fs[i].schema, x),
                } by {
                    if i > 0 {
                        assert(vals[i] == rest[i - 1]);
                        assert(fs[i] == fs1[i - 1]);
                    }
                }
            }
        }
    }
}

/// What is read as the elements of a SEQUENCE OF fits its element type.
pub proof fn lemma_dec_items_wt(fuel: nat, e: SpecSchema, c: Seq<u8>)
    ensures
        dec_items(fuel, e, c) matches Some(items) ==> forall|i: int|
            0 <= i < items.len() ==> wt(fuel, e, #[trigger] items[i]),
    decreases fuel, c.len() + 1,
{
    if c.len() > 0 {
        lemma_dec_wt(fuel, e, c);
        if let Some((v, n)) = dec(fuel, e, c) {
            if n > 0 && n <= c.len() {
                let c1 = c.skip(n as int);
                lemma_dec_items_wt(fuel, e, c1);
                if let Some(rest) = dec_items(fuel, e, c1) {
                    let items = seq![v] + rest;
                    assert forall|i: int| 0 <= i < items.len() implies wt(fuel, e, #[trigger] items[i]) by {
                        if i > 0 {
                            assert(items[i] == rest[i - 1]);
                        }
                    }
                }
            }
        }
    }
}

/// What is read as the elements of a SEQUENCE OF of indefinite length fits
/// its element type, and the end-of-contents octets follow within `c`.
pub proof fn lemma_dec_items_eoc_wt(fuel: nat, e: SpecSchema, c: Seq<u8>)
    ensures
        dec_items_eoc(fuel, e, c) matches Some((items, m)) ==> {
            &&& m + 2 <= c.len()
            &&& eoc_at(c.skip(m as int))
            &&& forall|i: int| 0 <= i < items.len() ==> wt(fuel, e, #[trigger] items[i])
        },
    decreases fuel, c.len() + 1,
{
    if eoc_at(c) {
        assert(c.skip(0) =~= c);
    } else if c.len() > 0 {
        lemma_dec_wt(fuel, e, c);
        if let Some((v, n)) = dec(fuel, e, c) {
            if n > 0 && n <= c.len() {
                let c1 = c.skip(n as int);
                lemma_dec_items_eoc_wt(fuel, e, c1);
                if let Some((rest, m)) = dec_items_eoc(fuel, e, c1) {
                    let items = seq![v] + rest;
                    assert(c.skip((n + m) as int) =~= c1.skip(m as int));
                    assert forall|i: int| 0 <= i < items.len() implies wt(fuel, e, #[trigger] items[i]) by {
                        if i > 0 {
                            assert(items[i] == rest[i - 1]);
                        }
                    }
                }
            }
        }
    }
}

/// The segments of an indefinite-length OCTET STRING read from `c` end before
/// end-of-contents octets within `c`.
pub proof fn lemma_segments_eoc_bound(d: nat, c: Seq<u8>)
    ensures
        dec_segments_eoc(d, c) matches Some((_, m)) ==> m + 2 <= c.len() && eoc_at(
            c.skip(m as int),
        ),
    decreases c.len(),
{
    if eoc_at(c) {
        assert(c.skip(0) =~= c);
    } else if let Some((b, n)) = dec_segment(d, c) {
        if 0 < n <= c.len() {
            lemma_segments_eoc_bound(d, c.skip(n as int));
            if let Some((rest, m)) = dec_segments_eoc(d, c.skip(n as int)) {
                assert(c.skip((n + m) as int) =~= c.skip(n as int).skip(m as int));
            }
        }
    }
}

} // verus!
