//! Writing BER: each function appends the encoding its contract names.

use super::model::{
    fields_model, options_model, schema_model, schemas_model, value_model, values_model, AsnValue,
    Field, Kind, Schema,
};
use super::octets::{
    abs, base128_lead, be_octets, identifier_octets, int_octets, lemma_be_octets_short,
    length_octets, tlv, Tag,
};
use super::spec::{bool_octets, enc, enc_fields, enc_items, wf};
use vstd::arithmetic::div_mod::{
    lemma_fundamental_div_mod, lemma_fundamental_div_mod_converse_div,
    lemma_fundamental_div_mod_converse_mod,
};
use vstd::prelude::*;

verus! {

pub proof fn lemma_fields_model(fs: Seq<Field>)
    ensures
        fields_model(fs).len() == fs.len(),
        forall|i: int|
            0 <= i < fs.len() ==> (#[trigger] fields_model(fs)[i]).optional == fs[i].optional
                && fields_model(fs)[i].schema == schema_model(fs[i].schema),
    decreases fs.len(),
{
    if fs.len() > 0 {
        lemma_fields_model(fs.drop_last());
    }
}

pub proof fn lemma_schemas_model(ss: Seq<Schema>)
    ensures
        schemas_model(ss).len() == ss.len(),
        forall|i: int| 0 <= i < ss.len() ==> #[trigger] schemas_model(ss)[i] == schema_model(ss[i]),
    decreases ss.len(),
{
    if ss.len() > 0 {
        lemma_schemas_model(ss.drop_last());
    }
}

pub proof fn lemma_values_model(vs: Seq<AsnValue>)
    ensures
        values_model(vs).len() == vs.len(),
        forall|i: int| 0 <= i < vs.len() ==> #[trigger] values_model(vs)[i] == value_model(vs[i]),
    decreases vs.len(),
{
    if vs.len() > 0 {
        lemma_values_model(vs.drop_last());
    }
}

pub proof fn lemma_options_model(vs: Seq<Option<AsnValue>>)
    ensures
        options_model(vs).len() == vs.len(),
        forall|i: int|
            0 <= i < vs.len() ==> #[trigger] options_model(vs)[i] == match vs[i] {
                Some(x) => Some(value_model(x)),
                None => None,
            },
    decreases vs.len(),
{
    if vs.len() > 0 {
        lemma_options_model(vs.drop_last());
    }
}

/// Appends the octets of `bytes`.
pub fn append_octets(out: &mut Vec<u8>, bytes: &[u8])
    ensures
        final(out)@ == old(out)@ + bytes@,
{
    let ghost start = out@;
    let mut i: usize = 0;
    while i < bytes.len()
        invariant
            i <= bytes.len(),
            out@ == start + bytes@.take(i as int),
        decreases bytes.len() - i,
    {
        out.push(bytes[i]);
        i = i + 1;
        assert(out@ =~= start + bytes@.take(i as int));
    }
    assert(bytes@.take(i as int) =~= bytes@);
}

fn write_base128_lead(n: u32, out: &mut Vec<u8>)
    ensures
        final(out)@ == old(out)@ + base128_lead(n as nat),
    decreases n,
{
    if n != 0 {
        let ghost start = out@;
        write_base128_lead(n / 128, out);
        out.push((n % 128 + 128) as u8);
        assert(out@ =~= start + base128_lead(n as nat));
    } else {
        assert(out@ =~= old(out)@ + base128_lead(n as nat));
    }
}

/// Appends the identifier octets of `tag`.
pub fn write_identifier(tag: Tag, constructed: bool, out: &mut Vec<u8>)
    requires
        tag.valid(),
    ensures
        final(out)@ == old(out)@ + identifier_octets(tag, constructed),
{
    let lead: u8 = tag.class * 64 + if constructed {
        32u8
    } else {
        0u8
    };
    if tag.number < 31 {
        out.push(lead + tag.number as u8);
        assert(out@ =~= old(out)@ + identifier_octets(tag, constructed));
    } else {
        out.push(lead + 31);
        write_base128_lead(tag.number / 128, out);
        out.push((tag.number % 128) as u8);
        assert(out@ =~= old(out)@ + identifier_octets(tag, constructed));
    }
}

fn write_be_octets(n: u64, out: &mut Vec<u8>)
    ensures
        final(out)@ == old(out)@ + be_octets(n as nat),
    decreases n,
{
    if n != 0 {
        let ghost start = out@;
        write_be_octets(n / 256, out);
        out.push((n % 256) as u8);
        assert(out@ =~= start + be_octets(n as nat));
    } else {
        assert(out@ =~= old(out)@ + be_octets(n as nat));
    }
}

/// Appends the length octets of `n` (shortest definite form).
pub fn write_length(n: usize, out: &mut Vec<u8>)
    ensures
        final(out)@ == old(out)@ + length_octets(n as nat),
{
    if n < 128 {
        out.push(n as u8);
        assert(out@ =~= old(out)@ + length_octets(n as nat));
    } else {
        let mut tmp: Vec<u8> = Vec::new();
        write_be_octets(n as u64, &mut tmp);
        proof {
            lemma_be_octets_short(n as nat);
        }
        out.push(128 + tmp.len() as u8);
        let ghost mid = out@;
        out.append(&mut tmp);
        assert(out@ =~= old(out)@ + length_octets(n as nat));
    }
}

/// Appends the contents octets of the INTEGER `v`.
pub fn write_int_octets(v: i64, out: &mut Vec<u8>)
    ensures
        final(out)@ == old(out)@ + int_octets(v as int),
    decreases abs(v as int),
{
    let ghost start = out@;
    proof {
        lemma_fundamental_div_mod(v as int, 256);
    }
    if -128 <= v && v < 128 {
        if v >= 0 {
            proof {
                lemma_fundamental_div_mod_converse_mod(v as int, 256, 0, v as int);
            }
            out.push(v as u8);
        } else {
            proof {
                lemma_fundamental_div_mod_converse_mod(v as int, 256, -1, v + 256);
            }
            out.push((v + 256) as u8);
        }
        assert(out@ =~= start + int_octets(v as int));
    } else if v >= 0 {
        let u: u64 = v as u64;
        proof {
            lemma_fundamental_div_mod(u as int, 256);
            lemma_fundamental_div_mod_converse_div(v as int, 256, (u / 256) as int, (u % 256) as int);
            lemma_fundamental_div_mod_converse_mod(v as int, 256, (u / 256) as int, (u % 256) as int);
        }
        write_int_octets((u / 256) as i64, out);
        out.push((u % 256) as u8);
        assert(out@ =~= start + int_octets(v as int));
    } else {
        let w: u64 = (-(v + 1)) as u64;
        let q: u64 = w / 256;
        let r: u64 = w % 256;
        proof {
            lemma_fundamental_div_mod(w as int, 256);
            lemma_fundamental_div_mod_converse_div(v as int, 256, -(q as int) - 1, 255 - r);
            lemma_fundamental_div_mod_converse_mod(v as int, 256, -(q as int) - 1, 255 - r);
        }
        let next: i64 = -(q as i64) - 1;
        write_int_octets(next, out);
        out.push((255 - r) as u8);
        assert(out@ =~= start + int_octets(v as int));
    }
}

/// Appends an encoding: identifier, length and the contents `content`.
pub fn write_tlv(tag: Tag, constructed: bool, content: &[u8], out: &mut Vec<u8>)
    requires
        tag.valid(),
    ensures
        final(out)@ == old(out)@ + tlv(tag, constructed, content@),
{
    write_identifier(tag, constructed, out);
    write_length(content.len(), out);
    append_octets(out, content);
    assert(out@ =~= old(out)@ + tlv(tag, constructed, content@));
}

/// Appends the BER encoding of `v` as a value of `s`.
pub fn encode_value(fuel: u32, s: &Schema, v: &AsnValue, out: &mut Vec<u8>)
    requires
        wf(fuel as nat, s@),
    ensures
        final(out)@ == old(out)@ + enc(fuel as nat, s@, v@),
    decreases fuel,
{
    if fuel == 0 {
        assert(out@ =~= old(out)@ + enc(fuel as nat, s@, v@));
        return ;
    }
    match &s.kind {
        Kind::Boolean => match v {
            AsnValue::Bool(b) => {
                let content: Vec<u8> = if *b {
                    vec![0xFFu8]
                } else {
                    vec![0x00u8]
                };
                assert(content@ =~= bool_octets(*b));
                write_tlv(s.tag, false, content.as_slice(), out);
            },
            _ => {
                assert(out@ =~= old(out)@ + enc(fuel as nat, s@, v@));
            },
        },
        Kind::Integer => match v {
            AsnValue::Integer(n) => {
                write_tlv(s.tag, false, n.octets(), out);
            },
            _ => {
                assert(out@ =~= old(out)@ + enc(fuel as nat, s@, v@));
            },
        },
        Kind::Enumerated(_) => match v {
            AsnValue::Int(i) => {
                let mut content: Vec<u8> = Vec::new();
                write_int_octets(*i, &mut content);
                assert(content@ =~= int_octets(*i as int));
                write_tlv(s.tag, false, content.as_slice(), out);
            },
            _ => {
                assert(out@ =~= old(out)@ + enc(fuel as nat, s@, v@));
            },
        },
        Kind::Null => match v {
            AsnValue::Null => {
                let content: Vec<u8> = Vec::new();
                assert(content@ =~= Seq::<u8>::empty());
                write_tlv(s.tag, false, content.as_slice(), out);
            },
            _ => {
                assert(out@ =~= old(out)@ + enc(fuel as nat, s@, v@));
            },
        },
        Kind::OctetString => match v {
            AsnValue::Octets(o) => {
                write_tlv(s.tag, false, o.as_slice(), out);
            },
            _ => {
                assert(out@ =~= old(out)@ + enc(fuel as nat, s@, v@));
            },
        },
        Kind::Sequence(fs) => match v {
            AsnValue::Sequence(vals) => {
                let ghost fsm = fields_model(fs@);
                let ghost vsm = options_model(vals@);
                proof {
                    lemma_fields_model(fs@);
                    lemma_options_model(vals@);
                }
                let mut content: Vec<u8> = Vec::new();
                let n = if vals.len() < fs.len() {
                    vals.len()
                } else {
                    fs.len()
                };
                let mut i: usize = 0;
                assert(fsm.skip(0) =~= fsm);
                assert(vsm.skip(0) =~= vsm);
                while i < n
                    invariant
                        fuel > 0,
                        i <= n,
                        n == vals.len() || n == fs.len(),
                        n <= vals.len(),
                        n <= fs.len(),
                        fsm == fields_model(fs@),
                        vsm == options_model(vals@),
                        fsm.len() == fs.len(),
                        vsm.len() == vals.len(),
                        forall|k: int|
                            0 <= k < fs.len() ==> (#[trigger] fsm[k]).optional == fs[k].optional
                                && fsm[k].schema == schema_model(fs[k].schema),
                        forall|k: int|
                            0 <= k < vals.len() ==> #[trigger] vsm[k] == match vals[k] {
                                Some(x) => Some(value_model(x)),
                                None => None,
                            },
                        forall|k: int|
                            0 <= k < fs.len() ==> wf((fuel - 1) as nat, #[trigger] fsm[k].schema),
                        content@ + enc_fields(
                            (fuel - 1) as nat,
                            fsm.skip(i as int),
                            vsm.skip(i as int),
                        ) == enc_fields((fuel - 1) as nat, fsm, vsm),
                    decreases n - i,
                {
                    let ghost before = content@;
                    let ghost fr = fsm.skip(i as int);
                    let ghost vr = vsm.skip(i as int);
                    assert(fr.drop_first() =~= fsm.skip(i + 1));
                    assert(vr.drop_first() =~= vsm.skip(i + 1));
                    assert(fr[0] == fsm[i as int]);
                    assert(vr[0] == vsm[i as int]);
                    match &vals[i] {
                        Some(x) => {
                            encode_value(fuel - 1, &fs[i].schema, x, &mut content);
                        },
                        None => {},
                    }
                    assert(content@ + enc_fields(
                        (fuel - 1) as nat,
                        fsm.skip(i + 1),
                        vsm.skip(i + 1),
                    ) =~= before + enc_fields((fuel - 1) as nat, fr, vr));
                    i = i + 1;
                }
                assert(enc_fields((fuel - 1) as nat, fsm.skip(i as int), vsm.skip(i as int))
                    =~= Seq::<u8>::empty());
                assert(content@ =~= enc_fields((fuel - 1) as nat, fsm, vsm));
                write_tlv(s.tag, true, content.as_slice(), out);
            },
            _ => {
                assert(out@ =~= old(out)@ + enc(fuel as nat, s@, v@));
            },
        },
        Kind::SequenceOf(e) => match v {
            AsnValue::SequenceOf(items) => {
                let ghost im = values_model(items@);
                let ghost em = schema_model(**e);
                proof {
                    lemma_values_model(items@);
                }
                let mut content: Vec<u8> = Vec::new();
                let mut i: usize = 0;
                assert(im.skip(0) =~= im);
                while i < items.len()
                    invariant
                        fuel > 0,
                        i <= items.len(),
                        im == values_model(items@),
                        im.len() == items.len(),
                        em == schema_model(**e),
                        wf((fuel - 1) as nat, em),
                        forall|k: int| 0 <= k < items.len() ==> #[trigger] im[k] == value_model(items[k]),
                        content@ + enc_items((fuel - 1) as nat, em, im.skip(i as int)) == enc_items(
                            (fuel - 1) as nat,
                            em,
                            im,
                        ),
                    decreases items.len() - i,
                {
                    let ghost before = content@;
                    let ghost r = im.skip(i as int);
                    assert(r.drop_first() =~= im.skip(i + 1));
                    assert(r[0] == im[i as int]);
                    encode_value(fuel - 1, e, &items[i], &mut content);
                    assert(content@ + enc_items((fuel - 1) as nat, em, im.skip(i + 1)) =~= before
                        + enc_items((fuel - 1) as nat, em, r));
                    i = i + 1;
                }
                assert(enc_items((fuel - 1) as nat, em, im.skip(i as int)) =~= Seq::<u8>::empty());
                assert(content@ =~= enc_items((fuel - 1) as nat, em, im));
                write_tlv(s.tag, true, content.as_slice(), out);
            },
            _ => {
                assert(out@ =~= old(out)@ + enc(fuel as nat, s@, v@));
            },
        },
        Kind::Choice(alts) => match v {
            AsnValue::Choice(i, b) => {
                proof {
                    lemma_schemas_model(alts@);
                }
                if *i < alts.len() {
                    assert(schemas_model(alts@)[*i as int] == schema_model(alts[*i as int]));
                    encode_value(fuel - 1, &alts[*i], b, out);
                } else {
                    assert(out@ =~= old(out)@ + enc(fuel as nat, s@, v@));
                }
            },
            _ => {
                assert(out@ =~= old(out)@ + enc(fuel as nat, s@, v@));
            },
        },
    }
}

} // verus!
