//! The BER codec of the CAP argument and result types: every such type names
//! its ASN.1 type and how its values map to abstract ASN.1 values, and the
//! generic [`encode`] and [`decode`] do the rest.

use crate::ber::decoder::decode_value;
use crate::ber::encoder::{encode_value, lemma_values_model};
use crate::ber::fuel::{lemma_wf_more_fuel, lemma_wt_more_fuel, lemma_wt_within};
use crate::ber::model::{values_model, Asn, AsnValue, Schema, SpecField, SpecKind, SpecSchema};
use crate::ber::octets::{identifier_octets, length_octets, tlv, Tag};
use crate::ber::parts::{leaf, lemma_retag, opt_model, retag};
use crate::ber::prefix::lemma_dec_prefix;
use crate::ber::roundtrip::{lemma_dec_wt, lemma_enc_dec};
use crate::ber::spec::{dec, enc, enc_fields, wf, wt};
use crate::error::CapError;
use vstd::prelude::*;

verus! {

/// The deepest nesting of ASN.1 types that the codec reads and writes; every
/// CAP type nests less deeply.
pub const DEPTH: u32 = 8;

/// A CAP type with a BER encoding.
pub trait BerCodec: Sized + View<V = Asn> {
    /// The ASN.1 type of the values, with their tags.
    spec fn spec_schema() -> SpecSchema;

    /// How deeply the ASN.1 type nests.
    spec fn height() -> nat;

    /// The ASN.1 type can be written and read back, within its height.
    proof fn lemma_schema_sound()
        ensures
            0 < Self::height() <= DEPTH,
            wf(Self::height(), Self::spec_schema()),
    ;

    /// Every value maps to a value of the ASN.1 type.
    proof fn lemma_view_typed(x: Self)
        ensures
            wt(Self::height(), Self::spec_schema(), x@),
    ;

    /// The ASN.1 type, in executable form.
    fn schema() -> (s: Schema)
        ensures
            s@ == Self::spec_schema(),
    ;

    /// The abstract ASN.1 value of `self`.
    fn to_asn(&self) -> (v: AsnValue)
        ensures
            v@ == self@,
    ;

    /// The value whose abstract form is `v`; there is one exactly when `v` is
    /// a value of the ASN.1 type.
    fn from_asn(v: &AsnValue) -> (r: Option<Self>)
        ensures
            r matches Some(x) ==> x@ == v@,
            r is Some <==> wt(Self::height(), Self::spec_schema(), v@),
    ;
}

/// An optional component of a CAP type.
pub open spec fn opt_view<T: View<V = Asn>>(o: Option<T>) -> Option<Asn> {
    match o {
        Some(x) => Some(x@),
        None => None,
    }
}

/// The abstract value of an optional component.
pub fn opt_to_asn<T: BerCodec>(o: &Option<T>) -> (r: Option<AsnValue>)
    ensures
        opt_model(r) == opt_view(*o),
{
    match o {
        Some(x) => Some(x.to_asn()),
        None => None,
    }
}

/// The value of a present component of type `T`.
pub fn take<T: BerCodec>(o: &Option<AsnValue>) -> (r: Option<T>)
    ensures
        r matches Some(x) ==> opt_model(*o) == Some(x@),
        r is Some <==> (opt_model(*o) matches Some(a) && wt(T::height(), T::spec_schema(), a)),
{
    match o {
        Some(a) => T::from_asn(a),
        None => None,
    }
}

/// The value of an optional component of type `T`: `Some(None)` when it is
/// absent.
pub fn take_opt<T: BerCodec>(o: &Option<AsnValue>) -> (r: Option<Option<T>>)
    ensures
        r matches Some(x) ==> opt_model(*o) == opt_view(x),
        r is Some <==> (opt_model(*o) matches Some(a) ==> wt(T::height(), T::spec_schema(), a)),
{
    match o {
        Some(a) => match T::from_asn(a) {
            Some(x) => Some(Some(x)),
            None => None,
        },
        None => Some(None),
    }
}

/// A SEQUENCE OF values of a CAP type.
pub open spec fn list_view<T: View<V = Asn>>(v: Seq<T>) -> Asn {
    Asn::SequenceOf(v.map_values(|x: T| x@))
}

/// The abstract value of a list of values.
pub fn list_to_asn<T: BerCodec>(v: &Vec<T>) -> (r: AsnValue)
    ensures
        r@ == list_view(v@),
{
    let mut items: Vec<AsnValue> = Vec::new();
    let mut i: usize = 0;
    while i < v.len()
        invariant
            i <= v.len(),
            items@.len() == i,
            forall|j: int| 0 <= j < i ==> #[trigger] items@[j]@ == v@[j]@,
        decreases v.len() - i,
    {
        items.push(v[i].to_asn());
        i = i + 1;
    }
    proof {
        lemma_values_model(items@);
        let want = list_view(v@)->SequenceOf_0;
        assert forall|j: int| 0 <= j < items@.len() implies #[trigger] values_model(items@)[j]
            == want[j] by {
            assert(items@[j]@ == v@[j]@);
        }
        assert(values_model(items@) =~= want);
    }
    AsnValue::SequenceOf(items)
}

/// The values of a SEQUENCE OF component of type `T`.
pub fn take_list<T: BerCodec>(o: &Option<AsnValue>) -> (r: Option<Vec<T>>)
    ensures
        r matches Some(x) ==> opt_model(*o) == Some(list_view(x@)),
        r is Some <==> (opt_model(*o) matches Some(Asn::SequenceOf(items)) && forall|i: int|
            0 <= i < items.len() ==> wt(T::height(), T::spec_schema(), #[trigger] items[i])),
{
    let items = match o {
        Some(AsnValue::SequenceOf(items)) => items,
        _ => return None,
    };
    proof {
        lemma_values_model(items@);
    }
    assert(opt_model(*o) == Some(Asn::SequenceOf(values_model(items@))));
    let mut out: Vec<T> = Vec::new();
    let mut i: usize = 0;
    while i < items.len()
        invariant
            i <= items.len(),
            out@.len() == i,
            opt_model(*o) == Some(Asn::SequenceOf(values_model(items@))),
            values_model(items@).len() == items@.len(),
            forall|j: int| 0 <= j < items@.len() ==> #[trigger] values_model(items@)[j] == items@[j]@,
            forall|j: int| 0 <= j < i ==> (#[trigger] out@[j])@ == items@[j]@,
            forall|j: int|
                0 <= j < i ==> wt(T::height(), T::spec_schema(), #[trigger] values_model(items@)[j]),
        decreases items.len() - i,
    {
        match T::from_asn(&items[i]) {
            Some(x) => {
                assert(values_model(items@)[i as int] == items@[i as int]@);
                out.push(x);
            },
            None => {
                assert(values_model(items@)[i as int] == items@[i as int]@);
                assert(opt_model(*o)->Some_0->SequenceOf_0[i as int] == items@[i as int]@);
                return None;
            },
        }
        i = i + 1;
    }
    proof {
        let got = list_view(out@)->SequenceOf_0;
        assert forall|j: int| 0 <= j < items@.len() implies #[trigger] values_model(items@)[j]
            == got[j] by {
            assert(out@[j]@ == items@[j]@);
        }
        assert(got =~= values_model(items@));
    }
    Some(out)
}

/// Every list of values is a value of the SEQUENCE OF type under `tag`.
pub proof fn lemma_list_typed<T: BerCodec>(fuel: nat, tag: Tag, v: Seq<T>)
    requires
        fuel > T::height(),
    ensures
        wt(fuel, leaf(tag, SpecKind::SequenceOf(Box::new(T::spec_schema()))), list_view(v)),
{
    let items = list_view(v)->SequenceOf_0;
    assert forall|i: int| 0 <= i < items.len() implies wt(
        (fuel - 1) as nat,
        T::spec_schema(),
        #[trigger] items[i],
    ) by {
        T::lemma_view_typed(v[i]);
        lemma_wt_more_fuel(T::height(), (fuel - 1) as nat, T::spec_schema(), v[i]@);
    }
}

/// A component of type `T` under the implicit tag `t` is a value of `T`.
pub proof fn lemma_component_typed<T: BerCodec>(fuel: nat, t: Tag, x: T)
    requires
        fuel >= T::height(),
        t.valid(),
        !(T::spec_schema().kind is Choice),
    ensures
        wt(fuel, retag(T::spec_schema(), t), x@),
{
    T::lemma_view_typed(x);
    lemma_wt_more_fuel(T::height(), fuel, T::spec_schema(), x@);
    lemma_retag(fuel, T::spec_schema(), t);
}

/// A component value of the type `T` under the implicit tag `t`, at any depth,
/// is a value of `T`.
pub proof fn lemma_component_within<T: BerCodec>(fuel: nat, t: Tag, o: Option<Asn>)
    requires
        t.valid(),
        !(T::spec_schema().kind is Choice),
    ensures
        o matches Some(a) ==> (wt(fuel, retag(T::spec_schema(), t), a) ==> wt(
            T::height(),
            T::spec_schema(),
            a,
        )),
{
    if let Some(a) = o {
        if wt(fuel, retag(T::spec_schema(), t), a) {
            lemma_retag(fuel, T::spec_schema(), t);
            T::lemma_schema_sound();
            lemma_wt_within(T::height(), fuel, T::spec_schema(), a);
        }
    }
}

/// The elements of a SEQUENCE OF component of `T`, at any depth, are values of
/// `T`.
pub proof fn lemma_list_within<T: BerCodec>(fuel: nat, t: Tag, o: Option<Asn>)
    ensures
        o matches Some(a) ==> (wt(
            fuel,
            leaf(t, SpecKind::SequenceOf(Box::new(T::spec_schema()))),
            a,
        ) ==> (a matches Asn::SequenceOf(items) && forall|i: int|
            0 <= i < items.len() ==> wt(T::height(), T::spec_schema(), #[trigger] items[i]))),
{
    if let Some(a) = o {
        if wt(fuel, leaf(t, SpecKind::SequenceOf(Box::new(T::spec_schema()))), a) {
            let items = a->SequenceOf_0;
            T::lemma_schema_sound();
            assert forall|i: int| 0 <= i < items.len() implies wt(
                T::height(),
                T::spec_schema(),
                #[trigger] items[i],
            ) by {
                lemma_wt_within(T::height(), (fuel - 1) as nat, T::spec_schema(), items[i]);
            }
        }
    }
}

/// The BER encoding of `x`.
pub open spec fn ber_encoding<T: BerCodec>(x: T) -> Seq<u8> {
    enc(DEPTH as nat, T::spec_schema(), x@)
}

/// The value of type `T` that `bytes` starts with, if it starts with one.
pub open spec fn ber_decoding<T: BerCodec>(bytes: Seq<u8>) -> Option<Asn> {
    match dec(DEPTH as nat, T::spec_schema(), bytes) {
        Some((v, _)) => Some(v),
        None => None,
    }
}

/// The message of the error `decode` gives where its input does not start
/// with a value of the type. It is one text for every such input: it does
/// not say where or how the octets failed to read.
pub const DECODE_FAILURE: &'static str = "BER input is not a value of the expected CAP type";

/// `DECODE_FAILURE`, as the contracts see it.
pub open spec fn decode_failure() -> Seq<char> {
    DECODE_FAILURE@
}

/// Encodes a CAP operation argument or result to BER. Every value has an
/// encoding.
pub fn encode<T: BerCodec>(value: &T) -> (r: Result<Vec<u8>, CapError>)
    ensures
        r matches Ok(b) && b@ == ber_encoding(*value),
{
    let s = T::schema();
    proof {
        T::lemma_schema_sound();
        lemma_wf_more_fuel(T::height(), DEPTH as nat, T::spec_schema());
    }
    let v = value.to_asn();
    let mut out: Vec<u8> = Vec::new();
    encode_value(DEPTH, &s, &v, &mut out);
    assert(out@ =~= ber_encoding(*value));
    Ok(out)
}

/// Decodes a CAP operation argument or result from BER. What follows the
/// encoded value in `bytes` is not read. Input that does not start with a
/// value of `T` is answered with `CapError::Decode(DECODE_FAILURE)`, whatever
/// the fault.
pub fn decode<T: BerCodec>(bytes: &[u8]) -> (r: Result<T, CapError>)
    ensures
        match ber_decoding::<T>(bytes@) {
            Some(v) => r matches Ok(x) && x@ == v,
            None => r matches Err(CapError::Decode(m)) && m@ == decode_failure(),
        },
{
    let s = T::schema();
    assert(bytes@.subrange(0, bytes@.len() as int) =~= bytes@);
    match decode_value(DEPTH, &s, bytes, 0, bytes.len()) {
        None => Err(CapError::Decode(DECODE_FAILURE.to_owned())),
        Some((v, _)) => {
            proof {
                lemma_dec_wt(DEPTH as nat, T::spec_schema(), bytes@);
                T::lemma_schema_sound();
                lemma_wt_within(T::height(), DEPTH as nat, T::spec_schema(), v@);
            }
            match T::from_asn(&v) {
                Some(x) => Ok(x),
                None => Err(CapError::Decode(DECODE_FAILURE.to_owned())),
            }
        },
    }
}

/// Whatever follows an encoding, decoding it gives the encoded value back.
pub proof fn lemma_decode_encode<T: BerCodec>(x: T, rest: Seq<u8>)
    requires
        ber_encoding(x).len() < 0x1_0000_0000_0000_0000,
    ensures
        ber_decoding::<T>(ber_encoding(x) + rest) == Some(x@),
{
    T::lemma_schema_sound();
    lemma_wf_more_fuel(T::height(), DEPTH as nat, T::spec_schema());
    T::lemma_view_typed(x);
    lemma_wt_more_fuel(T::height(), DEPTH as nat, T::spec_schema(), x@);
    lemma_enc_dec(DEPTH as nat, T::spec_schema(), x@, rest);
}

/// What follows a value in the input is not read: with anything appended, the
/// input decodes to the same value.
pub proof fn lemma_decode_ignores_rest<T: BerCodec>(bytes: Seq<u8>, rest: Seq<u8>)
    requires
        ber_decoding::<T>(bytes) is Some,
    ensures
        ber_decoding::<T>(bytes + rest) == ber_decoding::<T>(bytes),
{
    lemma_dec_prefix(DEPTH as nat, T::spec_schema(), bytes, rest);
}

/// Two values with the same encoding are the same value.
pub proof fn lemma_encoding_injective<T: BerCodec>(x: T, y: T)
    requires
        ber_encoding(x) == ber_encoding(y),
        ber_encoding(x).len() < 0x1_0000_0000_0000_0000,
    ensures
        x@ == y@,
{
    lemma_decode_encode(x, Seq::empty());
    lemma_decode_encode(y, Seq::empty());
}

/// `piece` stands, whole and in one place, within `whole`.
pub open spec fn written_in(piece: Seq<u8>, whole: Seq<u8>) -> bool {
    exists|p: Seq<u8>, q: Seq<u8>| whole == p + piece + q
}

/// A present component of a SEQUENCE is written, whole, among the encodings
/// of the components.
pub proof fn lemma_field_written(fuel: nat, fs: Seq<SpecField>, vals: Seq<Option<Asn>>, i: int)
    requires
        0 <= i < fs.len(),
        i < vals.len(),
        vals[i] is Some,
    ensures
        written_in(enc(fuel, fs[i].schema, vals[i]->Some_0), enc_fields(fuel, fs, vals)),
    decreases i,
{
    let head = match vals[0] {
        Some(x) => enc(fuel, fs[0].schema, x),
        None => Seq::empty(),
    };
    let tail = enc_fields(fuel, fs.drop_first(), vals.drop_first());
    assert(enc_fields(fuel, fs, vals) == head + tail);
    if i == 0 {
        assert(enc_fields(fuel, fs, vals) =~= Seq::<u8>::empty() + head + tail);
    } else {
        lemma_field_written(fuel, fs.drop_first(), vals.drop_first(), i - 1);
        let piece = enc(fuel, fs[i].schema, vals[i]->Some_0);
        assert(fs.drop_first()[i - 1] == fs[i]);
        assert(vals.drop_first()[i - 1] == vals[i]);
        let (p, q) = choose|p: Seq<u8>, q: Seq<u8>| tail == p + piece + q;
        assert(enc_fields(fuel, fs, vals) =~= (head + p) + piece + q);
    }
}

/// A present component of a value whose type is a SEQUENCE is written, whole,
/// within the value's encoding.
pub proof fn lemma_component_written<T: BerCodec>(x: T, i: int)
    requires
        T::spec_schema().kind is Sequence,
        x@ is Sequence,
        0 <= i < T::spec_schema().kind->Sequence_0.len(),
        i < x@->Sequence_0.len(),
        x@->Sequence_0[i] is Some,
    ensures
        written_in(
            enc(
                (DEPTH - 1) as nat,
                T::spec_schema().kind->Sequence_0[i].schema,
                x@->Sequence_0[i]->Some_0,
            ),
            ber_encoding(x),
        ),
{
    let fs = T::spec_schema().kind->Sequence_0;
    let vals = x@->Sequence_0;
    let fuel = (DEPTH - 1) as nat;
    let c = enc_fields(fuel, fs, vals);
    lemma_field_written(fuel, fs, vals, i);
    let piece = enc(fuel, fs[i].schema, vals[i]->Some_0);
    let (p, q) = choose|p: Seq<u8>, q: Seq<u8>| c == p + piece + q;
    let head = identifier_octets(T::spec_schema().tag, true) + length_octets(c.len());
    assert(ber_encoding(x) == tlv(T::spec_schema().tag, true, c));
    assert(ber_encoding(x) =~= (head + p) + piece + q);
}

} // verus!
