//! Pieces for describing a concrete ASN.1 type: tags, the order of the
//! components of a SEQUENCE, implicit retagging, and moving component values
//! into and out of the abstract value form.

use super::integer::Integer;
use super::encoder::{append_octets, lemma_options_model, lemma_values_model};
use super::model::{options_model, values_model, Asn, AsnValue, Kind, Schema, SpecField, SpecKind, SpecSchema};
use super::octets::{Tag, CONTEXT, UNIVERSAL};
use super::spec::{wf, wt};
use vstd::prelude::*;

verus! {

/// The universal tag with the given number.
pub open spec fn universal(n: u32) -> Tag {
    Tag { class: UNIVERSAL, number: n }
}

/// The context-specific tag `[n]`.
pub open spec fn context(n: u32) -> Tag {
    Tag { class: CONTEXT, number: n }
}

/// `a` comes before `b`: by class first, then by number.
pub open spec fn tag_before(a: Tag, b: Tag) -> bool {
    a.class < b.class || (a.class == b.class && a.number < b.number)
}

/// The components are listed in ascending order of their tags.
pub open spec fn ascending(fs: Seq<SpecField>) -> bool {
    forall|i: int, j: int|
        0 <= i < j < fs.len() ==> tag_before(#[trigger] fs[i].schema.tag, #[trigger] fs[j].schema.tag)
}

/// A required component.
pub open spec fn required(s: SpecSchema) -> SpecField {
    SpecField { optional: false, schema: s }
}

/// An OPTIONAL component.
pub open spec fn optional(s: SpecSchema) -> SpecField {
    SpecField { optional: true, schema: s }
}

/// A primitive type under a tag.
pub open spec fn leaf(tag: Tag, kind: SpecKind) -> SpecSchema {
    SpecSchema { tag, kind }
}

/// The type `s` under the implicit tag `t`.
pub open spec fn retag(s: SpecSchema, t: Tag) -> SpecSchema {
    SpecSchema { tag: t, kind: s.kind }
}

/// A SEQUENCE whose components, each sound within one level less, are listed
/// in ascending tag order, is sound.
pub proof fn lemma_wf_sequence(fuel: nat, tag: Tag, fs: Seq<SpecField>)
    requires
        fuel > 0,
        tag.valid(),
        ascending(fs),
        forall|i: int|
            0 <= i < fs.len() ==> !(#[trigger] fs[i].schema.kind is Choice) && wf(
                (fuel - 1) as nat,
                fs[i].schema,
            ),
    ensures
        wf(fuel, SpecSchema { tag, kind: SpecKind::Sequence(fs) }),
{
    assert forall|i: int, j: int| 0 <= i < j < fs.len() implies #[trigger] fs[i].schema.tag
        != #[trigger] fs[j].schema.tag by {
        assert(tag_before(fs[i].schema.tag, fs[j].schema.tag));
    }
}

/// A CHOICE whose alternatives, each sound within one level less and none a
/// CHOICE, are listed in ascending tag order, is sound.
pub proof fn lemma_wf_choice(fuel: nat, tag: Tag, alts: Seq<SpecSchema>)
    requires
        fuel > 0,
        forall|i: int, j: int|
            0 <= i < j < alts.len() ==> tag_before(#[trigger] alts[i].tag, #[trigger] alts[j].tag),
        forall|i: int|
            0 <= i < alts.len() ==> !(#[trigger] alts[i].kind is Choice) && wf(
                (fuel - 1) as nat,
                alts[i],
            ),
    ensures
        wf(fuel, SpecSchema { tag, kind: SpecKind::Choice(alts) }),
{
    assert forall|i: int, j: int| 0 <= i < j < alts.len() implies #[trigger] alts[i].tag
        != #[trigger] alts[j].tag by {
        assert(tag_before(alts[i].tag, alts[j].tag));
    }
}

/// A primitive type under a valid tag is sound at any positive depth.
pub proof fn lemma_wf_leaf(fuel: nat, s: SpecSchema)
    requires
        fuel > 0,
        s.tag.valid(),
        s.kind is Boolean || s.kind is Integer || s.kind is Null || s.kind is OctetString
            || s.kind is Enumerated,
    ensures
        wf(fuel, s),
{
}

/// Retagging keeps a type sound, and keeps its values.
pub proof fn lemma_retag(fuel: nat, s: SpecSchema, t: Tag)
    requires
        t.valid(),
        !(s.kind is Choice),
    ensures
        wf(fuel, s) ==> wf(fuel, retag(s, t)),
        forall|v: Asn| #[trigger] wt(fuel, retag(s, t), v) == wt(fuel, s, v),
{
}

/// An abstract component value, as the SEQUENCE that holds it sees it.
pub open spec fn opt_model(o: Option<AsnValue>) -> Option<Asn> {
    match o {
        Some(x) => Some(x@),
        None => None,
    }
}

/// What a SEQUENCE value of type `s` says of each of its components.
pub proof fn lemma_components(fuel: nat, s: SpecSchema, vals: Seq<Option<AsnValue>>)
    requires
        s.kind is Sequence,
        wt(fuel, s, Asn::Sequence(options_model(vals))),
    ensures
        fuel > 0,
        vals.len() == s.kind->Sequence_0.len(),
        forall|i: int|
            0 <= i < vals.len() ==> match opt_model(#[trigger] vals[i]) {
                None => s.kind->Sequence_0[i].optional,
                Some(x) => wt((fuel - 1) as nat, s.kind->Sequence_0[i].schema, x),
            },
{
    lemma_options_model(vals);
    let fs = s.kind->Sequence_0;
    assert forall|i: int| 0 <= i < vals.len() implies match opt_model(#[trigger] vals[i]) {
        None => fs[i].optional,
        Some(x) => wt((fuel - 1) as nat, fs[i].schema, x),
    } by {
        assert(options_model(vals)[i] == opt_model(vals[i]));
    }
}

/// An optional OCTET STRING component.
pub open spec fn opt_octets(o: Option<Vec<u8>>) -> Option<Asn> {
    match o {
        Some(b) => Some(Asn::Octets(b@)),
        None => None,
    }
}

/// An optional BOOLEAN component.
pub open spec fn opt_bool(o: Option<bool>) -> Option<Asn> {
    match o {
        Some(b) => Some(Asn::Bool(b)),
        None => None,
    }
}

/// An optional NULL component.
pub open spec fn opt_null(o: Option<()>) -> Option<Asn> {
    match o {
        Some(_) => Some(Asn::Null),
        None => None,
    }
}

/// An optional INTEGER component.
pub open spec fn opt_int(o: Option<Integer>) -> Option<Asn> {
    match o {
        Some(n) => Some(Asn::Integer(n@)),
        None => None,
    }
}

/// A SEQUENCE OF OCTET STRING.
pub open spec fn octets_list(v: Seq<Vec<u8>>) -> Asn {
    Asn::SequenceOf(v.map_values(|b: Vec<u8>| Asn::Octets(b@)))
}

/// An optional SEQUENCE OF OCTET STRING component.
pub open spec fn opt_octets_list(o: Option<Vec<Vec<u8>>>) -> Option<Asn> {
    match o {
        Some(v) => Some(octets_list(v@)),
        None => None,
    }
}

/// A SEQUENCE OF type is sound when its element type, not a CHOICE, is sound
/// within one level less.
pub proof fn lemma_wf_list(fuel: nat, tag: Tag, e: SpecSchema)
    requires
        fuel > 0,
        tag.valid(),
        !(e.kind is Choice),
        wf((fuel - 1) as nat, e),
    ensures
        wf(fuel, leaf(tag, SpecKind::SequenceOf(Box::new(e)))),
{
}

/// A list of strings of octets is a value of a SEQUENCE OF OCTET STRING.
pub proof fn lemma_octets_list_typed(fuel: nat, tag: Tag, elem: Tag, v: Seq<Vec<u8>>)
    requires
        fuel > 1,
    ensures
        wt(
            fuel,
            leaf(tag, SpecKind::SequenceOf(Box::new(leaf(elem, SpecKind::OctetString)))),
            octets_list(v),
        ),
{
    let items = octets_list(v)->SequenceOf_0;
    assert forall|i: int| 0 <= i < items.len() implies wt(
        (fuel - 1) as nat,
        leaf(elem, SpecKind::OctetString),
        #[trigger] items[i],
    ) by {
        assert(items[i] == Asn::Octets(v[i]@));
    }
}

/// A component value of a SEQUENCE OF OCTET STRING type, at any depth, is a
/// list of OCTET STRINGs.
pub proof fn lemma_octets_list_within(fuel: nat, tag: Tag, elem: Tag, o: Option<Asn>)
    ensures
        o matches Some(a) ==> (wt(
            fuel,
            leaf(tag, SpecKind::SequenceOf(Box::new(leaf(elem, SpecKind::OctetString)))),
            a,
        ) ==> (a matches Asn::SequenceOf(items) && forall|i: int|
            0 <= i < items.len() ==> #[trigger] items[i] is Octets)),
{
    if let Some(a) = o {
        let s = leaf(tag, SpecKind::SequenceOf(Box::new(leaf(elem, SpecKind::OctetString))));
        if wt(fuel, s, a) {
            let items = a->SequenceOf_0;
            assert forall|i: int| 0 <= i < items.len() implies #[trigger] items[i] is Octets by {
                assert(wt((fuel - 1) as nat, leaf(elem, SpecKind::OctetString), items[i]));
            }
        }
    }
}

/// A copy of a string of octets.
pub fn copy_bytes(b: &Vec<u8>) -> (r: Vec<u8>)
    ensures
        r@ == b@,
{
    let mut r: Vec<u8> = Vec::new();
    append_octets(&mut r, b.as_slice());
    assert(r@ =~= b@);
    r
}

/// A copy of an optional string of octets.
pub fn copy_opt_bytes(o: &Option<Vec<u8>>) -> (r: Option<Vec<u8>>)
    ensures
        opt_octets(r) == opt_octets(*o),
{
    match o {
        Some(b) => Some(copy_bytes(b)),
        None => None,
    }
}

/// An OCTET STRING value.
pub fn octets_value(b: &Vec<u8>) -> (r: AsnValue)
    ensures
        r@ == Asn::Octets(b@),
{
    AsnValue::Octets(copy_bytes(b))
}

/// An optional OCTET STRING component value.
pub fn opt_octets_value(o: &Option<Vec<u8>>) -> (r: Option<AsnValue>)
    ensures
        opt_model(r) == opt_octets(*o),
{
    match o {
        Some(b) => Some(octets_value(b)),
        None => None,
    }
}

/// An optional BOOLEAN component value.
pub fn opt_bool_value(o: Option<bool>) -> (r: Option<AsnValue>)
    ensures
        opt_model(r) == opt_bool(o),
{
    match o {
        Some(b) => Some(AsnValue::Bool(b)),
        None => None,
    }
}

/// An optional NULL component value.
pub fn opt_null_value(o: Option<()>) -> (r: Option<AsnValue>)
    ensures
        opt_model(r) == opt_null(o),
{
    match o {
        Some(_) => Some(AsnValue::Null),
        None => None,
    }
}

/// An optional INTEGER component value.
pub fn opt_int_value(o: &Option<Integer>) -> (r: Option<AsnValue>)
    ensures
        opt_model(r) == opt_int(*o),
{
    match o {
        Some(n) => Some(AsnValue::Integer(n.duplicate())),
        None => None,
    }
}

/// A SEQUENCE OF OCTET STRING value.
pub fn octets_list_value(v: &Vec<Vec<u8>>) -> (r: AsnValue)
    ensures
        r@ == octets_list(v@),
{
    let mut items: Vec<AsnValue> = Vec::new();
    let mut i: usize = 0;
    while i < v.len()
        invariant
            i <= v.len(),
            items@.len() == i,
            forall|j: int| 0 <= j < i ==> #[trigger] items@[j]@ == Asn::Octets(v@[j]@),
        decreases v.len() - i,
    {
        items.push(octets_value(&v[i]));
        i = i + 1;
    }
    proof {
        lemma_values_model(items@);
        let want = octets_list(v@)->SequenceOf_0;
        assert forall|j: int| 0 <= j < items@.len() implies #[trigger] values_model(items@)[j]
            == want[j] by {
            assert(items@[j]@ == Asn::Octets(v@[j]@));
        }
        assert(values_model(items@) =~= want);
    }
    AsnValue::SequenceOf(items)
}

/// An optional SEQUENCE OF OCTET STRING component value.
pub fn opt_octets_list_value(o: &Option<Vec<Vec<u8>>>) -> (r: Option<AsnValue>)
    ensures
        opt_model(r) == opt_octets_list(*o),
{
    match o {
        Some(v) => Some(octets_list_value(v)),
        None => None,
    }
}

/// The strings of octets of a SEQUENCE OF OCTET STRING.
pub fn octets_list_items(a: &AsnValue) -> (r: Option<Vec<Vec<u8>>>)
    ensures
        r matches Some(v) ==> a@ == octets_list(v@),
        r is Some <==> (a@ matches Asn::SequenceOf(items) && forall|i: int|
            0 <= i < items.len() ==> #[trigger] items[i] is Octets),
{
    let items = match a {
        AsnValue::SequenceOf(items) => items,
        _ => return None,
    };
    proof {
        lemma_values_model(items@);
    }
    assert(a@ == Asn::SequenceOf(values_model(items@)));
    let mut out: Vec<Vec<u8>> = Vec::new();
    let mut i: usize = 0;
    while i < items.len()
        invariant
            i <= items.len(),
            out@.len() == i,
            a@ == Asn::SequenceOf(values_model(items@)),
            values_model(items@).len() == items@.len(),
            forall|j: int| 0 <= j < items@.len() ==> #[trigger] values_model(items@)[j] == items@[j]@,
            forall|j: int| 0 <= j < i ==> Asn::Octets(#[trigger] out@[j]@) == items@[j]@,
        decreases items.len() - i,
    {
        match &items[i] {
            AsnValue::Octets(b) => {
                out.push(copy_bytes(b));
            },
            _ => {
                assert(values_model(items@)[i as int] == items@[i as int]@);
                assert(!(values_model(items@)[i as int] is Octets));
                assert(!(a@->SequenceOf_0[i as int] is Octets));
                return None;
            },
        }
        i = i + 1;
    }
    assert(octets_list(out@)->SequenceOf_0 =~= values_model(items@));
    Some(out)
}

/// The INTEGER held by a present component.
pub fn take_int(o: &Option<AsnValue>) -> (r: Option<Integer>)
    ensures
        r matches Some(n) ==> opt_model(*o) == Some(Asn::Integer(n@)),
        r is Some <==> opt_model(*o) matches Some(Asn::Integer(_)),
{
    match o {
        Some(AsnValue::Integer(n)) => Some(n.duplicate()),
        _ => None,
    }
}

/// The OCTET STRING held by a present component.
pub fn take_octets(o: &Option<AsnValue>) -> (r: Option<Vec<u8>>)
    ensures
        r matches Some(b) ==> opt_model(*o) == Some(Asn::Octets(b@)),
        r is Some <==> opt_model(*o) matches Some(Asn::Octets(_)),
{
    match o {
        Some(AsnValue::Octets(b)) => Some(copy_bytes(b)),
        _ => None,
    }
}

/// An optional OCTET STRING component: `Some(x)` when the component is absent
/// (`x` is `None`) or an OCTET STRING.
pub fn take_opt_octets(o: &Option<AsnValue>) -> (r: Option<Option<Vec<u8>>>)
    ensures
        r matches Some(x) ==> opt_model(*o) == opt_octets(x),
        r is Some <==> (opt_model(*o) is None || opt_model(*o) matches Some(Asn::Octets(_))),
{
    match o {
        None => Some(None),
        Some(AsnValue::Octets(b)) => Some(Some(copy_bytes(b))),
        _ => None,
    }
}

/// An optional INTEGER component.
pub fn take_opt_int(o: &Option<AsnValue>) -> (r: Option<Option<Integer>>)
    ensures
        r matches Some(x) ==> opt_model(*o) == opt_int(x),
        r is Some <==> (opt_model(*o) is None || opt_model(*o) matches Some(Asn::Integer(_))),
{
    match o {
        None => Some(None),
        Some(AsnValue::Integer(n)) => Some(Some(n.duplicate())),
        _ => None,
    }
}

/// A SEQUENCE OF OCTET STRING component.
pub fn take_octets_list(o: &Option<AsnValue>) -> (r: Option<Vec<Vec<u8>>>)
    ensures
        r matches Some(v) ==> opt_model(*o) == Some(octets_list(v@)),
        r is Some <==> (opt_model(*o) matches Some(Asn::SequenceOf(items)) && forall|i: int|
            0 <= i < items.len() ==> #[trigger] items[i] is Octets),
{
    match o {
        Some(a) => octets_list_items(a),
        None => None,
    }
}

/// An optional SEQUENCE OF OCTET STRING component.
pub fn take_opt_octets_list(o: &Option<AsnValue>) -> (r: Option<Option<Vec<Vec<u8>>>>)
    ensures
        r matches Some(x) ==> opt_model(*o) == opt_octets_list(x),
        r is Some <==> (opt_model(*o) is None || (opt_model(*o) matches Some(Asn::SequenceOf(items))
            && forall|i: int| 0 <= i < items.len() ==> #[trigger] items[i] is Octets)),
{
    match o {
        None => Some(None),
        Some(a) => match octets_list_items(a) {
            Some(v) => Some(Some(v)),
            None => None,
        },
    }
}

/// An optional BOOLEAN component.
pub fn take_opt_bool(o: &Option<AsnValue>) -> (r: Option<Option<bool>>)
    ensures
        r matches Some(x) ==> opt_model(*o) == opt_bool(x),
        r is Some <==> (opt_model(*o) is None || opt_model(*o) matches Some(Asn::Bool(_))),
{
    match o {
        None => Some(None),
        Some(AsnValue::Bool(b)) => Some(Some(*b)),
        _ => None,
    }
}

/// An optional NULL component.
pub fn take_opt_null(o: &Option<AsnValue>) -> (r: Option<Option<()>>)
    ensures
        r matches Some(x) ==> opt_model(*o) == opt_null(x),
        r is Some <==> (opt_model(*o) is None || opt_model(*o) matches Some(Asn::Null)),
{
    match o {
        None => Some(None),
        Some(AsnValue::Null) => Some(Some(())),
        _ => None,
    }
}

/// The type `s` under the implicit tag `t`.
pub fn retag_schema(s: Schema, t: Tag) -> (r: Schema)
    ensures
        r@ == retag(s@, t),
{
    Schema { tag: t, kind: s.kind }
}

/// The OCTET STRING type under `tag`.
pub fn octets_schema(tag: Tag) -> (s: Schema)
    ensures
        s@ == leaf(tag, SpecKind::OctetString),
{
    Schema { tag, kind: Kind::OctetString }
}

} // verus!
