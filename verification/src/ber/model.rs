//! Schemas (the ASN.1 types that CAP uses) and abstract values, each in an
//! executable form and in the mathematical form the contracts speak of.

use super::integer::Integer;
use super::octets::Tag;
use vstd::prelude::*;

verus! {

/// The kind of an ASN.1 type (mathematical form).
pub enum SpecKind {
    Boolean,
    Integer,
    Null,
    OctetString,
    /// An ENUMERATED type and the values it admits.
    Enumerated(Seq<i64>),
    Sequence(Seq<SpecField>),
    SequenceOf(Box<SpecSchema>),
    /// A CHOICE: its alternatives, told apart by their tags.
    Choice(Seq<SpecSchema>),
}

/// An ASN.1 type with the tag its values are written under (mathematical form).
/// The tag of a CHOICE is not written.
pub struct SpecSchema {
    pub tag: Tag,
    pub kind: SpecKind,
}

/// A component of a SEQUENCE (mathematical form).
pub struct SpecField {
    pub optional: bool,
    pub schema: SpecSchema,
}

/// An abstract ASN.1 value. An INTEGER is a mathematical integer; an
/// ENUMERATED value is its number; a SEQUENCE is
/// the list of its components, `None` for an absent OPTIONAL one; a CHOICE is
/// the index of the alternative and its value.
pub enum Asn {
    Bool(bool),
    Integer(int),
    Int(i64),
    Null,
    Octets(Seq<u8>),
    Sequence(Seq<Option<Asn>>),
    SequenceOf(Seq<Asn>),
    Choice(nat, Box<Asn>),
}

/// The kind of an ASN.1 type.
pub enum Kind {
    Boolean,
    Integer,
    Null,
    OctetString,
    Enumerated(Vec<i64>),
    Sequence(Vec<Field>),
    SequenceOf(Box<Schema>),
    Choice(Vec<Schema>),
}

/// An ASN.1 type with the tag its values are written under.
pub struct Schema {
    pub tag: Tag,
    pub kind: Kind,
}

/// A component of a SEQUENCE.
pub struct Field {
    pub optional: bool,
    pub schema: Schema,
}

/// An ASN.1 value.
pub enum AsnValue {
    Bool(bool),
    Integer(Integer),
    Int(i64),
    Null,
    Octets(Vec<u8>),
    Sequence(Vec<Option<AsnValue>>),
    SequenceOf(Vec<AsnValue>),
    Choice(usize, Box<AsnValue>),
}

pub open spec fn schema_model(s: Schema) -> SpecSchema
    decreases s,
{
    SpecSchema { tag: s.tag, kind: kind_model(s.kind) }
}

pub open spec fn kind_model(k: Kind) -> SpecKind
    decreases k,
{
    match k {
        Kind::Boolean => SpecKind::Boolean,
        Kind::Integer => SpecKind::Integer,
        Kind::Null => SpecKind::Null,
        Kind::OctetString => SpecKind::OctetString,
        Kind::Enumerated(vs) => SpecKind::Enumerated(vs@),
        Kind::Sequence(fs) => SpecKind::Sequence(fields_model(fs@)),
        Kind::SequenceOf(e) => SpecKind::SequenceOf(Box::new(schema_model(*e))),
        Kind::Choice(alts) => SpecKind::Choice(schemas_model(alts@)),
    }
}

pub open spec fn fields_model(fs: Seq<Field>) -> Seq<SpecField>
    decreases fs,
{
    if fs.len() == 0 {
        Seq::empty()
    } else {
        fields_model(fs.drop_last()).push(
            SpecField { optional: fs.last().optional, schema: schema_model(fs.last().schema) },
        )
    }
}

pub open spec fn schemas_model(ss: Seq<Schema>) -> Seq<SpecSchema>
    decreases ss,
{
    if ss.len() == 0 {
        Seq::empty()
    } else {
        schemas_model(ss.drop_last()).push(schema_model(ss.last()))
    }
}

pub open spec fn value_model(v: AsnValue) -> Asn
    decreases v,
{
    match v {
        AsnValue::Bool(b) => Asn::Bool(b),
        AsnValue::Integer(n) => Asn::Integer(n@),
        AsnValue::Int(i) => Asn::Int(i),
        AsnValue::Null => Asn::Null,
        AsnValue::Octets(o) => Asn::Octets(o@),
        AsnValue::Sequence(vs) => Asn::Sequence(options_model(vs@)),
        AsnValue::SequenceOf(vs) => Asn::SequenceOf(values_model(vs@)),
        AsnValue::Choice(i, b) => Asn::Choice(i as nat, Box::new(value_model(*b))),
    }
}

pub open spec fn values_model(vs: Seq<AsnValue>) -> Seq<Asn>
    decreases vs,
{
    if vs.len() == 0 {
        Seq::empty()
    } else {
        values_model(vs.drop_last()).push(value_model(vs.last()))
    }
}

pub open spec fn options_model(vs: Seq<Option<AsnValue>>) -> Seq<Option<Asn>>
    decreases vs,
{
    if vs.len() == 0 {
        Seq::empty()
    } else {
        options_model(vs.drop_last()).push(
            match vs.last() {
                Some(x) => Some(value_model(x)),
                None => None,
            },
        )
    }
}

impl View for Schema {
    type V = SpecSchema;

    open spec fn view(&self) -> SpecSchema {
        schema_model(*self)
    }
}

impl View for AsnValue {
    type V = Asn;

    open spec fn view(&self) -> Asn {
        value_model(*self)
    }
}

} // verus!
