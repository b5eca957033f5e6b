//! Common CAP types (3GPP TS 29.078). Addresses are carried as OCTET STRINGs in
//! their ITU-T / 3GPP wire formats (Q.763, TS 24.008, TBCD).
//!
//! CAP was derived from INAP CS-2, and a family of leaf IEs is byte-identical
//! between the two: `CalledPartyNumber`, `CallingPartyNumber`, `Cause`,
//! `EventTypeBcsm`, `MonitorMode` and `BcsmEvent` have the INAP definitions.

use crate::ber::encoder::{lemma_fields_model, lemma_options_model};
pub use crate::ber::integer::Integer;
use crate::ber::model::{
    fields_model, options_model, Asn, AsnValue, Field, Kind, Schema, SpecField, SpecKind,
    SpecSchema,
};
use crate::ber::octets::{int_octets, tlv, Tag, CONTEXT, UNIVERSAL};
use crate::ber::parts::{
    context, lemma_components, lemma_retag, lemma_wf_leaf, lemma_wf_sequence, leaf, octets_schema,
    opt_int, opt_int_value, opt_model, opt_octets, opt_octets_value, optional, required, retag,
    retag_schema, take_opt_int, take_opt_octets, universal,
};
use crate::ber::spec::{enc_fields, wt};
use crate::codec::{
    ber_encoding, lemma_component_typed, lemma_component_within, lemma_component_written, take,
    written_in, BerCodec, DEPTH,
};
use vstd::prelude::*;

verus! {

/// Identifies the CAMEL service logic at the gsmSCF.
pub type ServiceKey = Integer;

/// Uniquely identifies a call at the gsmSSF.
pub type CallReferenceNumber = Vec<u8>;

/// Called party number, Q.763 format.
pub type CalledPartyNumber = Vec<u8>;

/// Calling party number, Q.763 format.
pub type CallingPartyNumber = Vec<u8>;

/// Q.850 cause value.
pub type Cause = Vec<u8>;

/// Called party number, 3GPP TS 24.008 BCD format.
pub type CalledPartyBcdNumber = Vec<u8>;

/// Location number, Q.763 format.
pub type LocationNumber = Vec<u8>;

/// Original called party ID, Q.763 format.
pub type OriginalCalledPartyId = Vec<u8>;

/// Redirecting party ID, Q.763 format.
pub type RedirectingPartyId = Vec<u8>;

/// IMSI (TBCD in an OCTET STRING).
pub type Imsi = Vec<u8>;

/// ISDN-AddressString (TBCD: octet 0 = NPI/TON, then digits).
pub type IsdnAddressString = Vec<u8>;

/// The ENUMERATED type with the given values.
pub open spec fn enumerated(values: Seq<i64>) -> SpecSchema {
    leaf(universal(10), SpecKind::Enumerated(values))
}

/// EventTypeBCSM: Basic Call State Model detection-point events.
#[derive(Clone, Copy, Debug, PartialEq, Eq, Structural)]
pub enum EventTypeBcsm {
    CollectedInfo,
    AnalysedInformation,
    RouteSelectFailure,
    OCalledPartyBusy,
    ONoAnswer,
    OAnswer,
    ODisconnect,
    OAbandon,
    TermAttemptAuthorized,
    TBusy,
    TNoAnswer,
    TAnswer,
    TDisconnect,
    TAbandon,
}

impl EventTypeBcsm {
    /// The on-wire ENUMERATED value.
    pub open spec fn spec_value(self) -> i64 {
        match self {
            EventTypeBcsm::CollectedInfo => 2,
            EventTypeBcsm::AnalysedInformation => 3,
            EventTypeBcsm::RouteSelectFailure => 4,
            EventTypeBcsm::OCalledPartyBusy => 5,
            EventTypeBcsm::ONoAnswer => 6,
            EventTypeBcsm::OAnswer => 7,
            EventTypeBcsm::ODisconnect => 9,
            EventTypeBcsm::OAbandon => 10,
            EventTypeBcsm::TermAttemptAuthorized => 12,
            EventTypeBcsm::TBusy => 13,
            EventTypeBcsm::TNoAnswer => 14,
            EventTypeBcsm::TAnswer => 15,
            EventTypeBcsm::TDisconnect => 17,
            EventTypeBcsm::TAbandon => 18,
        }
    }

    /// The on-wire values of TS 29.078: collectedInfo 2, analysedInformation 3,
    /// routeSelectFailure 4, oCalledPartyBusy 5, oNoAnswer 6, oAnswer 7,
    /// oDisconnect 9, oAbandon 10, termAttemptAuthorized 12, tBusy 13,
    /// tNoAnswer 14, tAnswer 15, tDisconnect 17, tAbandon 18.
    /// Each value is written as an ENUMERATED of one contents octet.
    pub proof fn lemma_wire_value(e: Self)
        ensures
            ber_encoding(e) == seq![
                0x0Au8,
                0x01u8,
                match e {
                    EventTypeBcsm::CollectedInfo => 2u8,
                    EventTypeBcsm::AnalysedInformation => 3u8,
                    EventTypeBcsm::RouteSelectFailure => 4u8,
                    EventTypeBcsm::OCalledPartyBusy => 5u8,
                    EventTypeBcsm::ONoAnswer => 6u8,
                    EventTypeBcsm::OAnswer => 7u8,
                    EventTypeBcsm::ODisconnect => 9u8,
                    EventTypeBcsm::OAbandon => 10u8,
                    EventTypeBcsm::TermAttemptAuthorized => 12u8,
                    EventTypeBcsm::TBusy => 13u8,
                    EventTypeBcsm::TNoAnswer => 14u8,
                    EventTypeBcsm::TAnswer => 15u8,
                    EventTypeBcsm::TDisconnect => 17u8,
                    EventTypeBcsm::TAbandon => 18u8,
                },
            ],
    {
        let v = e.spec_value() as int;
        assert(int_octets(v) == seq![(v % 256) as u8]);
        assert(ber_encoding(e) =~= seq![0x0Au8, 0x01u8, (v % 256) as u8]);
    }

    /// The ENUMERATED values that name an event, in ascending order.
    pub open spec fn spec_values() -> Seq<i64> {
        seq![2, 3, 4, 5, 6, 7, 9, 10, 12, 13, 14, 15, 17, 18]
    }

    /// Where the value stands in `spec_values`.
    pub open spec fn spec_position(self) -> int {
        match self {
            EventTypeBcsm::CollectedInfo => 0,
            EventTypeBcsm::AnalysedInformation => 1,
            EventTypeBcsm::RouteSelectFailure => 2,
            EventTypeBcsm::OCalledPartyBusy => 3,
            EventTypeBcsm::ONoAnswer => 4,
            EventTypeBcsm::OAnswer => 5,
            EventTypeBcsm::ODisconnect => 6,
            EventTypeBcsm::OAbandon => 7,
            EventTypeBcsm::TermAttemptAuthorized => 8,
            EventTypeBcsm::TBusy => 9,
            EventTypeBcsm::TNoAnswer => 10,
            EventTypeBcsm::TAnswer => 11,
            EventTypeBcsm::TDisconnect => 12,
            EventTypeBcsm::TAbandon => 13,
        }
    }

    /// The value of each variant is among the listed ones.
    pub proof fn lemma_listed(self)
        ensures
            0 <= self.spec_position() < Self::spec_values().len(),
            Self::spec_values()[self.spec_position()] == self.spec_value(),
            Self::spec_values().contains(self.spec_value()),
    {
        assert(Self::spec_values()[self.spec_position()] == self.spec_value());
    }

    /// Different variants have different values, so `from_value` gives back
    /// the variant whose `value` it is given.
    pub proof fn lemma_value_injective(a: Self, b: Self)
        ensures
            a.spec_value() == b.spec_value() ==> a == b,
    {
    }

    /// The on-wire ENUMERATED value.
    pub fn value(self) -> (r: i64)
        ensures
            r == self.spec_value(),
    {
        match self {
            EventTypeBcsm::CollectedInfo => 2,
            EventTypeBcsm::AnalysedInformation => 3,
            EventTypeBcsm::RouteSelectFailure => 4,
            EventTypeBcsm::OCalledPartyBusy => 5,
            EventTypeBcsm::ONoAnswer => 6,
            EventTypeBcsm::OAnswer => 7,
            EventTypeBcsm::ODisconnect => 9,
            EventTypeBcsm::OAbandon => 10,
            EventTypeBcsm::TermAttemptAuthorized => 12,
            EventTypeBcsm::TBusy => 13,
            EventTypeBcsm::TNoAnswer => 14,
            EventTypeBcsm::TAnswer => 15,
            EventTypeBcsm::TDisconnect => 17,
            EventTypeBcsm::TAbandon => 18,
        }
    }

    /// The variant with ENUMERATED value `v`, if there is one.
    pub fn from_value(v: i64) -> (r: Option<Self>)
        ensures
            r matches Some(e) ==> e.spec_value() == v,
            r is Some <==> Self::spec_values().contains(v),
    {
        let r = if v == 2 {
            Some(EventTypeBcsm::CollectedInfo)
        } else if v == 3 {
            Some(EventTypeBcsm::AnalysedInformation)
        } else if v == 4 {
            Some(EventTypeBcsm::RouteSelectFailure)
        } else if v == 5 {
            Some(EventTypeBcsm::OCalledPartyBusy)
        } else if v == 6 {
            Some(EventTypeBcsm::ONoAnswer)
        } else if v == 7 {
            Some(EventTypeBcsm::OAnswer)
        } else if v == 9 {
            Some(EventTypeBcsm::ODisconnect)
        } else if v == 10 {
            Some(EventTypeBcsm::OAbandon)
        } else if v == 12 {
            Some(EventTypeBcsm::TermAttemptAuthorized)
        } else if v == 13 {
            Some(EventTypeBcsm::TBusy)
        } else if v == 14 {
            Some(EventTypeBcsm::TNoAnswer)
        } else if v == 15 {
            Some(EventTypeBcsm::TAnswer)
        } else if v == 17 {
            Some(EventTypeBcsm::TDisconnect)
        } else if v == 18 {
            Some(EventTypeBcsm::TAbandon)
        } else {
            None
        };
        proof {
            if let Some(e) = r {
                e.lemma_listed();
            }
        }
        r
    }
}

impl View for EventTypeBcsm {
    type V = Asn;

    open spec fn view(&self) -> Asn {
        Asn::Int(self.spec_value())
    }
}

impl BerCodec for EventTypeBcsm {
    open spec fn spec_schema() -> SpecSchema {
        enumerated(Self::spec_values())
    }

    open spec fn height() -> nat {
        1
    }

    proof fn lemma_schema_sound() {
    }

    proof fn lemma_view_typed(x: Self) {
        x.lemma_listed();
    }

    fn schema() -> (s: Schema) {
        let s = Schema {
            tag: Tag { class: UNIVERSAL, number: 10 },
            kind: Kind::Enumerated(vec![2, 3, 4, 5, 6, 7, 9, 10, 12, 13, 14, 15, 17, 18]),
        };
        assert(s@.kind->Enumerated_0 =~= Self::spec_values());
        s
    }

    fn to_asn(&self) -> (v: AsnValue) {
        AsnValue::Int(self.value())
    }

    fn from_asn(v: &AsnValue) -> (r: Option<Self>) {
        match v {
            AsnValue::Int(i) => {
                let r = Self::from_value(*i);
                proof {
                    if let Some(e) = r {
                        Self::lemma_view_typed(e);
                    }
                }
                r
            },
            _ => None,
        }
    }
}

/// MonitorMode: how a detection point is reported.
#[derive(Clone, Copy, Debug, PartialEq, Eq, Structural)]
pub enum MonitorMode {
    Interrupted,
    NotifyAndContinue,
    Transparent,
}

impl MonitorMode {
    /// The on-wire ENUMERATED value.
    pub open spec fn spec_value(self) -> i64 {
        match self {
            MonitorMode::Interrupted => 0,
            MonitorMode::NotifyAndContinue => 1,
            MonitorMode::Transparent => 2,
        }
    }

    /// The on-wire values of TS 29.078: interrupted 0, notifyAndContinue 1,
    /// transparent 2.
    /// Each value is written as an ENUMERATED of one contents octet.
    pub proof fn lemma_wire_value(e: Self)
        ensures
            ber_encoding(e) == seq![
                0x0Au8,
                0x01u8,
                match e {
                    MonitorMode::Interrupted => 0u8,
                    MonitorMode::NotifyAndContinue => 1u8,
                    MonitorMode::Transparent => 2u8,
                },
            ],
    {
        let v = e.spec_value() as int;
        assert(int_octets(v) == seq![(v % 256) as u8]);
        assert(ber_encoding(e) =~= seq![0x0Au8, 0x01u8, (v % 256) as u8]);
    }

    /// The ENUMERATED values that name a mode, in ascending order.
    pub open spec fn spec_values() -> Seq<i64> {
        seq![0, 1, 2]
    }

    /// Where the value stands in `spec_values`.
    pub open spec fn spec_position(self) -> int {
        match self {
            MonitorMode::Interrupted => 0,
            MonitorMode::NotifyAndContinue => 1,
            MonitorMode::Transparent => 2,
        }
    }

    /// The value of each variant is among the listed ones.
    pub proof fn lemma_listed(self)
        ensures
            0 <= self.spec_position() < Self::spec_values().len(),
            Self::spec_values()[self.spec_position()] == self.spec_value(),
            Self::spec_values().contains(self.spec_value()),
    {
        assert(Self::spec_values()[self.spec_position()] == self.spec_value());
    }

    /// Different variants have different values, so `from_value` gives back
    /// the variant whose `value` it is given.
    pub proof fn lemma_value_injective(a: Self, b: Self)
        ensures
            a.spec_value() == b.spec_value() ==> a == b,
    {
    }

    /// The on-wire ENUMERATED value.
    pub fn value(self) -> (r: i64)
        ensures
            r == self.spec_value(),
    {
        match self {
            MonitorMode::Interrupted => 0,
            MonitorMode::NotifyAndContinue => 1,
            MonitorMode::Transparent => 2,
        }
    }

    /// The variant with ENUMERATED value `v`, if there is one.
    pub fn from_value(v: i64) -> (r: Option<Self>)
        ensures
            r matches Some(e) ==> e.spec_value() == v,
            r is Some <==> Self::spec_values().contains(v),
    {
        let r = if v == 0 {
            Some(MonitorMode::Interrupted)
        } else if v == 1 {
            Some(MonitorMode::NotifyAndContinue)
        } else if v == 2 {
            Some(MonitorMode::Transparent)
        } else {
            None
        };
        proof {
            if let Some(e) = r {
                e.lemma_listed();
            }
        }
        r
    }
}

impl View for MonitorMode {
    type V = Asn;

    open spec fn view(&self) -> Asn {
        Asn::Int(self.spec_value())
    }
}

impl BerCodec for MonitorMode {
    open spec fn spec_schema() -> SpecSchema {
        enumerated(Self::spec_values())
    }

    open spec fn height() -> nat {
        1
    }

    proof fn lemma_schema_sound() {
    }

    proof fn lemma_view_typed(x: Self) {
        x.lemma_listed();
    }

    fn schema() -> (s: Schema) {
        let s = Schema {
            tag: Tag { class: UNIVERSAL, number: 10 },
            kind: Kind::Enumerated(vec![0, 1, 2]),
        };
        assert(s@.kind->Enumerated_0 =~= Self::spec_values());
        s
    }

    fn to_asn(&self) -> (v: AsnValue) {
        AsnValue::Int(self.value())
    }

    fn from_asn(v: &AsnValue) -> (r: Option<Self>) {
        match v {
            AsnValue::Int(i) => {
                let r = Self::from_value(*i);
                proof {
                    if let Some(e) = r {
                        Self::lemma_view_typed(e);
                    }
                }
                r
            },
            _ => None,
        }
    }
}

/// EventTypeSMS: SMS detection-point events.
#[derive(Clone, Copy, Debug, PartialEq, Eq, Structural)]
pub enum EventTypeSms {
    SmsCollectedInfo,
    OSmsFailure,
    OSmsSubmission,
    SmsDeliveryRequested,
    TSmsFailure,
    TSmsDelivery,
}

impl EventTypeSms {
    /// The on-wire ENUMERATED value.
    pub open spec fn spec_value(self) -> i64 {
        match self {
            EventTypeSms::SmsCollectedInfo => 1,
            EventTypeSms::OSmsFailure => 2,
            EventTypeSms::OSmsSubmission => 3,
            EventTypeSms::SmsDeliveryRequested => 11,
            EventTypeSms::TSmsFailure => 12,
            EventTypeSms::TSmsDelivery => 13,
        }
    }

    /// The on-wire values of TS 29.078: sms-CollectedInfo 1, o-smsFailure 2,
    /// o-smsSubmission 3, sms-DeliveryRequested 11, t-smsFailure 12,
    /// t-smsDelivery 13.
    /// Each value is written as an ENUMERATED of one contents octet.
    pub proof fn lemma_wire_value(e: Self)
        ensures
            ber_encoding(e) == seq![
                0x0Au8,
                0x01u8,
                match e {
                    EventTypeSms::SmsCollectedInfo => 1u8,
                    EventTypeSms::OSmsFailure => 2u8,
                    EventTypeSms::OSmsSubmission => 3u8,
                    EventTypeSms::SmsDeliveryRequested => 11u8,
                    EventTypeSms::TSmsFailure => 12u8,
                    EventTypeSms::TSmsDelivery => 13u8,
                },
            ],
    {
        let v = e.spec_value() as int;
        assert(int_octets(v) == seq![(v % 256) as u8]);
        assert(ber_encoding(e) =~= seq![0x0Au8, 0x01u8, (v % 256) as u8]);
    }

    /// The ENUMERATED values that name an event, in ascending order.
    pub open spec fn spec_values() -> Seq<i64> {
        seq![1, 2, 3, 11, 12, 13]
    }

    /// Where the value stands in `spec_values`.
    pub open spec fn spec_position(self) -> int {
        match self {
            EventTypeSms::SmsCollectedInfo => 0,
            EventTypeSms::OSmsFailure => 1,
            EventTypeSms::OSmsSubmission => 2,
            EventTypeSms::SmsDeliveryRequested => 3,
            EventTypeSms::TSmsFailure => 4,
            EventTypeSms::TSmsDelivery => 5,
        }
    }

    /// The value of each variant is among the listed ones.
    pub proof fn lemma_listed(self)
        ensures
            0 <= self.spec_position() < Self::spec_values().len(),
            Self::spec_values()[self.spec_position()] == self.spec_value(),
            Self::spec_values().contains(self.spec_value()),
    {
        assert(Self::spec_values()[self.spec_position()] == self.spec_value());
    }

    /// Different variants have different values, so `from_value` gives back
    /// the variant whose `value` it is given.
    pub proof fn lemma_value_injective(a: Self, b: Self)
        ensures
            a.spec_value() == b.spec_value() ==> a == b,
    {
    }

    /// The on-wire ENUMERATED value.
    pub fn value(self) -> (r: i64)
        ensures
            r == self.spec_value(),
    {
        match self {
            EventTypeSms::SmsCollectedInfo => 1,
            EventTypeSms::OSmsFailure => 2,
            EventTypeSms::OSmsSubmission => 3,
            EventTypeSms::SmsDeliveryRequested => 11,
            EventTypeSms::TSmsFailure => 12,
            EventTypeSms::TSmsDelivery => 13,
        }
    }

    /// The variant with ENUMERATED value `v`, if there is one.
    pub fn from_value(v: i64) -> (r: Option<Self>)
        ensures
            r matches Some(e) ==> e.spec_value() == v,
            r is Some <==> Self::spec_values().contains(v),
    {
        let r = if v == 1 {
            Some(EventTypeSms::SmsCollectedInfo)
        } else if v == 2 {
            Some(EventTypeSms::OSmsFailure)
        } else if v == 3 {
            Some(EventTypeSms::OSmsSubmission)
        } else if v == 11 {
            Some(EventTypeSms::SmsDeliveryRequested)
        } else if v == 12 {
            Some(EventTypeSms::TSmsFailure)
        } else if v == 13 {
            Some(EventTypeSms::TSmsDelivery)
        } else {
            None
        };
        proof {
            if let Some(e) = r {
                e.lemma_listed();
            }
        }
        r
    }
}

impl View for EventTypeSms {
    type V = Asn;

    open spec fn view(&self) -> Asn {
        Asn::Int(self.spec_value())
    }
}

impl BerCodec for EventTypeSms {
    open spec fn spec_schema() -> SpecSchema {
        enumerated(Self::spec_values())
    }

    open spec fn height() -> nat {
        1
    }

    proof fn lemma_schema_sound() {
    }

    proof fn lemma_view_typed(x: Self) {
        x.lemma_listed();
    }

    fn schema() -> (s: Schema) {
        let s = Schema {
            tag: Tag { class: UNIVERSAL, number: 10 },
            kind: Kind::Enumerated(vec![1, 2, 3, 11, 12, 13]),
        };
        assert(s@.kind->Enumerated_0 =~= Self::spec_values());
        s
    }

    fn to_asn(&self) -> (v: AsnValue) {
        AsnValue::Int(self.value())
    }

    fn from_asn(v: &AsnValue) -> (r: Option<Self>) {
        match v {
            AsnValue::Int(i) => {
                let r = Self::from_value(*i);
                proof {
                    if let Some(e) = r {
                        Self::lemma_view_typed(e);
                    }
                }
                r
            },
            _ => None,
        }
    }
}

/// BCSMEvent: one event detection-point configuration entry.
#[derive(Clone, Debug, PartialEq, Eq)]
pub struct BcsmEvent {
    pub event_type_bcsm: EventTypeBcsm,
    pub monitor_mode: MonitorMode,
    pub leg_id: Option<Vec<u8>>,
}

impl BcsmEvent {
    /// The components: `[0] EventTypeBCSM`, `[1] MonitorMode`, `[2] LegID OPTIONAL`.
    pub open spec fn spec_fields() -> Seq<SpecField> {
        seq![
            required(retag(EventTypeBcsm::spec_schema(), context(0))),
            required(retag(MonitorMode::spec_schema(), context(1))),
            optional(leaf(context(2), SpecKind::OctetString)),
        ]
    }

    /// The encoding of a BCSMEvent: a SEQUENCE of eventTypeBCSM under `[0]`, monitorMode under
    /// `[1]` and legID under `[2]` when present.
    pub proof fn lemma_encoding(x: Self)
        ensures
            ber_encoding(x) == tlv(
                Tag { class: 0, number: 16 },
                true,
                (tlv(Tag { class: 2, number: 0 }, false, int_octets(x.event_type_bcsm.spec_value() as int))) + (tlv(Tag { class: 2, number: 1 }, false, int_octets(x.monitor_mode.spec_value() as int))) + (match x.leg_id {
                    Some(c) => tlv(Tag { class: 2, number: 2 }, false, c@),
                    None => Seq::empty(),
                }),
            ),
    {
        let vals = x@->Sequence_0;
        let fs = Self::spec_fields();
        reveal_with_fuel(enc_fields, 4);
        assert(fs.drop_first().drop_first().drop_first() =~= Seq::<SpecField>::empty());
        assert(enc_fields((DEPTH - 1) as nat, fs.drop_first().drop_first().drop_first(), vals.drop_first().drop_first().drop_first()) =~= Seq::<u8>::empty());
        assert(enc_fields((DEPTH - 1) as nat, fs, vals) =~= (tlv(Tag { class: 2, number: 0 }, false, int_octets(x.event_type_bcsm.spec_value() as int))) + (tlv(Tag { class: 2, number: 1 }, false, int_octets(x.monitor_mode.spec_value() as int))) + (match x.leg_id {
                    Some(c) => tlv(Tag { class: 2, number: 2 }, false, c@),
                    None => Seq::empty(),
                }));
    }
}

impl View for BcsmEvent {
    type V = Asn;

    open spec fn view(&self) -> Asn {
        Asn::Sequence(
            seq![
                Some(self.event_type_bcsm@),
                Some(self.monitor_mode@),
                opt_octets(self.leg_id),
            ],
        )
    }
}

impl BerCodec for BcsmEvent {
    open spec fn spec_schema() -> SpecSchema {
        leaf(universal(16), SpecKind::Sequence(Self::spec_fields()))
    }

    open spec fn height() -> nat {
        2
    }

    proof fn lemma_schema_sound() {
        EventTypeBcsm::lemma_schema_sound();
        lemma_retag(1, EventTypeBcsm::spec_schema(), context(0));
        MonitorMode::lemma_schema_sound();
        lemma_retag(1, MonitorMode::spec_schema(), context(1));
        lemma_wf_leaf(1, leaf(context(2), SpecKind::OctetString));
        lemma_wf_sequence(2, universal(16), Self::spec_fields());
    }

    proof fn lemma_view_typed(x: Self) {
        lemma_component_typed::<EventTypeBcsm>(1, context(0), x.event_type_bcsm);
        lemma_component_typed::<MonitorMode>(1, context(1), x.monitor_mode);
        reveal_with_fuel(wt, 2);
    }

    fn schema() -> (s: Schema) {
        let mut fields: Vec<Field> = Vec::new();
        fields.push(
            Field {
                optional: false,
                schema: retag_schema(EventTypeBcsm::schema(), Tag { class: CONTEXT, number: 0 }),
            },
        );
        fields.push(
            Field {
                optional: false,
                schema: retag_schema(MonitorMode::schema(), Tag { class: CONTEXT, number: 1 }),
            },
        );
        fields.push(
            Field {
                optional: true,
                schema: octets_schema(Tag { class: CONTEXT, number: 2 }),
            },
        );
        proof {
            lemma_fields_model(fields@);
            assert(fields_model(fields@) =~= Self::spec_fields());
        }
        Schema { tag: Tag { class: UNIVERSAL, number: 16 }, kind: Kind::Sequence(fields) }
    }

    fn to_asn(&self) -> (v: AsnValue) {
        let mut vals: Vec<Option<AsnValue>> = Vec::new();
        vals.push(Some(self.event_type_bcsm.to_asn()));
        vals.push(Some(self.monitor_mode.to_asn()));
        vals.push(opt_octets_value(&self.leg_id));
        proof {
            lemma_options_model(vals@);
            assert(options_model(vals@) =~= self@->Sequence_0);
        }
        AsnValue::Sequence(vals)
    }

    fn from_asn(v: &AsnValue) -> (r: Option<Self>) {
        let vals = match v {
            AsnValue::Sequence(vals) => vals,
            _ => return None,
        };
        proof {
            if wt(2, Self::spec_schema(), v@) {
                lemma_components(2, Self::spec_schema(), vals@);
            }
            lemma_options_model(vals@);
        }
        if vals.len() != 3 {
            return None;
        }
        proof {
            lemma_component_within::<EventTypeBcsm>(1, context(0), opt_model(vals@[0]));
            lemma_component_within::<MonitorMode>(1, context(1), opt_model(vals@[1]));
        }
        let event_type_bcsm = match take::<EventTypeBcsm>(&vals[0]) {
            Some(x) => x,
            None => return None,
        };
        let monitor_mode = match take::<MonitorMode>(&vals[1]) {
            Some(x) => x,
            None => return None,
        };
        let leg_id = match take_opt_octets(&vals[2]) {
            Some(x) => x,
            None => return None,
        };
        let r = BcsmEvent { event_type_bcsm, monitor_mode, leg_id };
        assert(r@->Sequence_0 =~= options_model(vals@));
        proof {
            Self::lemma_view_typed(r);
        }
        Some(r)
    }
}

/// LocationInformation (TS 29.002). `ageOfLocationInformation` is an untagged
/// plain INTEGER.
#[derive(Clone, Debug, PartialEq, Eq)]
pub struct LocationInformation {
    pub age_of_location_information: Option<Integer>,
    pub geographical_information: Option<Vec<u8>>,
    pub vlr_number: Option<IsdnAddressString>,
    pub location_number: Option<LocationNumber>,
    pub cell_global_id_or_service_area_id_or_lai: Option<Vec<u8>>,
    pub msc_number: Option<IsdnAddressString>,
}

impl LocationInformation {
    /// The components, all OPTIONAL: an untagged INTEGER, then `[0]`, `[1]`, `[2]`,
    /// `[3]` and `[8]` OCTET STRINGs.
    pub open spec fn spec_fields() -> Seq<SpecField> {
        seq![
            optional(leaf(universal(2), SpecKind::Integer)),
            optional(leaf(context(0), SpecKind::OctetString)),
            optional(leaf(context(1), SpecKind::OctetString)),
            optional(leaf(context(2), SpecKind::OctetString)),
            optional(leaf(context(3), SpecKind::OctetString)),
            optional(leaf(context(8), SpecKind::OctetString)),
        ]
    }

    /// Every component of a LocationInformation is written within its
    /// encoding under its tag of TS 29.002: ageOfLocationInformation as a
    /// universal INTEGER, then `[0]` geographicalInformation, `[1]` vlr-number,
    /// `[2]` locationNumber, `[3]` cellGlobalIdOrServiceAreaIdOrLAI and `[8]`
    /// msc-Number.
    pub proof fn lemma_components_tagged(x: Self)
        ensures
            x.age_of_location_information matches Some(n) ==> written_in(
                tlv(Tag { class: 0, number: 2 }, false, int_octets(n@)),
                ber_encoding(x),
            ),
            x.geographical_information matches Some(n) ==> written_in(
                tlv(Tag { class: 2, number: 0 }, false, n@),
                ber_encoding(x),
            ),
            x.vlr_number matches Some(n) ==> written_in(
                tlv(Tag { class: 2, number: 1 }, false, n@),
                ber_encoding(x),
            ),
            x.location_number matches Some(n) ==> written_in(
                tlv(Tag { class: 2, number: 2 }, false, n@),
                ber_encoding(x),
            ),
            x.cell_global_id_or_service_area_id_or_lai matches Some(n) ==> written_in(
                tlv(Tag { class: 2, number: 3 }, false, n@),
                ber_encoding(x),
            ),
            x.msc_number matches Some(n) ==> written_in(
                tlv(Tag { class: 2, number: 8 }, false, n@),
                ber_encoding(x),
            ),
    {
        let vals = x@->Sequence_0;
        assert(Self::spec_schema().kind->Sequence_0 == Self::spec_fields());
        if vals[0] is Some {
            lemma_component_written(x, 0);
        }
        if vals[1] is Some {
            lemma_component_written(x, 1);
        }
        if vals[2] is Some {
            lemma_component_written(x, 2);
        }
        if vals[3] is Some {
            lemma_component_written(x, 3);
        }
        if vals[4] is Some {
            lemma_component_written(x, 4);
        }
        if vals[5] is Some {
            lemma_component_written(x, 5);
        }
    }
}

impl View for LocationInformation {
    type V = Asn;

    open spec fn view(&self) -> Asn {
        Asn::Sequence(
            seq![
                opt_int(self.age_of_location_information),
                opt_octets(self.geographical_information),
                opt_octets(self.vlr_number),
                opt_octets(self.location_number),
                opt_octets(self.cell_global_id_or_service_area_id_or_lai),
                opt_octets(self.msc_number),
            ],
        )
    }
}

impl BerCodec for LocationInformation {
    open spec fn spec_schema() -> SpecSchema {
        leaf(universal(16), SpecKind::Sequence(Self::spec_fields()))
    }

    open spec fn height() -> nat {
        2
    }

    proof fn lemma_schema_sound() {
        lemma_wf_leaf(1, leaf(universal(2), SpecKind::Integer));
        lemma_wf_leaf(1, leaf(context(0), SpecKind::OctetString));
        lemma_wf_leaf(1, leaf(context(1), SpecKind::OctetString));
        lemma_wf_leaf(1, leaf(context(2), SpecKind::OctetString));
        lemma_wf_leaf(1, leaf(context(3), SpecKind::OctetString));
        lemma_wf_leaf(1, leaf(context(8), SpecKind::OctetString));
        lemma_wf_sequence(2, universal(16), Self::spec_fields());
    }

    proof fn lemma_view_typed(x: Self) {
        reveal_with_fuel(wt, 2);
    }

    fn schema() -> (s: Schema) {
        let mut fields: Vec<Field> = Vec::new();
        fields.push(
            Field {
                optional: true,
                schema: Schema { tag: Tag { class: UNIVERSAL, number: 2 }, kind: Kind::Integer },
            },
        );
        fields.push(
            Field {
                optional: true,
                schema: octets_schema(Tag { class: CONTEXT, number: 0 }),
            },
        );
        fields.push(
            Field {
                optional: true,
                schema: octets_schema(Tag { class: CONTEXT, number: 1 }),
            },
        );
        fields.push(
            Field {
                optional: true,
                schema: octets_schema(Tag { class: CONTEXT, number: 2 }),
            },
        );
        fields.push(
            Field {
                optional: true,
                schema: octets_schema(Tag { class: CONTEXT, number: 3 }),
            },
        );
        fields.push(
            Field {
                optional: true,
                schema: octets_schema(Tag { class: CONTEXT, number: 8 }),
            },
        );
        proof {
            lemma_fields_model(fields@);
            assert(fields_model(fields@) =~= Self::spec_fields());
        }
        Schema { tag: Tag { class: UNIVERSAL, number: 16 }, kind: Kind::Sequence(fields) }
    }

    fn to_asn(&self) -> (v: AsnValue) {
        let mut vals: Vec<Option<AsnValue>> = Vec::new();
        vals.push(opt_int_value(&self.age_of_location_information));
        vals.push(opt_octets_value(&self.geographical_information));
        vals.push(opt_octets_value(&self.vlr_number));
        vals.push(opt_octets_value(&self.location_number));
        vals.push(opt_octets_value(&self.cell_global_id_or_service_area_id_or_lai));
        vals.push(opt_octets_value(&self.msc_number));
        proof {
            lemma_options_model(vals@);
            assert(options_model(vals@) =~= self@->Sequence_0);
        }
        AsnValue::Sequence(vals)
    }

    fn from_asn(v: &AsnValue) -> (r: Option<Self>) {
        let vals = match v {
            AsnValue::Sequence(vals) => vals,
            _ => return None,
        };
        proof {
            if wt(2, Self::spec_schema(), v@) {
                lemma_components(2, Self::spec_schema(), vals@);
            }
            lemma_options_model(vals@);
        }
        if vals.len() != 6 {
            return None;
        }
        let age_of_location_information = match take_opt_int(&vals[0]) {
            Some(x) => x,
            None => return None,
        };
        let geographical_information = match take_opt_octets(&vals[1]) {
            Some(x) => x,
            None => return None,
        };
        let vlr_number = match take_opt_octets(&vals[2]) {
            Some(x) => x,
            None => return None,
        };
        let location_number = match take_opt_octets(&vals[3]) {
            Some(x) => x,
            None => return None,
        };
        let cell_global_id_or_service_area_id_or_lai = match take_opt_octets(&vals[4]) {
            Some(x) => x,
            None => return None,
        };
        let msc_number = match take_opt_octets(&vals[5]) {
            Some(x) => x,
            None => return None,
        };
        let r = LocationInformation {
            age_of_location_information,
            geographical_information,
            vlr_number,
            location_number,
            cell_global_id_or_service_area_id_or_lai,
            msc_number,
        };
        assert(r@->Sequence_0 =~= options_model(vals@));
        proof {
            Self::lemma_view_typed(r);
        }
        Some(r)
    }
}

/// SMSEvent: SMS event detection-point configuration.
#[derive(Clone, Debug, PartialEq, Eq)]
pub struct SmsEvent {
    pub event_type_sms: EventTypeSms,
    pub monitor_mode: MonitorMode,
}

impl SmsEvent {
    /// The components: `[0] EventTypeSMS`, `[1] MonitorMode`.
    pub open spec fn spec_fields() -> Seq<SpecField> {
        seq![
            required(retag(EventTypeSms::spec_schema(), context(0))),
            required(retag(MonitorMode::spec_schema(), context(1))),
        ]
    }

    /// The encoding of a SMSEvent: a SEQUENCE of eventTypeSMS under `[0]` and monitorMode under
    /// `[1]`.
    pub proof fn lemma_encoding(x: Self)
        ensures
            ber_encoding(x) == tlv(
                Tag { class: 0, number: 16 },
                true,
                (tlv(Tag { class: 2, number: 0 }, false, int_octets(x.event_type_sms.spec_value() as int))) + (tlv(Tag { class: 2, number: 1 }, false, int_octets(x.monitor_mode.spec_value() as int))),
            ),
    {
        let vals = x@->Sequence_0;
        let fs = Self::spec_fields();
        reveal_with_fuel(enc_fields, 3);
        assert(fs.drop_first().drop_first() =~= Seq::<SpecField>::empty());
        assert(enc_fields((DEPTH - 1) as nat, fs.drop_first().drop_first(), vals.drop_first().drop_first()) =~= Seq::<u8>::empty());
        assert(enc_fields((DEPTH - 1) as nat, fs, vals) =~= (tlv(Tag { class: 2, number: 0 }, false, int_octets(x.event_type_sms.spec_value() as int))) + (tlv(Tag { class: 2, number: 1 }, false, int_octets(x.monitor_mode.spec_value() as int))));
    }
}

impl View for SmsEvent {
    type V = Asn;

    open spec fn view(&self) -> Asn {
        Asn::Sequence(
            seq![
                Some(self.event_type_sms@),
                Some(self.monitor_mode@),
            ],
        )
    }
}

impl BerCodec for SmsEvent {
    open spec fn spec_schema() -> SpecSchema {
        leaf(universal(16), SpecKind::Sequence(Self::spec_fields()))
    }

    open spec fn height() -> nat {
        2
    }

    proof fn lemma_schema_sound() {
        EventTypeSms::lemma_schema_sound();
        lemma_retag(1, EventTypeSms::spec_schema(), context(0));
        MonitorMode::lemma_schema_sound();
        lemma_retag(1, MonitorMode::spec_schema(), context(1));
        lemma_wf_sequence(2, universal(16), Self::spec_fields());
    }

    proof fn lemma_view_typed(x: Self) {
        lemma_component_typed::<EventTypeSms>(1, context(0), x.event_type_sms);
        lemma_component_typed::<MonitorMode>(1, context(1), x.monitor_mode);
        reveal_with_fuel(wt, 2);
    }

    fn schema() -> (s: Schema) {
        let mut fields: Vec<Field> = Vec::new();
        fields.push(
            Field {
                optional: false,
                schema: retag_schema(EventTypeSms::schema(), Tag { class: CONTEXT, number: 0 }),
            },
        );
        fields.push(
            Field {
                optional: false,
                schema: retag_schema(MonitorMode::schema(), Tag { class: CONTEXT, number: 1 }),
            },
        );
        proof {
            lemma_fields_model(fields@);
            assert(fields_model(fields@) =~= Self::spec_fields());
        }
        Schema { tag: Tag { class: UNIVERSAL, number: 16 }, kind: Kind::Sequence(fields) }
    }

    fn to_asn(&self) -> (v: AsnValue) {
        let mut vals: Vec<Option<AsnValue>> = Vec::new();
        vals.push(Some(self.event_type_sms.to_asn()));
        vals.push(Some(self.monitor_mode.to_asn()));
        proof {
            lemma_options_model(vals@);
            assert(options_model(vals@) =~= self@->Sequence_0);
        }
        AsnValue::Sequence(vals)
    }

    fn from_asn(v: &AsnValue) -> (r: Option<Self>) {
        let vals = match v {
            AsnValue::Sequence(vals) => vals,
            _ => return None,
        };
        proof {
            if wt(2, Self::spec_schema(), v@) {
                lemma_components(2, Self::spec_schema(), vals@);
            }
            lemma_options_model(vals@);
        }
        if vals.len() != 2 {
            return None;
        }
        proof {
            lemma_component_within::<EventTypeSms>(1, context(0), opt_model(vals@[0]));
            lemma_component_within::<MonitorMode>(1, context(1), opt_model(vals@[1]));
        }
        let event_type_sms = match take::<EventTypeSms>(&vals[0]) {
            Some(x) => x,
            None => return None,
        };
        let monitor_mode = match take::<MonitorMode>(&vals[1]) {
            Some(x) => x,
            None => return None,
        };
        let r = SmsEvent { event_type_sms, monitor_mode };
        assert(r@->Sequence_0 =~= options_model(vals@));
        proof {
            Self::lemma_view_typed(r);
        }
        Some(r)
    }
}

} // verus!
