//! CAP operation arguments and results (3GPP TS 29.078), each with its BER
//! codec; a consumer wraps them in TCAP components with the matching
//! [operation code](crate::op_codes).

use crate::ber::encoder::{lemma_fields_model, lemma_options_model, lemma_schemas_model};
use crate::ber::fuel::lemma_wf_more_fuel;
use crate::ber::model::{
    fields_model, options_model, schemas_model, value_model, Asn, AsnValue, Field, Kind, Schema,
    SpecField, SpecKind, SpecSchema,
};
use crate::ber::octets::{int_octets, tlv, Tag, CONTEXT, UNIVERSAL};
use crate::ber::parts::{
    context, copy_bytes, lemma_components, lemma_octets_list_typed, lemma_octets_list_within,
    lemma_retag, lemma_wf_choice, lemma_wf_leaf, lemma_wf_list, lemma_wf_sequence, leaf,
    octets_list, octets_list_value, octets_schema, octets_value, opt_bool, opt_bool_value,
    opt_model, opt_null, opt_null_value, opt_octets, opt_octets_list, opt_octets_list_value,
    opt_octets_value, optional, required, retag, retag_schema, take_int, take_octets,
    take_octets_list, take_opt_bool, take_opt_null, take_opt_octets, take_opt_octets_list,
    universal,
};
use crate::ber::spec::{enc, enc_fields, enc_items, wt};
use crate::codec::{
    ber_encoding, lemma_component_typed, lemma_component_within, lemma_component_written,
    lemma_list_typed, lemma_list_within, list_to_asn, list_view, opt_to_asn, opt_view, take, take_list, take_opt, written_in, BerCodec, DEPTH,
};
use crate::types::{
    BcsmEvent, CallReferenceNumber, CalledPartyBcdNumber, CalledPartyNumber, CallingPartyNumber,
    Cause, EventTypeBcsm, EventTypeSms, Imsi, Integer, IsdnAddressString, LocationInformation,
    OriginalCalledPartyId, RedirectingPartyId, ServiceKey, SmsEvent,
};
use vstd::prelude::*;

verus! {

// ── Call control ─────────────────────────────────────────────────────────────

/// InitialDP (op 0): the gsmSSF reports a triggered call to the gsmSCF. Tags are
/// from the CAP ASN.1 (distinct from MAP); the components ascend by tag.
#[derive(Clone, Debug, PartialEq, Eq)]
pub struct InitialDpArg {
    pub service_key: ServiceKey,
    pub called_party_number: Option<CalledPartyNumber>,
    pub calling_party_number: Option<CallingPartyNumber>,
    pub calling_partys_category: Option<Vec<u8>>,
    pub original_called_party_id: Option<OriginalCalledPartyId>,
    pub event_type_bcsm: Option<EventTypeBcsm>,
    pub redirecting_party_id: Option<RedirectingPartyId>,
    pub imsi: Option<Imsi>,
    pub location_information: Option<LocationInformation>,
    pub call_reference_number: Option<CallReferenceNumber>,
    pub msc_address: Option<IsdnAddressString>,
    pub called_party_bcd_number: Option<CalledPartyBcdNumber>,
    pub time_and_timezone: Option<Vec<u8>>,
}

impl InitialDpArg {
    /// The components: `[0] ServiceKey`, then OPTIONAL `[2]`, `[3]`, `[5]`, `[12]`,
    /// `[28]`, `[29]`, `[50]`, `[52]`, `[54]`, `[55]`, `[56]` and `[57]`.
    pub open spec fn spec_fields() -> Seq<SpecField> {
        seq![
            required(leaf(context(0), SpecKind::Integer)),
            optional(leaf(context(2), SpecKind::OctetString)),
            optional(leaf(context(3), SpecKind::OctetString)),
            optional(leaf(context(5), SpecKind::OctetString)),
            optional(leaf(context(12), SpecKind::OctetString)),
            optional(retag(EventTypeBcsm::spec_schema(), context(28))),
            optional(leaf(context(29), SpecKind::OctetString)),
            optional(leaf(context(50), SpecKind::OctetString)),
            optional(retag(LocationInformation::spec_schema(), context(52))),
            optional(leaf(context(54), SpecKind::OctetString)),
            optional(leaf(context(55), SpecKind::OctetString)),
            optional(leaf(context(56), SpecKind::OctetString)),
            optional(leaf(context(57), SpecKind::OctetString)),
        ]
    }

    /// Every component of an InitialDP is written within its encoding under
    /// its context tag of TS 29.078: `[0]` serviceKey, `[2]` calledPartyNumber,
    /// `[3]` callingPartyNumber, `[5]` callingPartysCategory, `[12]`
    /// originalCalledPartyID, `[28]` eventTypeBCSM, `[29]`
    /// redirectingPartyID, `[50]` iMSI, `[52]` locationInformation, `[54]`
    /// callReferenceNumber, `[55]` mscAddress, `[56]` calledPartyBCDNumber and
    /// `[57]` timeAndTimezone.
    pub proof fn lemma_components_tagged(x: Self)
        ensures
            written_in(
                tlv(Tag { class: 2, number: 0 }, false, int_octets(x.service_key@)),
                ber_encoding(x),
            ),
            x.called_party_number matches Some(c) ==> written_in(
                tlv(Tag { class: 2, number: 2 }, false, c@),
                ber_encoding(x),
            ),
            x.calling_party_number matches Some(c) ==> written_in(
                tlv(Tag { class: 2, number: 3 }, false, c@),
                ber_encoding(x),
            ),
            x.calling_partys_category matches Some(c) ==> written_in(
                tlv(Tag { class: 2, number: 5 }, false, c@),
                ber_encoding(x),
            ),
            x.original_called_party_id matches Some(c) ==> written_in(
                tlv(Tag { class: 2, number: 12 }, false, c@),
                ber_encoding(x),
            ),
            x.event_type_bcsm matches Some(e) ==> written_in(
                tlv(Tag { class: 2, number: 28 }, false, int_octets(e.spec_value() as int)),
                ber_encoding(x),
            ),
            x.redirecting_party_id matches Some(c) ==> written_in(
                tlv(Tag { class: 2, number: 29 }, false, c@),
                ber_encoding(x),
            ),
            x.imsi matches Some(c) ==> written_in(
                tlv(Tag { class: 2, number: 50 }, false, c@),
                ber_encoding(x),
            ),
            x.location_information is Some ==> exists|c: Seq<u8>|
                written_in(#[trigger] tlv(Tag { class: 2, number: 52 }, true, c), ber_encoding(x)),
            x.call_reference_number matches Some(c) ==> written_in(
                tlv(Tag { class: 2, number: 54 }, false, c@),
                ber_encoding(x),
            ),
            x.msc_address matches Some(c) ==> written_in(
                tlv(Tag { class: 2, number: 55 }, false, c@),
                ber_encoding(x),
            ),
            x.called_party_bcd_number matches Some(c) ==> written_in(
                tlv(Tag { class: 2, number: 56 }, false, c@),
                ber_encoding(x),
            ),
            x.time_and_timezone matches Some(c) ==> written_in(
                tlv(Tag { class: 2, number: 57 }, false, c@),
                ber_encoding(x),
            ),
    {
        let vals = x@->Sequence_0;
        let fs = Self::spec_fields();
        assert(Self::spec_schema().kind->Sequence_0 == fs);
        lemma_component_written(x, 0);
        if vals[1] is Some {
            lemma_component_written(x, 1);
        }
        if vals[2] is Some {
            lemma_component_written(x, 2);
        }
        if vals[3] is Some {
            lemma_component_written(x, 3);
        }
        if vals[4] is Some {
            lemma_component_written(x, 4);
        }
        if vals[5] is Some {
            lemma_component_written(x, 5);
        }
        if vals[6] is Some {
            lemma_component_written(x, 6);
        }
        if vals[7] is Some {
            lemma_component_written(x, 7);
        }
        if vals[8] is Some {
            lemma_component_written(x, 8);
            let l = vals[8]->Some_0;
            let c = enc_fields((DEPTH - 2) as nat, LocationInformation::spec_fields(), l->Sequence_0);
            assert(enc((DEPTH - 1) as nat, fs[8].schema, l) == tlv(
                Tag { class: 2, number: 52 },
                true,
                c,
            ));
        }
        if vals[9] is Some {
            lemma_component_written(x, 9);
        }
        if vals[10] is Some {
            lemma_component_written(x, 10);
        }
        if vals[11] is Some {
            lemma_component_written(x, 11);
        }
        if vals[12] is Some {
            lemma_component_written(x, 12);
        }
    }
}

impl View for InitialDpArg {
    type V = Asn;

    open spec fn view(&self) -> Asn {
        Asn::Sequence(
            seq![
                Some(Asn::Integer(self.service_key@)),
                opt_octets(self.called_party_number),
                opt_octets(self.calling_party_number),
                opt_octets(self.calling_partys_category),
                opt_octets(self.original_called_party_id),
                opt_view(self.event_type_bcsm),
                opt_octets(self.redirecting_party_id),
                opt_octets(self.imsi),
                opt_view(self.location_information),
                opt_octets(self.call_reference_number),
                opt_octets(self.msc_address),
                opt_octets(self.called_party_bcd_number),
                opt_octets(self.time_and_timezone),
            ],
        )
    }
}

impl BerCodec for InitialDpArg {
    open spec fn spec_schema() -> SpecSchema {
        leaf(universal(16), SpecKind::Sequence(Self::spec_fields()))
    }

    open spec fn height() -> nat {
        3
    }

    proof fn lemma_schema_sound() {
        lemma_wf_leaf(2, leaf(context(0), SpecKind::Integer));
        lemma_wf_leaf(2, leaf(context(2), SpecKind::OctetString));
        lemma_wf_leaf(2, leaf(context(3), SpecKind::OctetString));
        lemma_wf_leaf(2, leaf(context(5), SpecKind::OctetString));
        lemma_wf_leaf(2, leaf(context(12), SpecKind::OctetString));
        EventTypeBcsm::lemma_schema_sound();
        lemma_wf_more_fuel(EventTypeBcsm::height(), 2, EventTypeBcsm::spec_schema());
        lemma_retag(2, EventTypeBcsm::spec_schema(), context(28));
        lemma_wf_leaf(2, leaf(context(29), SpecKind::OctetString));
        lemma_wf_leaf(2, leaf(context(50), SpecKind::OctetString));
        LocationInformation::lemma_schema_sound();
        lemma_retag(2, LocationInformation::spec_schema(), context(52));
        lemma_wf_leaf(2, leaf(context(54), SpecKind::OctetString));
        lemma_wf_leaf(2, leaf(context(55), SpecKind::OctetString));
        lemma_wf_leaf(2, leaf(context(56), SpecKind::OctetString));
        lemma_wf_leaf(2, leaf(context(57), SpecKind::OctetString));
        lemma_wf_sequence(3, universal(16), Self::spec_fields());
    }

    proof fn lemma_view_typed(x: Self) {
        if let Some(y) = x.event_type_bcsm {
            lemma_component_typed::<EventTypeBcsm>(2, context(28), y);
        }
        if let Some(y) = x.location_information {
            lemma_component_typed::<LocationInformation>(2, context(52), y);
        }
        reveal_with_fuel(wt, 2);
    }

    fn schema() -> (s: Schema) {
        let mut fields: Vec<Field> = Vec::new();
        fields.push(
            Field {
                optional: false,
                schema: Schema { tag: Tag { class: CONTEXT, number: 0 }, kind: Kind::Integer },
            },
        );
        fields.push(
            Field {
                optional: true,
                schema: octets_schema(Tag { class: CONTEXT, number: 2 }),
            },
        );
        fields.push(
            Field {
                optional: true,
                schema: octets_schema(Tag { class: CONTEXT, number: 3 }),
            },
        );
        fields.push(
            Field {
                optional: true,
                schema: octets_schema(Tag { class: CONTEXT, number: 5 }),
            },
        );
        fields.push(
            Field {
                optional: true,
                schema: octets_schema(Tag { class: CONTEXT, number: 12 }),
            },
        );
        fields.push(
            Field {
                optional: true,
                schema: retag_schema(EventTypeBcsm::schema(), Tag { class: CONTEXT, number: 28 }),
            },
        );
        fields.push(
            Field {
                optional: true,
                schema: octets_schema(Tag { class: CONTEXT, number: 29 }),
            },
        );
        fields.push(
            Field {
                optional: true,
                schema: octets_schema(Tag { class: CONTEXT, number: 50 }),
            },
        );
        fields.push(
            Field {
                optional: true,
                schema: retag_schema(
                    LocationInformation::schema(),
                    Tag { class: CONTEXT, number: 52 },
                ),
            },
        );
        fields.push(
            Field {
                optional: true,
                schema: octets_schema(Tag { class: CONTEXT, number: 54 }),
            },
        );
        fields.push(
            Field {
                optional: true,
                schema: octets_schema(Tag { class: CONTEXT, number: 55 }),
            },
        );
        fields.push(
            Field {
                optional: true,
                schema: octets_schema(Tag { class: CONTEXT, number: 56 }),
            },
        );
        fields.push(
            Field {
                optional: true,
                schema: octets_schema(Tag { class: CONTEXT, number: 57 }),
            },
        );
        proof {
            lemma_fields_model(fields@);
            assert(fields_model(fields@) =~= Self::spec_fields());
        }
        Schema { tag: Tag { class: UNIVERSAL, number: 16 }, kind: Kind::Sequence(fields) }
    }

    #[verifier::spinoff_prover]
    #[verifier::rlimit(40)]
    fn to_asn(&self) -> (v: AsnValue) {
        let mut vals: Vec<Option<AsnValue>> = Vec::new();
        vals.push(Some(AsnValue::Integer(self.service_key.duplicate())));
        vals.push(opt_octets_value(&self.called_party_number));
        vals.push(opt_octets_value(&self.calling_party_number));
        vals.push(opt_octets_value(&self.calling_partys_category));
        vals.push(opt_octets_value(&self.original_called_party_id));
        vals.push(opt_to_asn(&self.event_type_bcsm));
        vals.push(opt_octets_value(&self.redirecting_party_id));
        vals.push(opt_octets_value(&self.imsi));
        vals.push(opt_to_asn(&self.location_information));
        vals.push(opt_octets_value(&self.call_reference_number));
        vals.push(opt_octets_value(&self.msc_address));
        vals.push(opt_octets_value(&self.called_party_bcd_number));
        vals.push(opt_octets_value(&self.time_and_timezone));
        proof {
            lemma_options_model(vals@);
            assert(options_model(vals@) =~= self@->Sequence_0);
        }
        AsnValue::Sequence(vals)
    }

    #[verifier::spinoff_prover]
    #[verifier::rlimit(40)]
    fn from_asn(v: &AsnValue) -> (r: Option<Self>) {
        let vals = match v {
            AsnValue::Sequence(vals) => vals,
            _ => return None,
        };
        proof {
            if wt(3, Self::spec_schema(), v@) {
                lemma_components(3, Self::spec_schema(), vals@);
            }
            lemma_options_model(vals@);
        }
        if vals.len() != 13 {
            return None;
        }
        proof {
            lemma_component_within::<EventTypeBcsm>(2, context(28), opt_model(vals@[5]));
            lemma_component_within::<LocationInformation>(2, context(52), opt_model(vals@[8]));
        }
        let service_key = match take_int(&vals[0]) {
            Some(x) => x,
            None => return None,
        };
        let called_party_number = match take_opt_octets(&vals[1]) {
            Some(x) => x,
            None => return None,
        };
        let calling_party_number = match take_opt_octets(&vals[2]) {
            Some(x) => x,
            None => return None,
        };
        let calling_partys_category = match take_opt_octets(&vals[3]) {
            Some(x) => x,
            None => return None,
        };
        let original_called_party_id = match take_opt_octets(&vals[4]) {
            Some(x) => x,
            None => return None,
        };
        let event_type_bcsm = match take_opt::<EventTypeBcsm>(&vals[5]) {
            Some(x) => x,
            None => return None,
        };
        let redirecting_party_id = match take_opt_octets(&vals[6]) {
            Some(x) => x,
            None => return None,
        };
        let imsi = match take_opt_octets(&vals[7]) {
            Some(x) => x,
            None => return None,
        };
        let location_information = match take_opt::<LocationInformation>(&vals[8]) {
            Some(x) => x,
            None => return None,
        };
        let call_reference_number = match take_opt_octets(&vals[9]) {
            Some(x) => x,
            None => return None,
        };
        let msc_address = match take_opt_octets(&vals[10]) {
            Some(x) => x,
            None => return None,
        };
        let called_party_bcd_number = match take_opt_octets(&vals[11]) {
            Some(x) => x,
            None => return None,
        };
        let time_and_timezone = match take_opt_octets(&vals[12]) {
            Some(x) => x,
            None => return None,
        };
        let r = InitialDpArg {
            service_key,
            called_party_number,
            calling_party_number,
            calling_partys_category,
            original_called_party_id,
            event_type_bcsm,
            redirecting_party_id,
            imsi,
            location_information,
            call_reference_number,
            msc_address,
            called_party_bcd_number,
            time_and_timezone,
        };
        assert(r@->Sequence_0 =~= options_model(vals@));
        proof {
            Self::lemma_view_typed(r);
        }
        Some(r)
    }
}

/// Connect (op 20): the gsmSCF instructs the gsmSSF to route the call.
#[derive(Clone, Debug, PartialEq, Eq)]
pub struct ConnectArg {
    pub destination_routing_address: Vec<CalledPartyNumber>,
    pub original_called_party_id: Option<OriginalCalledPartyId>,
    pub calling_partys_category: Option<Vec<u8>>,
    pub redirecting_party_id: Option<RedirectingPartyId>,
    pub generic_numbers: Option<Vec<Vec<u8>>>,
}

/// The universal OCTET STRING encodings of the strings of `v`, one after the
/// other: the contents of a SEQUENCE OF OCTET STRING.
pub open spec fn octets_elements(v: Seq<Vec<u8>>) -> Seq<u8>
    decreases v.len(),
{
    if v.len() == 0 {
        Seq::empty()
    } else {
        tlv(Tag { class: 0, number: 4 }, false, v[0]@) + octets_elements(v.drop_first())
    }
}

proof fn lemma_octets_items(fuel: nat, v: Seq<Vec<u8>>)
    requires
        fuel > 0,
    ensures
        enc_items(fuel, leaf(universal(4), SpecKind::OctetString), octets_list(v)->SequenceOf_0)
            == octets_elements(v),
    decreases v.len(),
{
    let items = octets_list(v)->SequenceOf_0;
    assert(items.len() == v.len());
    if v.len() > 0 {
        assert(items[0] == Asn::Octets(v[0]@));
        assert(items.drop_first() =~= octets_list(v.drop_first())->SequenceOf_0);
        lemma_octets_items(fuel, v.drop_first());
        let e = leaf(universal(4), SpecKind::OctetString);
        assert(enc(fuel, e, items[0]) == tlv(Tag { class: 0, number: 4 }, false, v[0]@));
        assert(enc_items(fuel, e, items) == enc(fuel, e, items[0]) + enc_items(
            fuel,
            e,
            items.drop_first(),
        ));
    } else {
        assert(items =~= Seq::<Asn>::empty());
    }
}

impl ConnectArg {
    /// The components: `[0] SEQUENCE OF CalledPartyNumber`, then OPTIONAL `[4]`,
    /// `[6]`, `[7]` and `[11] SEQUENCE OF OCTET STRING`.
    pub open spec fn spec_fields() -> Seq<SpecField> {
        seq![
            required(
                leaf(
                    context(0),
                    SpecKind::SequenceOf(Box::new(leaf(universal(4), SpecKind::OctetString))),
                ),
            ),
            optional(leaf(context(4), SpecKind::OctetString)),
            optional(leaf(context(6), SpecKind::OctetString)),
            optional(leaf(context(7), SpecKind::OctetString)),
            optional(
                leaf(
                    context(11),
                    SpecKind::SequenceOf(Box::new(leaf(universal(4), SpecKind::OctetString))),
                ),
            ),
        ]
    }

    /// The encoding of a Connect argument: a SEQUENCE of the
    /// destinationRoutingAddress list under `[0]`, originalCalledPartyID under
    /// `[4]`, callingPartysCategory under `[6]`, redirectingPartyID under `[7]`
    /// and the genericNumbers list under `[11]`, each when present; a list is
    /// written as its universal OCTET STRINGs in order.
    #[verifier::rlimit(40)]
    pub proof fn lemma_encoding(x: Self)
        ensures
            ber_encoding(x) == tlv(
                Tag { class: 0, number: 16 },
                true,
                (tlv(Tag { class: 2, number: 0 }, true, octets_elements(x.destination_routing_address@)))
                    + (match x.original_called_party_id {
                    Some(c) => tlv(Tag { class: 2, number: 4 }, false, c@),
                    None => Seq::empty(),
                }) + (match x.calling_partys_category {
                    Some(c) => tlv(Tag { class: 2, number: 6 }, false, c@),
                    None => Seq::empty(),
                }) + (match x.redirecting_party_id {
                    Some(c) => tlv(Tag { class: 2, number: 7 }, false, c@),
                    None => Seq::empty(),
                }) + (match x.generic_numbers {
                    Some(g) => tlv(Tag { class: 2, number: 11 }, true, octets_elements(g@)),
                    None => Seq::empty(),
                }),
            ),
    {
        let vals = x@->Sequence_0;
        let fs = Self::spec_fields();
        let fuel = (DEPTH - 1) as nat;
        lemma_octets_items((fuel - 1) as nat, x.destination_routing_address@);
        if let Some(g) = x.generic_numbers {
            lemma_octets_items((fuel - 1) as nat, g@);
        }
        reveal_with_fuel(enc_fields, 6);
        assert(fs.drop_first().drop_first().drop_first().drop_first().drop_first() =~= Seq::<SpecField>::empty());
        assert(enc_fields(fuel, fs.drop_first().drop_first().drop_first().drop_first().drop_first(), vals.drop_first().drop_first().drop_first().drop_first().drop_first()) =~= Seq::<u8>::empty());
        assert(enc_fields(fuel, fs, vals) =~= (tlv(Tag { class: 2, number: 0 }, true, octets_elements(x.destination_routing_address@)))
                    + (match x.original_called_party_id {
                    Some(c) => tlv(Tag { class: 2, number: 4 }, false, c@),
                    None => Seq::empty(),
                }) + (match x.calling_partys_category {
                    Some(c) => tlv(Tag { class: 2, number: 6 }, false, c@),
                    None => Seq::empty(),
                }) + (match x.redirecting_party_id {
                    Some(c) => tlv(Tag { class: 2, number: 7 }, false, c@),
                    None => Seq::empty(),
                }) + (match x.generic_numbers {
                    Some(g) => tlv(Tag { class: 2, number: 11 }, true, octets_elements(g@)),
                    None => Seq::empty(),
                }));
    }
}

impl View for ConnectArg {
    type V = Asn;

    open spec fn view(&self) -> Asn {
        Asn::Sequence(
            seq![
                Some(octets_list(self.destination_routing_address@)),
                opt_octets(self.original_called_party_id),
                opt_octets(self.calling_partys_category),
                opt_octets(self.redirecting_party_id),
                opt_octets_list(self.generic_numbers),
            ],
        )
    }
}

impl BerCodec for ConnectArg {
    open spec fn spec_schema() -> SpecSchema {
        leaf(universal(16), SpecKind::Sequence(Self::spec_fields()))
    }

    open spec fn height() -> nat {
        3
    }

    proof fn lemma_schema_sound() {
        lemma_wf_leaf(1, leaf(universal(4), SpecKind::OctetString));
        lemma_wf_list(2, context(0), leaf(universal(4), SpecKind::OctetString));
        lemma_wf_leaf(2, leaf(context(4), SpecKind::OctetString));
        lemma_wf_leaf(2, leaf(context(6), SpecKind::OctetString));
        lemma_wf_leaf(2, leaf(context(7), SpecKind::OctetString));
        lemma_wf_list(2, context(11), leaf(universal(4), SpecKind::OctetString));
        lemma_wf_sequence(3, universal(16), Self::spec_fields());
    }

    proof fn lemma_view_typed(x: Self) {
        lemma_octets_list_typed(2, context(0), universal(4), x.destination_routing_address@);
        if let Some(y) = x.generic_numbers {
            lemma_octets_list_typed(2, context(11), universal(4), y@);
        }
        reveal_with_fuel(wt, 2);
    }

    fn schema() -> (s: Schema) {
        let mut fields: Vec<Field> = Vec::new();
        fields.push(
            Field {
                optional: false,
                schema: Schema {
                    tag: Tag { class: CONTEXT, number: 0 },
                    kind: Kind::SequenceOf(Box::new(octets_schema(Tag { class: UNIVERSAL, number: 4 }))),
                },
            },
        );
        fields.push(
            Field {
                optional: true,
                schema: octets_schema(Tag { class: CONTEXT, number: 4 }),
            },
        );
        fields.push(
            Field {
                optional: true,
                schema: octets_schema(Tag { class: CONTEXT, number: 6 }),
            },
        );
        fields.push(
            Field {
                optional: true,
                schema: octets_schema(Tag { class: CONTEXT, number: 7 }),
            },
        );
        fields.push(
            Field {
                optional: true,
                schema: Schema {
                    tag: Tag { class: CONTEXT, number: 11 },
                    kind: Kind::SequenceOf(Box::new(octets_schema(Tag { class: UNIVERSAL, number: 4 }))),
                },
            },
        );
        proof {
            lemma_fields_model(fields@);
            assert(fields_model(fields@) =~= Self::spec_fields());
        }
        Schema { tag: Tag { class: UNIVERSAL, number: 16 }, kind: Kind::Sequence(fields) }
    }

    fn to_asn(&self) -> (v: AsnValue) {
        let mut vals: Vec<Option<AsnValue>> = Vec::new();
        vals.push(Some(octets_list_value(&self.destination_routing_address)));
        vals.push(opt_octets_value(&self.original_called_party_id));
        vals.push(opt_octets_value(&self.calling_partys_category));
        vals.push(opt_octets_value(&self.redirecting_party_id));
        vals.push(opt_octets_list_value(&self.generic_numbers));
        proof {
            lemma_options_model(vals@);
            assert(options_model(vals@) =~= self@->Sequence_0);
        }
        AsnValue::Sequence(vals)
    }

    fn from_asn(v: &AsnValue) -> (r: Option<Self>) {
        let vals = match v {
            AsnValue::Sequence(vals) => vals,
            _ => return None,
        };
        proof {
            if wt(3, Self::spec_schema(), v@) {
                lemma_components(3, Self::spec_schema(), vals@);
            }
            lemma_options_model(vals@);
        }
        if vals.len() != 5 {
            return None;
        }
        proof {
            lemma_octets_list_within(2, context(0), universal(4), opt_model(vals@[0]));
            lemma_octets_list_within(2, context(11), universal(4), opt_model(vals@[4]));
        }
        let destination_routing_address = match take_octets_list(&vals[0]) {
            Some(x) => x,
            None => return None,
        };
        let original_called_party_id = match take_opt_octets(&vals[1]) {
            Some(x) => x,
            None => return None,
        };
        let calling_partys_category = match take_opt_octets(&vals[2]) {
            Some(x) => x,
            None => return None,
        };
        let redirecting_party_id = match take_opt_octets(&vals[3]) {
            Some(x) => x,
            None => return None,
        };
        let generic_numbers = match take_opt_octets_list(&vals[4]) {
            Some(x) => x,
            None => return None,
        };
        let r = ConnectArg {
            destination_routing_address,
            original_called_party_id,
            calling_partys_category,
            redirecting_party_id,
            generic_numbers,
        };
        assert(r@->Sequence_0 =~= options_model(vals@));
        proof {
            Self::lemma_view_typed(r);
        }
        Some(r)
    }
}

/// ReleaseCall (op 22): the gsmSCF instructs the gsmSSF to release the call.
#[derive(Clone, Debug, PartialEq, Eq)]
pub struct ReleaseCallArg {
    /// Q.850 cause value.
    pub cause: Cause,
}

impl ReleaseCallArg {
    /// The components: an untagged OCTET STRING.
    pub open spec fn spec_fields() -> Seq<SpecField> {
        seq![
            required(leaf(universal(4), SpecKind::OctetString)),
        ]
    }

    /// The encoding of a ReleaseCall: a SEQUENCE holding the cause as a universal OCTET STRING.
    pub proof fn lemma_encoding(x: Self)
        ensures
            ber_encoding(x) == tlv(
                Tag { class: 0, number: 16 },
                true,
                (tlv(Tag { class: 0, number: 4 }, false, x.cause@)),
            ),
    {
        let vals = x@->Sequence_0;
        let fs = Self::spec_fields();
        reveal_with_fuel(enc_fields, 2);
        assert(fs.drop_first() =~= Seq::<SpecField>::empty());
        assert(enc_fields((DEPTH - 1) as nat, fs.drop_first(), vals.drop_first()) =~= Seq::<u8>::empty());
        assert(enc_fields((DEPTH - 1) as nat, fs, vals) =~= (tlv(Tag { class: 0, number: 4 }, false, x.cause@)));
    }
}

impl View for ReleaseCallArg {
    type V = Asn;

    open spec fn view(&self) -> Asn {
        Asn::Sequence(
            seq![
                Some(Asn::Octets(self.cause@)),
            ],
        )
    }
}

impl BerCodec for ReleaseCallArg {
    open spec fn spec_schema() -> SpecSchema {
        leaf(universal(16), SpecKind::Sequence(Self::spec_fields()))
    }

    open spec fn height() -> nat {
        2
    }

    proof fn lemma_schema_sound() {
        lemma_wf_leaf(1, leaf(universal(4), SpecKind::OctetString));
        lemma_wf_sequence(2, universal(16), Self::spec_fields());
    }

    proof fn lemma_view_typed(x: Self) {
        reveal_with_fuel(wt, 2);
    }

    fn schema() -> (s: Schema) {
        let mut fields: Vec<Field> = Vec::new();
        fields.push(
            Field {
                optional: false,
                schema: octets_schema(Tag { class: UNIVERSAL, number: 4 }),
            },
        );
        proof {
            lemma_fields_model(fields@);
            assert(fields_model(fields@) =~= Self::spec_fields());
        }
        Schema { tag: Tag { class: UNIVERSAL, number: 16 }, kind: Kind::Sequence(fields) }
    }

    fn to_asn(&self) -> (v: AsnValue) {
        let mut vals: Vec<Option<AsnValue>> = Vec::new();
        vals.push(Some(octets_value(&self.cause)));
        proof {
            lemma_options_model(vals@);
            assert(options_model(vals@) =~= self@->Sequence_0);
        }
        AsnValue::Sequence(vals)
    }

    fn from_asn(v: &AsnValue) -> (r: Option<Self>) {
        let vals = match v {
            AsnValue::Sequence(vals) => vals,
            _ => return None,
        };
        proof {
            if wt(2, Self::spec_schema(), v@) {
                lemma_components(2, Self::spec_schema(), vals@);
            }
            lemma_options_model(vals@);
        }
        if vals.len() != 1 {
            return None;
        }
        let cause = match take_octets(&vals[0]) {
            Some(x) => x,
            None => return None,
        };
        let r = ReleaseCallArg { cause };
        assert(r@->Sequence_0 =~= options_model(vals@));
        proof {
            Self::lemma_view_typed(r);
        }
        Some(r)
    }
}

/// Cancel (op 53): a CHOICE of `[0] InvokeID` and `[1] allRequests NULL`.
#[derive(Clone, Debug, PartialEq, Eq)]
pub enum CancelArg {
    InvokeId(Integer),
    AllRequests,
}

impl CancelArg {
    /// The alternatives: `[0] INTEGER`, `[1] NULL`.
    pub open spec fn spec_alternatives() -> Seq<SpecSchema> {
        seq![leaf(context(0), SpecKind::Integer), leaf(context(1), SpecKind::Null)]
    }

    /// The encoding of a Cancel argument: invokeID as an INTEGER under `[0]`,
    /// or allRequests as a NULL under `[1]`.
    pub proof fn lemma_encoding(x: Self)
        ensures
            ber_encoding(x) == match x {
                CancelArg::InvokeId(i) => tlv(Tag { class: 2, number: 0 }, false, int_octets(i@)),
                CancelArg::AllRequests => tlv(Tag { class: 2, number: 1 }, false, Seq::empty()),
            },
    {
        reveal_with_fuel(enc, 2);
    }
}

impl View for CancelArg {
    type V = Asn;

    open spec fn view(&self) -> Asn {
        match self {
            CancelArg::InvokeId(i) => Asn::Choice(0, Box::new(Asn::Integer(i@))),
            CancelArg::AllRequests => Asn::Choice(1, Box::new(Asn::Null)),
        }
    }
}

impl BerCodec for CancelArg {
    /// A CHOICE has no tag of its own; the one written here is never used.
    open spec fn spec_schema() -> SpecSchema {
        leaf(universal(16), SpecKind::Choice(Self::spec_alternatives()))
    }

    open spec fn height() -> nat {
        2
    }

    proof fn lemma_schema_sound() {
        lemma_wf_leaf(1, leaf(context(0), SpecKind::Integer));
        lemma_wf_leaf(1, leaf(context(1), SpecKind::Null));
        lemma_wf_choice(2, universal(16), Self::spec_alternatives());
    }

    proof fn lemma_view_typed(x: Self) {
        reveal_with_fuel(wt, 2);
    }

    fn schema() -> (s: Schema) {
        let mut alts: Vec<Schema> = Vec::new();
        alts.push(Schema { tag: Tag { class: CONTEXT, number: 0 }, kind: Kind::Integer });
        alts.push(Schema { tag: Tag { class: CONTEXT, number: 1 }, kind: Kind::Null });
        proof {
            lemma_schemas_model(alts@);
            assert(schemas_model(alts@) =~= Self::spec_alternatives());
        }
        Schema { tag: Tag { class: UNIVERSAL, number: 16 }, kind: Kind::Choice(alts) }
    }

    fn to_asn(&self) -> (v: AsnValue) {
        proof {
            reveal_with_fuel(value_model, 2);
        }
        match self {
            CancelArg::InvokeId(i) => AsnValue::Choice(0, Box::new(AsnValue::Integer(i.duplicate()))),
            CancelArg::AllRequests => AsnValue::Choice(1, Box::new(AsnValue::Null)),
        }
    }

    fn from_asn(v: &AsnValue) -> (r: Option<Self>) {
        proof {
            reveal_with_fuel(wt, 2);
            reveal_with_fuel(value_model, 2);
        }
        match v {
            AsnValue::Choice(0, b) => match &**b {
                AsnValue::Integer(i) => {
                    let r = CancelArg::InvokeId(i.duplicate());
                    proof {
                        Self::lemma_view_typed(r);
                    }
                    Some(r)
                },
                _ => None,
            },
            AsnValue::Choice(1, b) => match &**b {
                AsnValue::Null => {
                    proof {
                        Self::lemma_view_typed(CancelArg::AllRequests);
                    }
                    Some(CancelArg::AllRequests)
                },
                _ => None,
            },
            _ => None,
        }
    }
}

// ── Event reporting ──────────────────────────────────────────────────────────

/// RequestReportBCSMEvent (op 23).
#[derive(Clone, Debug, PartialEq, Eq)]
pub struct RequestReportBcsmEventArg {
    pub bcsm_events: Vec<BcsmEvent>,
}

impl RequestReportBcsmEventArg {
    /// The components: `[0] SEQUENCE OF BCSMEvent`.
    pub open spec fn spec_fields() -> Seq<SpecField> {
        seq![
            required(leaf(context(0), SpecKind::SequenceOf(Box::new(BcsmEvent::spec_schema())))),
        ]
    }

    /// The encoding of a RequestReportBCSMEvent argument: a SEQUENCE holding the
    /// list of bcsmEvents, a constructed value under `[0]`.
    pub proof fn lemma_encoding(x: Self)
        ensures
            exists|c: Seq<u8>|
                ber_encoding(x) == tlv(
                    Tag { class: 0, number: 16 },
                    true,
                    #[trigger] tlv(Tag { class: 2, number: 0 }, true, c),
                ),
    {
        let vals = x@->Sequence_0;
        let fs = Self::spec_fields();
        let fuel = (DEPTH - 1) as nat;
        let items = vals[0]->Some_0->SequenceOf_0;
        let c = enc_items((fuel - 1) as nat, *fs[0].schema.kind->SequenceOf_0, items);
        reveal_with_fuel(enc_fields, 2);
        assert(fs.drop_first() =~= Seq::<SpecField>::empty());
        assert(enc_fields(fuel, fs, vals) =~= tlv(Tag { class: 2, number: 0 }, true, c));
    }
}

impl View for RequestReportBcsmEventArg {
    type V = Asn;

    open spec fn view(&self) -> Asn {
        Asn::Sequence(
            seq![
                Some(list_view(self.bcsm_events@)),
            ],
        )
    }
}

impl BerCodec for RequestReportBcsmEventArg {
    open spec fn spec_schema() -> SpecSchema {
        leaf(universal(16), SpecKind::Sequence(Self::spec_fields()))
    }

    open spec fn height() -> nat {
        4
    }

    proof fn lemma_schema_sound() {
        BcsmEvent::lemma_schema_sound();
        lemma_wf_list(3, context(0), BcsmEvent::spec_schema());
        lemma_wf_sequence(4, universal(16), Self::spec_fields());
    }

    proof fn lemma_view_typed(x: Self) {
        lemma_list_typed::<BcsmEvent>(3, context(0), x.bcsm_events@);
        reveal_with_fuel(wt, 2);
    }

    fn schema() -> (s: Schema) {
        let mut fields: Vec<Field> = Vec::new();
        fields.push(
            Field {
                optional: false,
                schema: Schema {
                    tag: Tag { class: CONTEXT, number: 0 },
                    kind: Kind::SequenceOf(Box::new(BcsmEvent::schema())),
                },
            },
        );
        proof {
            lemma_fields_model(fields@);
            assert(fields_model(fields@) =~= Self::spec_fields());
        }
        Schema { tag: Tag { class: UNIVERSAL, number: 16 }, kind: Kind::Sequence(fields) }
    }

    fn to_asn(&self) -> (v: AsnValue) {
        let mut vals: Vec<Option<AsnValue>> = Vec::new();
        vals.push(Some(list_to_asn(&self.bcsm_events)));
        proof {
            lemma_options_model(vals@);
            assert(options_model(vals@) =~= self@->Sequence_0);
        }
        AsnValue::Sequence(vals)
    }

    fn from_asn(v: &AsnValue) -> (r: Option<Self>) {
        let vals = match v {
            AsnValue::Sequence(vals) => vals,
            _ => return None,
        };
        proof {
            if wt(4, Self::spec_schema(), v@) {
                lemma_components(4, Self::spec_schema(), vals@);
            }
            lemma_options_model(vals@);
        }
        if vals.len() != 1 {
            return None;
        }
        proof {
            lemma_list_within::<BcsmEvent>(3, context(0), opt_model(vals@[0]));
        }
        let bcsm_events = match take_list::<BcsmEvent>(&vals[0]) {
            Some(x) => x,
            None => return None,
        };
        let r = RequestReportBcsmEventArg { bcsm_events };
        assert(r@->Sequence_0 =~= options_model(vals@));
        proof {
            Self::lemma_view_typed(r);
        }
        Some(r)
    }
}

/// EventReportBCSM (op 24): the gsmSSF reports a BCSM event to the gsmSCF.
#[derive(Clone, Debug, PartialEq, Eq)]
pub struct EventReportBcsmArg {
    pub event_type_bcsm: EventTypeBcsm,
    pub leg_id: Option<Vec<u8>>,
    pub misc_call_info: Option<Vec<u8>>,
}

impl EventReportBcsmArg {
    /// The components: `[0] EventTypeBCSM`, then OPTIONAL `[2]` and `[3]`.
    pub open spec fn spec_fields() -> Seq<SpecField> {
        seq![
            required(retag(EventTypeBcsm::spec_schema(), context(0))),
            optional(leaf(context(2), SpecKind::OctetString)),
            optional(leaf(context(3), SpecKind::OctetString)),
        ]
    }

    /// The encoding of a EventReportBCSM: a SEQUENCE of eventTypeBCSM under `[0]`, legID under
    /// `[2]` and miscCallInfo under `[3]`, each when present.
    pub proof fn lemma_encoding(x: Self)
        ensures
            ber_encoding(x) == tlv(
                Tag { class: 0, number: 16 },
                true,
                (tlv(Tag { class: 2, number: 0 }, false, int_octets(x.event_type_bcsm.spec_value() as int))) + (match x.leg_id {
                    Some(c) => tlv(Tag { class: 2, number: 2 }, false, c@),
                    None => Seq::empty(),
                }) + (match x.misc_call_info {
                    Some(c) => tlv(Tag { class: 2, number: 3 }, false, c@),
                    None => Seq::empty(),
                }),
            ),
    {
        let vals = x@->Sequence_0;
        let fs = Self::spec_fields();
        reveal_with_fuel(enc_fields, 4);
        assert(fs.drop_first().drop_first().drop_first() =~= Seq::<SpecField>::empty());
        assert(enc_fields((DEPTH - 1) as nat, fs.drop_first().drop_first().drop_first(), vals.drop_first().drop_first().drop_first()) =~= Seq::<u8>::empty());
        assert(enc_fields((DEPTH - 1) as nat, fs, vals) =~= (tlv(Tag { class: 2, number: 0 }, false, int_octets(x.event_type_bcsm.spec_value() as int))) + (match x.leg_id {
                    Some(c) => tlv(Tag { class: 2, number: 2 }, false, c@),
                    None => Seq::empty(),
                }) + (match x.misc_call_info {
                    Some(c) => tlv(Tag { class: 2, number: 3 }, false, c@),
                    None => Seq::empty(),
                }));
    }
}

impl View for EventReportBcsmArg {
    type V = Asn;

    open spec fn view(&self) -> Asn {
        Asn::Sequence(
            seq![
                Some(self.event_type_bcsm@),
                opt_octets(self.leg_id),
                opt_octets(self.misc_call_info),
            ],
        )
    }
}

impl BerCodec for EventReportBcsmArg {
    open spec fn spec_schema() -> SpecSchema {
        leaf(universal(16), SpecKind::Sequence(Self::spec_fields()))
    }

    open spec fn height() -> nat {
        2
    }

    proof fn lemma_schema_sound() {
        EventTypeBcsm::lemma_schema_sound();
        lemma_retag(1, EventTypeBcsm::spec_schema(), context(0));
        lemma_wf_leaf(1, leaf(context(2), SpecKind::OctetString));
        lemma_wf_leaf(1, leaf(context(3), SpecKind::OctetString));
        lemma_wf_sequence(2, universal(16), Self::spec_fields());
    }

    proof fn lemma_view_typed(x: Self) {
        lemma_component_typed::<EventTypeBcsm>(1, context(0), x.event_type_bcsm);
        reveal_with_fuel(wt, 2);
    }

    fn schema() -> (s: Schema) {
        let mut fields: Vec<Field> = Vec::new();
        fields.push(
            Field {
                optional: false,
                schema: retag_schema(EventTypeBcsm::schema(), Tag { class: CONTEXT, number: 0 }),
            },
        );
        fields.push(
            Field {
                optional: true,
                schema: octets_schema(Tag { class: CONTEXT, number: 2 }),
            },
        );
        fields.push(
            Field {
                optional: true,
                schema: octets_schema(Tag { class: CONTEXT, number: 3 }),
            },
        );
        proof {
            lemma_fields_model(fields@);
            assert(fields_model(fields@) =~= Self::spec_fields());
        }
        Schema { tag: Tag { class: UNIVERSAL, number: 16 }, kind: Kind::Sequence(fields) }
    }

    fn to_asn(&self) -> (v: AsnValue) {
        let mut vals: Vec<Option<AsnValue>> = Vec::new();
        vals.push(Some(self.event_type_bcsm.to_asn()));
        vals.push(opt_octets_value(&self.leg_id));
        vals.push(opt_octets_value(&self.misc_call_info));
        proof {
            lemma_options_model(vals@);
            assert(options_model(vals@) =~= self@->Sequence_0);
        }
        AsnValue::Sequence(vals)
    }

    fn from_asn(v: &AsnValue) -> (r: Option<Self>) {
        let vals = match v {
            AsnValue::Sequence(vals) => vals,
            _ => return None,
        };
        proof {
            if wt(2, Self::spec_schema(), v@) {
                lemma_components(2, Self::spec_schema(), vals@);
            }
            lemma_options_model(vals@);
        }
        if vals.len() != 3 {
            return None;
        }
        proof {
            lemma_component_within::<EventTypeBcsm>(1, context(0), opt_model(vals@[0]));
        }
        let event_type_bcsm = match take::<EventTypeBcsm>(&vals[0]) {
            Some(x) => x,
            None => return None,
        };
        let leg_id = match take_opt_octets(&vals[1]) {
            Some(x) => x,
            None => return None,
        };
        let misc_call_info = match take_opt_octets(&vals[2]) {
            Some(x) => x,
            None => return None,
        };
        let r = EventReportBcsmArg { event_type_bcsm, leg_id, misc_call_info };
        assert(r@->Sequence_0 =~= options_model(vals@));
        proof {
            Self::lemma_view_typed(r);
        }
        Some(r)
    }
}

// ── Charging ─────────────────────────────────────────────────────────────────

/// ApplyCharging (op 35).
#[derive(Clone, Debug, PartialEq, Eq)]
pub struct ApplyChargingArg {
    pub ach_billing_charging_characteristics: Vec<u8>,
    pub party_to_charge: Option<Vec<u8>>,
}

impl ApplyChargingArg {
    /// The components: `[0]`, then `[2]` OPTIONAL.
    pub open spec fn spec_fields() -> Seq<SpecField> {
        seq![
            required(leaf(context(0), SpecKind::OctetString)),
            optional(leaf(context(2), SpecKind::OctetString)),
        ]
    }

    /// The encoding of an ApplyCharging argument: a SEQUENCE of
    /// aChBillingChargingCharacteristics under `[0]`, then partyToCharge,
    /// when present, under `[2]`.
    pub proof fn lemma_encoding(x: Self)
        ensures
            ber_encoding(x) == tlv(
                Tag { class: 0, number: 16 },
                true,
                tlv(Tag { class: 2, number: 0 }, false, x.ach_billing_charging_characteristics@)
                    + match x.party_to_charge {
                    Some(p) => tlv(Tag { class: 2, number: 2 }, false, p@),
                    None => Seq::empty(),
                },
            ),
    {
        let vals = x@->Sequence_0;
        let fs = Self::spec_fields();
        reveal_with_fuel(enc_fields, 3);
        assert(fs.drop_first().drop_first() =~= Seq::<SpecField>::empty());
        assert(enc_fields((DEPTH - 1) as nat, fs.drop_first().drop_first(), vals.drop_first().drop_first()) =~= Seq::<u8>::empty());
        assert(enc_fields((DEPTH - 1) as nat, fs, vals) =~= tlv(
            Tag { class: 2, number: 0 },
            false,
            x.ach_billing_charging_characteristics@,
        ) + match x.party_to_charge {
            Some(p) => tlv(Tag { class: 2, number: 2 }, false, p@),
            None => Seq::empty(),
        });
    }
}

impl View for ApplyChargingArg {
    type V = Asn;

    open spec fn view(&self) -> Asn {
        Asn::Sequence(
            seq![
                Some(Asn::Octets(self.ach_billing_charging_characteristics@)),
                opt_octets(self.party_to_charge),
            ],
        )
    }
}

impl BerCodec for ApplyChargingArg {
    open spec fn spec_schema() -> SpecSchema {
        leaf(universal(16), SpecKind::Sequence(Self::spec_fields()))
    }

    open spec fn height() -> nat {
        2
    }

    proof fn lemma_schema_sound() {
        lemma_wf_leaf(1, leaf(context(0), SpecKind::OctetString));
        lemma_wf_leaf(1, leaf(context(2), SpecKind::OctetString));
        lemma_wf_sequence(2, universal(16), Self::spec_fields());
    }

    proof fn lemma_view_typed(x: Self) {
        reveal_with_fuel(wt, 2);
    }

    fn schema() -> (s: Schema) {
        let mut fields: Vec<Field> = Vec::new();
        fields.push(
            Field {
                optional: false,
                schema: octets_schema(Tag { class: CONTEXT, number: 0 }),
            },
        );
        fields.push(
            Field {
                optional: true,
                schema: octets_schema(Tag { class: CONTEXT, number: 2 }),
            },
        );
        proof {
            lemma_fields_model(fields@);
            assert(fields_model(fields@) =~= Self::spec_fields());
        }
        Schema { tag: Tag { class: UNIVERSAL, number: 16 }, kind: Kind::Sequence(fields) }
    }

    fn to_asn(&self) -> (v: AsnValue) {
        let mut vals: Vec<Option<AsnValue>> = Vec::new();
        vals.push(Some(octets_value(&self.ach_billing_charging_characteristics)));
        vals.push(opt_octets_value(&self.party_to_charge));
        proof {
            lemma_options_model(vals@);
            assert(options_model(vals@) =~= self@->Sequence_0);
        }
        AsnValue::Sequence(vals)
    }

    fn from_asn(v: &AsnValue) -> (r: Option<Self>) {
        let vals = match v {
            AsnValue::Sequence(vals) => vals,
            _ => return None,
        };
        proof {
            if wt(2, Self::spec_schema(), v@) {
                lemma_components(2, Self::spec_schema(), vals@);
            }
            lemma_options_model(vals@);
        }
        if vals.len() != 2 {
            return None;
        }
        let ach_billing_charging_characteristics = match take_octets(&vals[0]) {
            Some(x) => x,
            None => return None,
        };
        let party_to_charge = match take_opt_octets(&vals[1]) {
            Some(x) => x,
            None => return None,
        };
        let r = ApplyChargingArg { ach_billing_charging_characteristics, party_to_charge };
        assert(r@->Sequence_0 =~= options_model(vals@));
        proof {
            Self::lemma_view_typed(r);
        }
        Some(r)
    }
}

/// ApplyChargingReport (op 36).
#[derive(Clone, Debug, PartialEq, Eq)]
pub struct ApplyChargingReportArg {
    /// Encoded call result.
    pub call_result: Vec<u8>,
}

impl ApplyChargingReportArg {
    /// The components: an untagged OCTET STRING.
    pub open spec fn spec_fields() -> Seq<SpecField> {
        seq![
            required(leaf(universal(4), SpecKind::OctetString)),
        ]
    }

    /// The encoding of a ApplyChargingReport: a SEQUENCE holding the CallResult as a universal
    /// OCTET STRING.
    pub proof fn lemma_encoding(x: Self)
        ensures
            ber_encoding(x) == tlv(
                Tag { class: 0, number: 16 },
                true,
                (tlv(Tag { class: 0, number: 4 }, false, x.call_result@)),
            ),
    {
        let vals = x@->Sequence_0;
        let fs = Self::spec_fields();
        reveal_with_fuel(enc_fields, 2);
        assert(fs.drop_first() =~= Seq::<SpecField>::empty());
        assert(enc_fields((DEPTH - 1) as nat, fs.drop_first(), vals.drop_first()) =~= Seq::<u8>::empty());
        assert(enc_fields((DEPTH - 1) as nat, fs, vals) =~= (tlv(Tag { class: 0, number: 4 }, false, x.call_result@)));
    }
}

impl View for ApplyChargingReportArg {
    type V = Asn;

    open spec fn view(&self) -> Asn {
        Asn::Sequence(
            seq![
                Some(Asn::Octets(self.call_result@)),
            ],
        )
    }
}

impl BerCodec for ApplyChargingReportArg {
    open spec fn spec_schema() -> SpecSchema {
        leaf(universal(16), SpecKind::Sequence(Self::spec_fields()))
    }

    open spec fn height() -> nat {
        2
    }

    proof fn lemma_schema_sound() {
        lemma_wf_leaf(1, leaf(universal(4), SpecKind::OctetString));
        lemma_wf_sequence(2, universal(16), Self::spec_fields());
    }

    proof fn lemma_view_typed(x: Self) {
        reveal_with_fuel(wt, 2);
    }

    fn schema() -> (s: Schema) {
        let mut fields: Vec<Field> = Vec::new();
        fields.push(
            Field {
                optional: false,
                schema: octets_schema(Tag { class: UNIVERSAL, number: 4 }),
            },
        );
        proof {
            lemma_fields_model(fields@);
            assert(fields_model(fields@) =~= Self::spec_fields());
        }
        Schema { tag: Tag { class: UNIVERSAL, number: 16 }, kind: Kind::Sequence(fields) }
    }

    fn to_asn(&self) -> (v: AsnValue) {
        let mut vals: Vec<Option<AsnValue>> = Vec::new();
        vals.push(Some(octets_value(&self.call_result)));
        proof {
            lemma_options_model(vals@);
            assert(options_model(vals@) =~= self@->Sequence_0);
        }
        AsnValue::Sequence(vals)
    }

    fn from_asn(v: &AsnValue) -> (r: Option<Self>) {
        let vals = match v {
            AsnValue::Sequence(vals) => vals,
            _ => return None,
        };
        proof {
            if wt(2, Self::spec_schema(), v@) {
                lemma_components(2, Self::spec_schema(), vals@);
            }
            lemma_options_model(vals@);
        }
        if vals.len() != 1 {
            return None;
        }
        let call_result = match take_octets(&vals[0]) {
            Some(x) => x,
            None => return None,
        };
        let r = ApplyChargingReportArg { call_result };
        assert(r@->Sequence_0 =~= options_model(vals@));
        proof {
            Self::lemma_view_typed(r);
        }
        Some(r)
    }
}

/// FurnishChargingInformation (op 34).
#[derive(Clone, Debug, PartialEq, Eq)]
pub struct FurnishChargingInformationArg {
    pub fci_billing_charging_characteristics: Vec<u8>,
}

impl FurnishChargingInformationArg {
    /// The components: an untagged OCTET STRING.
    pub open spec fn spec_fields() -> Seq<SpecField> {
        seq![
            required(leaf(universal(4), SpecKind::OctetString)),
        ]
    }

    /// The encoding of a FurnishChargingInformation: a SEQUENCE holding the FCI billing
    /// characteristics as a universal OCTET STRING.
    pub proof fn lemma_encoding(x: Self)
        ensures
            ber_encoding(x) == tlv(
                Tag { class: 0, number: 16 },
                true,
                (tlv(Tag { class: 0, number: 4 }, false, x.fci_billing_charging_characteristics@)),
            ),
    {
        let vals = x@->Sequence_0;
        let fs = Self::spec_fields();
        reveal_with_fuel(enc_fields, 2);
        assert(fs.drop_first() =~= Seq::<SpecField>::empty());
        assert(enc_fields((DEPTH - 1) as nat, fs.drop_first(), vals.drop_first()) =~= Seq::<u8>::empty());
        assert(enc_fields((DEPTH - 1) as nat, fs, vals) =~= (tlv(Tag { class: 0, number: 4 }, false, x.fci_billing_charging_characteristics@)));
    }
}

impl View for FurnishChargingInformationArg {
    type V = Asn;

    open spec fn view(&self) -> Asn {
        Asn::Sequence(
            seq![
                Some(Asn::Octets(self.fci_billing_charging_characteristics@)),
            ],
        )
    }
}

impl BerCodec for FurnishChargingInformationArg {
    open spec fn spec_schema() -> SpecSchema {
        leaf(universal(16), SpecKind::Sequence(Self::spec_fields()))
    }

    open spec fn height() -> nat {
        2
    }

    proof fn lemma_schema_sound() {
        lemma_wf_leaf(1, leaf(universal(4), SpecKind::OctetString));
        lemma_wf_sequence(2, universal(16), Self::spec_fields());
    }

    proof fn lemma_view_typed(x: Self) {
        reveal_with_fuel(wt, 2);
    }

    fn schema() -> (s: Schema) {
        let mut fields: Vec<Field> = Vec::new();
        fields.push(
            Field {
                optional: false,
                schema: octets_schema(Tag { class: UNIVERSAL, number: 4 }),
            },
        );
        proof {
            lemma_fields_model(fields@);
            assert(fields_model(fields@) =~= Self::spec_fields());
        }
        Schema { tag: Tag { class: UNIVERSAL, number: 16 }, kind: Kind::Sequence(fields) }
    }

    fn to_asn(&self) -> (v: AsnValue) {
        let mut vals: Vec<Option<AsnValue>> = Vec::new();
        vals.push(Some(octets_value(&self.fci_billing_charging_characteristics)));
        proof {
            lemma_options_model(vals@);
            assert(options_model(vals@) =~= self@->Sequence_0);
        }
        AsnValue::Sequence(vals)
    }

    fn from_asn(v: &AsnValue) -> (r: Option<Self>) {
        let vals = match v {
            AsnValue::Sequence(vals) => vals,
            _ => return None,
        };
        proof {
            if wt(2, Self::spec_schema(), v@) {
                lemma_components(2, Self::spec_schema(), vals@);
            }
            lemma_options_model(vals@);
        }
        if vals.len() != 1 {
            return None;
        }
        let fci_billing_charging_characteristics = match take_octets(&vals[0]) {
            Some(x) => x,
            None => return None,
        };
        let r = FurnishChargingInformationArg { fci_billing_charging_characteristics };
        assert(r@->Sequence_0 =~= options_model(vals@));
        proof {
            Self::lemma_view_typed(r);
        }
        Some(r)
    }
}

// ── Specialised resources and call-to-resource (shared with INAP CS-2) ─────────

/// ConnectToResource (op 19), byte-identical to the INAP CS-2 definition.
#[derive(Clone, Debug, PartialEq, Eq)]
pub struct ConnectToResourceArg {
    pub resource_address_ipv4: Option<Vec<u8>>,
    pub resource_address_none: Option<()>,
}

impl ConnectToResourceArg {
    /// The components: `[0] OCTET STRING OPTIONAL`, `[3] NULL OPTIONAL`.
    pub open spec fn spec_fields() -> Seq<SpecField> {
        seq![
            optional(leaf(context(0), SpecKind::OctetString)),
            optional(leaf(context(3), SpecKind::Null)),
        ]
    }

    /// The encoding of a ConnectToResource: a SEQUENCE of ipRoutingAddress under `[0]` and
    /// none under `[3]`, each when present.
    pub proof fn lemma_encoding(x: Self)
        ensures
            ber_encoding(x) == tlv(
                Tag { class: 0, number: 16 },
                true,
                (match x.resource_address_ipv4 {
                    Some(c) => tlv(Tag { class: 2, number: 0 }, false, c@),
                    None => Seq::empty(),
                }) + (match x.resource_address_none {
                    Some(_) => tlv(Tag { class: 2, number: 3 }, false, Seq::empty()),
                    None => Seq::empty(),
                }),
            ),
    {
        let vals = x@->Sequence_0;
        let fs = Self::spec_fields();
        reveal_with_fuel(enc_fields, 3);
        assert(fs.drop_first().drop_first() =~= Seq::<SpecField>::empty());
        assert(enc_fields((DEPTH - 1) as nat, fs.drop_first().drop_first(), vals.drop_first().drop_first()) =~= Seq::<u8>::empty());
        assert(enc_fields((DEPTH - 1) as nat, fs, vals) =~= (match x.resource_address_ipv4 {
                    Some(c) => tlv(Tag { class: 2, number: 0 }, false, c@),
                    None => Seq::empty(),
                }) + (match x.resource_address_none {
                    Some(_) => tlv(Tag { class: 2, number: 3 }, false, Seq::empty()),
                    None => Seq::empty(),
                }));
    }
}

impl View for ConnectToResourceArg {
    type V = Asn;

    open spec fn view(&self) -> Asn {
        Asn::Sequence(
            seq![
                opt_octets(self.resource_address_ipv4),
                opt_null(self.resource_address_none),
            ],
        )
    }
}

impl BerCodec for ConnectToResourceArg {
    open spec fn spec_schema() -> SpecSchema {
        leaf(universal(16), SpecKind::Sequence(Self::spec_fields()))
    }

    open spec fn height() -> nat {
        2
    }

    proof fn lemma_schema_sound() {
        lemma_wf_leaf(1, leaf(context(0), SpecKind::OctetString));
        lemma_wf_leaf(1, leaf(context(3), SpecKind::Null));
        lemma_wf_sequence(2, universal(16), Self::spec_fields());
    }

    proof fn lemma_view_typed(x: Self) {
        reveal_with_fuel(wt, 2);
    }

    fn schema() -> (s: Schema) {
        let mut fields: Vec<Field> = Vec::new();
        fields.push(
            Field {
                optional: true,
                schema: octets_schema(Tag { class: CONTEXT, number: 0 }),
            },
        );
        fields.push(
            Field {
                optional: true,
                schema: Schema { tag: Tag { class: CONTEXT, number: 3 }, kind: Kind::Null },
            },
        );
        proof {
            lemma_fields_model(fields@);
            assert(fields_model(fields@) =~= Self::spec_fields());
        }
        Schema { tag: Tag { class: UNIVERSAL, number: 16 }, kind: Kind::Sequence(fields) }
    }

    fn to_asn(&self) -> (v: AsnValue) {
        let mut vals: Vec<Option<AsnValue>> = Vec::new();
        vals.push(opt_octets_value(&self.resource_address_ipv4));
        vals.push(opt_null_value(self.resource_address_none));
        proof {
            lemma_options_model(vals@);
            assert(options_model(vals@) =~= self@->Sequence_0);
        }
        AsnValue::Sequence(vals)
    }

    fn from_asn(v: &AsnValue) -> (r: Option<Self>) {
        let vals = match v {
            AsnValue::Sequence(vals) => vals,
            _ => return None,
        };
        proof {
            if wt(2, Self::spec_schema(), v@) {
                lemma_components(2, Self::spec_schema(), vals@);
            }
            lemma_options_model(vals@);
        }
        if vals.len() != 2 {
            return None;
        }
        let resource_address_ipv4 = match take_opt_octets(&vals[0]) {
            Some(x) => x,
            None => return None,
        };
        let resource_address_none = match take_opt_null(&vals[1]) {
            Some(x) => x,
            None => return None,
        };
        let r = ConnectToResourceArg { resource_address_ipv4, resource_address_none };
        assert(r@->Sequence_0 =~= options_model(vals@));
        proof {
            Self::lemma_view_typed(r);
        }
        Some(r)
    }
}

/// PlayAnnouncement (op 47), byte-identical to the INAP CS-2 definition.
#[derive(Clone, Debug, PartialEq, Eq)]
pub struct PlayAnnouncementArg {
    pub information_to_send: Vec<u8>,
    pub disconnect_from_ip_forbidden: Option<bool>,
    pub request_announcement_complete: Option<bool>,
}

impl PlayAnnouncementArg {
    /// The components: `[0] OCTET STRING`, then `[1]` and `[2]` BOOLEAN
    /// OPTIONAL.
    pub open spec fn spec_fields() -> Seq<SpecField> {
        seq![
            required(leaf(context(0), SpecKind::OctetString)),
            optional(leaf(context(1), SpecKind::Boolean)),
            optional(leaf(context(2), SpecKind::Boolean)),
        ]
    }

    /// The encoding of a PlayAnnouncement: a SEQUENCE of informationToSend under `[0]`,
    /// disconnectFromIPForbidden under `[1]` and requestAnnouncementComplete
    /// under `[2]`, each when present.
    pub proof fn lemma_encoding(x: Self)
        ensures
            ber_encoding(x) == tlv(
                Tag { class: 0, number: 16 },
                true,
                (tlv(Tag { class: 2, number: 0 }, false, x.information_to_send@)) + (match x.disconnect_from_ip_forbidden {
                    Some(b) => tlv(Tag { class: 2, number: 1 }, false, if b {
                        seq![0xFFu8]
                    } else {
                        seq![0x00u8]
                    }),
                    None => Seq::empty(),
                }) + (match x.request_announcement_complete {
                    Some(b) => tlv(Tag { class: 2, number: 2 }, false, if b {
                        seq![0xFFu8]
                    } else {
                        seq![0x00u8]
                    }),
                    None => Seq::empty(),
                }),
            ),
    {
        let vals = x@->Sequence_0;
        let fs = Self::spec_fields();
        reveal_with_fuel(enc_fields, 4);
        assert(fs.drop_first().drop_first().drop_first() =~= Seq::<SpecField>::empty());
        assert(enc_fields((DEPTH - 1) as nat, fs.drop_first().drop_first().drop_first(), vals.drop_first().drop_first().drop_first()) =~= Seq::<u8>::empty());
        assert(enc_fields((DEPTH - 1) as nat, fs, vals) =~= (tlv(Tag { class: 2, number: 0 }, false, x.information_to_send@)) + (match x.disconnect_from_ip_forbidden {
                    Some(b) => tlv(Tag { class: 2, number: 1 }, false, if b {
                        seq![0xFFu8]
                    } else {
                        seq![0x00u8]
                    }),
                    None => Seq::empty(),
                }) + (match x.request_announcement_complete {
                    Some(b) => tlv(Tag { class: 2, number: 2 }, false, if b {
                        seq![0xFFu8]
                    } else {
                        seq![0x00u8]
                    }),
                    None => Seq::empty(),
                }));
    }
}

impl View for PlayAnnouncementArg {
    type V = Asn;

    open spec fn view(&self) -> Asn {
        Asn::Sequence(
            seq![
                Some(Asn::Octets(self.information_to_send@)),
                opt_bool(self.disconnect_from_ip_forbidden),
                opt_bool(self.request_announcement_complete),
            ],
        )
    }
}

impl BerCodec for PlayAnnouncementArg {
    open spec fn spec_schema() -> SpecSchema {
        leaf(universal(16), SpecKind::Sequence(Self::spec_fields()))
    }

    open spec fn height() -> nat {
        2
    }

    proof fn lemma_schema_sound() {
        lemma_wf_leaf(1, leaf(context(0), SpecKind::OctetString));
        lemma_wf_leaf(1, leaf(context(1), SpecKind::Boolean));
        lemma_wf_leaf(1, leaf(context(2), SpecKind::Boolean));
        lemma_wf_sequence(2, universal(16), Self::spec_fields());
    }

    proof fn lemma_view_typed(x: Self) {
        reveal_with_fuel(wt, 2);
    }

    fn schema() -> (s: Schema) {
        let mut fields: Vec<Field> = Vec::new();
        fields.push(
            Field {
                optional: false,
                schema: octets_schema(Tag { class: CONTEXT, number: 0 }),
            },
        );
        fields.push(
            Field {
                optional: true,
                schema: Schema { tag: Tag { class: CONTEXT, number: 1 }, kind: Kind::Boolean },
            },
        );
        fields.push(
            Field {
                optional: true,
                schema: Schema { tag: Tag { class: CONTEXT, number: 2 }, kind: Kind::Boolean },
            },
        );
        proof {
            lemma_fields_model(fields@);
            assert(fields_model(fields@) =~= Self::spec_fields());
        }
        Schema { tag: Tag { class: UNIVERSAL, number: 16 }, kind: Kind::Sequence(fields) }
    }

    fn to_asn(&self) -> (v: AsnValue) {
        let mut vals: Vec<Option<AsnValue>> = Vec::new();
        vals.push(Some(octets_value(&self.information_to_send)));
        vals.push(opt_bool_value(self.disconnect_from_ip_forbidden));
        vals.push(opt_bool_value(self.request_announcement_complete));
        proof {
            lemma_options_model(vals@);
            assert(options_model(vals@) =~= self@->Sequence_0);
        }
        AsnValue::Sequence(vals)
    }

    fn from_asn(v: &AsnValue) -> (r: Option<Self>) {
        let vals = match v {
            AsnValue::Sequence(vals) => vals,
            _ => return None,
        };
        proof {
            if wt(2, Self::spec_schema(), v@) {
                lemma_components(2, Self::spec_schema(), vals@);
            }
            lemma_options_model(vals@);
        }
        if vals.len() != 3 {
            return None;
        }
        let information_to_send = match take_octets(&vals[0]) {
            Some(x) => x,
            None => return None,
        };
        let disconnect_from_ip_forbidden = match take_opt_bool(&vals[1]) {
            Some(x) => x,
            None => return None,
        };
        let request_announcement_complete = match take_opt_bool(&vals[2]) {
            Some(x) => x,
            None => return None,
        };
        let r = PlayAnnouncementArg {
            information_to_send,
            disconnect_from_ip_forbidden,
            request_announcement_complete,
        };
        assert(r@->Sequence_0 =~= options_model(vals@));
        proof {
            Self::lemma_view_typed(r);
        }
        Some(r)
    }
}

/// PromptAndCollectUserInformation (op 48) argument, byte-identical to the INAP
/// CS-2 definition: collect digits from the user, optionally after a prompt.
#[derive(Clone, Debug, PartialEq, Eq)]
pub struct PromptAndCollectUserInformationArg {
    pub collected_info: Vec<u8>,
    pub disconnect_from_ip_forbidden: Option<bool>,
    pub information_to_send: Option<Vec<u8>>,
}

impl PromptAndCollectUserInformationArg {
    /// The components: `[0] OCTET STRING`, `[1] BOOLEAN OPTIONAL`,
    /// `[2] OCTET STRING OPTIONAL`.
    pub open spec fn spec_fields() -> Seq<SpecField> {
        seq![
            required(leaf(context(0), SpecKind::OctetString)),
            optional(leaf(context(1), SpecKind::Boolean)),
            optional(leaf(context(2), SpecKind::OctetString)),
        ]
    }

    /// The encoding of a PromptAndCollectUserInformation: a SEQUENCE of collectedInfo under
    /// `[0]`, disconnectFromIPForbidden under `[1]` and informationToSend under
    /// `[2]`, each when present.
    pub proof fn lemma_encoding(x: Self)
        ensures
            ber_encoding(x) == tlv(
                Tag { class: 0, number: 16 },
                true,
                (tlv(Tag { class: 2, number: 0 }, false, x.collected_info@)) + (match x.disconnect_from_ip_forbidden {
                    Some(b) => tlv(Tag { class: 2, number: 1 }, false, if b {
                        seq![0xFFu8]
                    } else {
                        seq![0x00u8]
                    }),
                    None => Seq::empty(),
                }) + (match x.information_to_send {
                    Some(c) => tlv(Tag { class: 2, number: 2 }, false, c@),
                    None => Seq::empty(),
                }),
            ),
    {
        let vals = x@->Sequence_0;
        let fs = Self::spec_fields();
        reveal_with_fuel(enc_fields, 4);
        assert(fs.drop_first().drop_first().drop_first() =~= Seq::<SpecField>::empty());
        assert(enc_fields((DEPTH - 1) as nat, fs.drop_first().drop_first().drop_first(), vals.drop_first().drop_first().drop_first()) =~= Seq::<u8>::empty());
        assert(enc_fields((DEPTH - 1) as nat, fs, vals) =~= (tlv(Tag { class: 2, number: 0 }, false, x.collected_info@)) + (match x.disconnect_from_ip_forbidden {
                    Some(b) => tlv(Tag { class: 2, number: 1 }, false, if b {
                        seq![0xFFu8]
                    } else {
                        seq![0x00u8]
                    }),
                    None => Seq::empty(),
                }) + (match x.information_to_send {
                    Some(c) => tlv(Tag { class: 2, number: 2 }, false, c@),
                    None => Seq::empty(),
                }));
    }
}

impl View for PromptAndCollectUserInformationArg {
    type V = Asn;

    open spec fn view(&self) -> Asn {
        Asn::Sequence(
            seq![
                Some(Asn::Octets(self.collected_info@)),
                opt_bool(self.disconnect_from_ip_forbidden),
                opt_octets(self.information_to_send),
            ],
        )
    }
}

impl BerCodec for PromptAndCollectUserInformationArg {
    open spec fn spec_schema() -> SpecSchema {
        leaf(universal(16), SpecKind::Sequence(Self::spec_fields()))
    }

    open spec fn height() -> nat {
        2
    }

    proof fn lemma_schema_sound() {
        lemma_wf_leaf(1, leaf(context(0), SpecKind::OctetString));
        lemma_wf_leaf(1, leaf(context(1), SpecKind::Boolean));
        lemma_wf_leaf(1, leaf(context(2), SpecKind::OctetString));
        lemma_wf_sequence(2, universal(16), Self::spec_fields());
    }

    proof fn lemma_view_typed(x: Self) {
        reveal_with_fuel(wt, 2);
    }

    fn schema() -> (s: Schema) {
        let mut fields: Vec<Field> = Vec::new();
        fields.push(
            Field {
                optional: false,
                schema: octets_schema(Tag { class: CONTEXT, number: 0 }),
            },
        );
        fields.push(
            Field {
                optional: true,
                schema: Schema { tag: Tag { class: CONTEXT, number: 1 }, kind: Kind::Boolean },
            },
        );
        fields.push(
            Field {
                optional: true,
                schema: octets_schema(Tag { class: CONTEXT, number: 2 }),
            },
        );
        proof {
            lemma_fields_model(fields@);
            assert(fields_model(fields@) =~= Self::spec_fields());
        }
        Schema { tag: Tag { class: UNIVERSAL, number: 16 }, kind: Kind::Sequence(fields) }
    }

    fn to_asn(&self) -> (v: AsnValue) {
        let mut vals: Vec<Option<AsnValue>> = Vec::new();
        vals.push(Some(octets_value(&self.collected_info)));
        vals.push(opt_bool_value(self.disconnect_from_ip_forbidden));
        vals.push(opt_octets_value(&self.information_to_send));
        proof {
            lemma_options_model(vals@);
            assert(options_model(vals@) =~= self@->Sequence_0);
        }
        AsnValue::Sequence(vals)
    }

    fn from_asn(v: &AsnValue) -> (r: Option<Self>) {
        let vals = match v {
            AsnValue::Sequence(vals) => vals,
            _ => return None,
        };
        proof {
            if wt(2, Self::spec_schema(), v@) {
                lemma_components(2, Self::spec_schema(), vals@);
            }
            lemma_options_model(vals@);
        }
        if vals.len() != 3 {
            return None;
        }
        let collected_info = match take_octets(&vals[0]) {
            Some(x) => x,
            None => return None,
        };
        let disconnect_from_ip_forbidden = match take_opt_bool(&vals[1]) {
            Some(x) => x,
            None => return None,
        };
        let information_to_send = match take_opt_octets(&vals[2]) {
            Some(x) => x,
            None => return None,
        };
        let r = PromptAndCollectUserInformationArg {
            collected_info,
            disconnect_from_ip_forbidden,
            information_to_send,
        };
        assert(r@->Sequence_0 =~= options_model(vals@));
        proof {
            Self::lemma_view_typed(r);
        }
        Some(r)
    }
}

/// PromptAndCollectUserInformation (op 48) result, byte-identical to the INAP
/// CS-2 definition: a CHOICE whose one alternative, `[0] digitsResponse`,
/// carries the collected digits.
#[derive(Clone, Debug, PartialEq, Eq)]
pub enum PromptAndCollectUserInformationRes {
    DigitsResponse(Vec<u8>),
}

impl PromptAndCollectUserInformationRes {
    /// The alternatives: `[0] OCTET STRING`.
    pub open spec fn spec_alternatives() -> Seq<SpecSchema> {
        seq![leaf(context(0), SpecKind::OctetString)]
    }

    /// The encoding of a PromptAndCollectUserInformation result: the digits
    /// response as an OCTET STRING under `[0]`.
    pub proof fn lemma_encoding(x: Self)
        ensures
            ber_encoding(x) == match x {
                PromptAndCollectUserInformationRes::DigitsResponse(b) => tlv(
                    Tag { class: 2, number: 0 },
                    false,
                    b@,
                ),
            },
    {
        reveal_with_fuel(enc, 2);
    }
}

impl View for PromptAndCollectUserInformationRes {
    type V = Asn;

    open spec fn view(&self) -> Asn {
        match self {
            PromptAndCollectUserInformationRes::DigitsResponse(b) => Asn::Choice(
                0,
                Box::new(Asn::Octets(b@)),
            ),
        }
    }
}

impl BerCodec for PromptAndCollectUserInformationRes {
    /// A CHOICE has no tag of its own; the one written here is never used.
    open spec fn spec_schema() -> SpecSchema {
        leaf(universal(16), SpecKind::Choice(Self::spec_alternatives()))
    }

    open spec fn height() -> nat {
        2
    }

    proof fn lemma_schema_sound() {
        lemma_wf_leaf(1, leaf(context(0), SpecKind::OctetString));
        lemma_wf_choice(2, universal(16), Self::spec_alternatives());
    }

    proof fn lemma_view_typed(x: Self) {
        reveal_with_fuel(wt, 2);
    }

    fn schema() -> (s: Schema) {
        let mut alts: Vec<Schema> = Vec::new();
        alts.push(octets_schema(Tag { class: CONTEXT, number: 0 }));
        proof {
            lemma_schemas_model(alts@);
            assert(schemas_model(alts@) =~= Self::spec_alternatives());
        }
        Schema { tag: Tag { class: UNIVERSAL, number: 16 }, kind: Kind::Choice(alts) }
    }

    fn to_asn(&self) -> (v: AsnValue) {
        match self {
            PromptAndCollectUserInformationRes::DigitsResponse(b) => {
                let o = octets_value(b);
                proof {
                    reveal_with_fuel(value_model, 2);
                }
                AsnValue::Choice(0, Box::new(o))
            },
        }
    }

    fn from_asn(v: &AsnValue) -> (r: Option<Self>) {
        proof {
            reveal_with_fuel(wt, 2);
            reveal_with_fuel(value_model, 2);
        }
        match v {
            AsnValue::Choice(0, b) => match &**b {
                AsnValue::Octets(o) => {
                    let r = PromptAndCollectUserInformationRes::DigitsResponse(copy_bytes(o));
                    proof {
                        Self::lemma_view_typed(r);
                    }
                    Some(r)
                },
                _ => None,
            },
            _ => None,
        }
    }
}

// ── CAMEL for SMS (CAP v3+) ──────────────────────────────────────────────────

/// InitialDPSMS (op 60).
#[derive(Clone, Debug, PartialEq, Eq)]
pub struct InitialDpSmsArg {
    pub service_key: ServiceKey,
    pub destination_subscriber_number: Option<CalledPartyBcdNumber>,
    pub calling_party_number: Option<IsdnAddressString>,
    pub event_type_sms: Option<EventTypeSms>,
    pub imsi: Option<Imsi>,
    pub location_information_msc: Option<LocationInformation>,
    pub smsc_address: Option<IsdnAddressString>,
    pub time_and_timezone: Option<Vec<u8>>,
    pub tp_short_message_specific_info: Option<Vec<u8>>,
    pub tp_protocol_identifier: Option<Vec<u8>>,
    pub tp_data_coding_scheme: Option<Vec<u8>>,
    pub tp_validity_period: Option<Vec<u8>>,
    pub sms_reference_number: Option<CallReferenceNumber>,
    pub msc_address: Option<IsdnAddressString>,
    pub sgsn_number: Option<IsdnAddressString>,
    pub ms_classmark2: Option<Vec<u8>>,
}

impl InitialDpSmsArg {
    /// The components: `[0] ServiceKey`, then OPTIONAL `[1]` to `[11]` and
    /// `[13]` to `[16]`.
    pub open spec fn spec_fields() -> Seq<SpecField> {
        seq![
            required(leaf(context(0), SpecKind::Integer)),
            optional(leaf(context(1), SpecKind::OctetString)),
            optional(leaf(context(2), SpecKind::OctetString)),
            optional(retag(EventTypeSms::spec_schema(), context(3))),
            optional(leaf(context(4), SpecKind::OctetString)),
            optional(retag(LocationInformation::spec_schema(), context(5))),
            optional(leaf(context(6), SpecKind::OctetString)),
            optional(leaf(context(7), SpecKind::OctetString)),
            optional(leaf(context(8), SpecKind::OctetString)),
            optional(leaf(context(9), SpecKind::OctetString)),
            optional(leaf(context(10), SpecKind::OctetString)),
            optional(leaf(context(11), SpecKind::OctetString)),
            optional(leaf(context(13), SpecKind::OctetString)),
            optional(leaf(context(14), SpecKind::OctetString)),
            optional(leaf(context(15), SpecKind::OctetString)),
            optional(leaf(context(16), SpecKind::OctetString)),
        ]
    }

    /// Every component of an InitialDPSMS is written within its encoding under
    /// its context tag of TS 29.078: `[0]` serviceKey, `[1]`
    /// destinationSubscriberNumber, `[2]` callingPartyNumber, `[3]`
    /// eventTypeSMS, `[4]` iMSI, `[5]` locationInformationMSC, `[6]`
    /// sMSCAddress, `[7]` timeAndTimezone, `[8]` tPShortMessageSpecificInfo,
    /// `[9]` tPProtocolIdentifier, `[10]` tPDataCodingScheme, `[11]`
    /// tPValidityPeriod, `[13]` smsReferenceNumber, `[14]` mscAddress, `[15]`
    /// sgsnNumber and `[16]` ms-Classmark2.
    pub proof fn lemma_components_tagged(x: Self)
        ensures
            written_in(
                tlv(Tag { class: 2, number: 0 }, false, int_octets(x.service_key@)),
                ber_encoding(x),
            ),
            x.destination_subscriber_number matches Some(c) ==> written_in(
                tlv(Tag { class: 2, number: 1 }, false, c@),
                ber_encoding(x),
            ),
            x.calling_party_number matches Some(c) ==> written_in(
                tlv(Tag { class: 2, number: 2 }, false, c@),
                ber_encoding(x),
            ),
            x.event_type_sms matches Some(e) ==> written_in(
                tlv(Tag { class: 2, number: 3 }, false, int_octets(e.spec_value() as int)),
                ber_encoding(x),
            ),
            x.imsi matches Some(c) ==> written_in(
                tlv(Tag { class: 2, number: 4 }, false, c@),
                ber_encoding(x),
            ),
            x.location_information_msc is Some ==> exists|c: Seq<u8>|
                written_in(#[trigger] tlv(Tag { class: 2, number: 5 }, true, c), ber_encoding(x)),
            x.smsc_address matches Some(c) ==> written_in(
                tlv(Tag { class: 2, number: 6 }, false, c@),
                ber_encoding(x),
            ),
            x.time_and_timezone matches Some(c) ==> written_in(
                tlv(Tag { class: 2, number: 7 }, false, c@),
                ber_encoding(x),
            ),
            x.tp_short_message_specific_info matches Some(c) ==> written_in(
                tlv(Tag { class: 2, number: 8 }, false, c@),
                ber_encoding(x),
            ),
            x.tp_protocol_identifier matches Some(c) ==> written_in(
                tlv(Tag { class: 2, number: 9 }, false, c@),
                ber_encoding(x),
            ),
            x.tp_data_coding_scheme matches Some(c) ==> written_in(
                tlv(Tag { class: 2, number: 10 }, false, c@),
                ber_encoding(x),
            ),
            x.tp_validity_period matches Some(c) ==> written_in(
                tlv(Tag { class: 2, number: 11 }, false, c@),
                ber_encoding(x),
            ),
            x.sms_reference_number matches Some(c) ==> written_in(
                tlv(Tag { class: 2, number: 13 }, false, c@),
                ber_encoding(x),
            ),
            x.msc_address matches Some(c) ==> written_in(
                tlv(Tag { class: 2, number: 14 }, false, c@),
                ber_encoding(x),
            ),
            x.sgsn_number matches Some(c) ==> written_in(
                tlv(Tag { class: 2, number: 15 }, false, c@),
                ber_encoding(x),
            ),
            x.ms_classmark2 matches Some(c) ==> written_in(
                tlv(Tag { class: 2, number: 16 }, false, c@),
                ber_encoding(x),
            ),
    {
        let vals = x@->Sequence_0;
        let fs = Self::spec_fields();
        assert(Self::spec_schema().kind->Sequence_0 == fs);
        lemma_component_written(x, 0);
        if vals[1] is Some {
            lemma_component_written(x, 1);
        }
        if vals[2] is Some {
            lemma_component_written(x, 2);
        }
        if vals[3] is Some {
            lemma_component_written(x, 3);
        }
        if vals[4] is Some {
            lemma_component_written(x, 4);
        }
        if vals[5] is Some {
            lemma_component_written(x, 5);
            let l = vals[5]->Some_0;
            let c = enc_fields((DEPTH - 2) as nat, LocationInformation::spec_fields(), l->Sequence_0);
            assert(enc((DEPTH - 1) as nat, fs[5].schema, l) == tlv(
                Tag { class: 2, number: 5 },
                true,
                c,
            ));
        }
        if vals[6] is Some {
            lemma_component_written(x, 6);
        }
        if vals[7] is Some {
            lemma_component_written(x, 7);
        }
        if vals[8] is Some {
            lemma_component_written(x, 8);
        }
        if vals[9] is Some {
            lemma_component_written(x, 9);
        }
        if vals[10] is Some {
            lemma_component_written(x, 10);
        }
        if vals[11] is Some {
            lemma_component_written(x, 11);
        }
        if vals[12] is Some {
            lemma_component_written(x, 12);
        }
        if vals[13] is Some {
            lemma_component_written(x, 13);
        }
        if vals[14] is Some {
            lemma_component_written(x, 14);
        }
        if vals[15] is Some {
            lemma_component_written(x, 15);
        }
    }
}

impl View for InitialDpSmsArg {
    type V = Asn;

    open spec fn view(&self) -> Asn {
        Asn::Sequence(
            seq![
                Some(Asn::Integer(self.service_key@)),
                opt_octets(self.destination_subscriber_number),
                opt_octets(self.calling_party_number),
                opt_view(self.event_type_sms),
                opt_octets(self.imsi),
                opt_view(self.location_information_msc),
                opt_octets(self.smsc_address),
                opt_octets(self.time_and_timezone),
                opt_octets(self.tp_short_message_specific_info),
                opt_octets(self.tp_protocol_identifier),
                opt_octets(self.tp_data_coding_scheme),
                opt_octets(self.tp_validity_period),
                opt_octets(self.sms_reference_number),
                opt_octets(self.msc_address),
                opt_octets(self.sgsn_number),
                opt_octets(self.ms_classmark2),
            ],
        )
    }
}

impl BerCodec for InitialDpSmsArg {
    open spec fn spec_schema() -> SpecSchema {
        leaf(universal(16), SpecKind::Sequence(Self::spec_fields()))
    }

    open spec fn height() -> nat {
        3
    }

    proof fn lemma_schema_sound() {
        lemma_wf_leaf(2, leaf(context(0), SpecKind::Integer));
        lemma_wf_leaf(2, leaf(context(1), SpecKind::OctetString));
        lemma_wf_leaf(2, leaf(context(2), SpecKind::OctetString));
        EventTypeSms::lemma_schema_sound();
        lemma_wf_more_fuel(EventTypeSms::height(), 2, EventTypeSms::spec_schema());
        lemma_retag(2, EventTypeSms::spec_schema(), context(3));
        lemma_wf_leaf(2, leaf(context(4), SpecKind::OctetString));
        LocationInformation::lemma_schema_sound();
        lemma_retag(2, LocationInformation::spec_schema(), context(5));
        lemma_wf_leaf(2, leaf(context(6), SpecKind::OctetString));
        lemma_wf_leaf(2, leaf(context(7), SpecKind::OctetString));
        lemma_wf_leaf(2, leaf(context(8), SpecKind::OctetString));
        lemma_wf_leaf(2, leaf(context(9), SpecKind::OctetString));
        lemma_wf_leaf(2, leaf(context(10), SpecKind::OctetString));
        lemma_wf_leaf(2, leaf(context(11), SpecKind::OctetString));
        lemma_wf_leaf(2, leaf(context(13), SpecKind::OctetString));
        lemma_wf_leaf(2, leaf(context(14), SpecKind::OctetString));
        lemma_wf_leaf(2, leaf(context(15), SpecKind::OctetString));
        lemma_wf_leaf(2, leaf(context(16), SpecKind::OctetString));
        lemma_wf_sequence(3, universal(16), Self::spec_fields());
    }

    proof fn lemma_view_typed(x: Self) {
        if let Some(y) = x.event_type_sms {
            lemma_component_typed::<EventTypeSms>(2, context(3), y);
        }
        if let Some(y) = x.location_information_msc {
            lemma_component_typed::<LocationInformation>(2, context(5), y);
        }
        reveal_with_fuel(wt, 2);
    }

    fn schema() -> (s: Schema) {
        let mut fields: Vec<Field> = Vec::new();
        fields.push(
            Field {
                optional: false,
                schema: Schema { tag: Tag { class: CONTEXT, number: 0 }, kind: Kind::Integer },
            },
        );
        fields.push(
            Field {
                optional: true,
                schema: octets_schema(Tag { class: CONTEXT, number: 1 }),
            },
        );
        fields.push(
            Field {
                optional: true,
                schema: octets_schema(Tag { class: CONTEXT, number: 2 }),
            },
        );
        fields.push(
            Field {
                optional: true,
                schema: retag_schema(EventTypeSms::schema(), Tag { class: CONTEXT, number: 3 }),
            },
        );
        fields.push(
            Field {
                optional: true,
                schema: octets_schema(Tag { class: CONTEXT, number: 4 }),
            },
        );
        fields.push(
            Field {
                optional: true,
                schema: retag_schema(
                    LocationInformation::schema(),
                    Tag { class: CONTEXT, number: 5 },
                ),
            },
        );
        fields.push(
            Field {
                optional: true,
                schema: octets_schema(Tag { class: CONTEXT, number: 6 }),
            },
        );
        fields.push(
            Field {
                optional: true,
                schema: octets_schema(Tag { class: CONTEXT, number: 7 }),
            },
        );
        fields.push(
            Field {
                optional: true,
                schema: octets_schema(Tag { class: CONTEXT, number: 8 }),
            },
        );
        fields.push(
            Field {
                optional: true,
                schema: octets_schema(Tag { class: CONTEXT, number: 9 }),
            },
        );
        fields.push(
            Field {
                optional: true,
                schema: octets_schema(Tag { class: CONTEXT, number: 10 }),
            },
        );
        fields.push(
            Field {
                optional: true,
                schema: octets_schema(Tag { class: CONTEXT, number: 11 }),
            },
        );
        fields.push(
            Field {
                optional: true,
                schema: octets_schema(Tag { class: CONTEXT, number: 13 }),
            },
        );
        fields.push(
            Field {
                optional: true,
                schema: octets_schema(Tag { class: CONTEXT, number: 14 }),
            },
        );
        fields.push(
            Field {
                optional: true,
                schema: octets_schema(Tag { class: CONTEXT, number: 15 }),
            },
        );
        fields.push(
            Field {
                optional: true,
                schema: octets_schema(Tag { class: CONTEXT, number: 16 }),
            },
        );
        proof {
            lemma_fields_model(fields@);
            assert(fields_model(fields@) =~= Self::spec_fields());
        }
        Schema { tag: Tag { class: UNIVERSAL, number: 16 }, kind: Kind::Sequence(fields) }
    }

    #[verifier::spinoff_prover]
    #[verifier::rlimit(40)]
    fn to_asn(&self) -> (v: AsnValue) {
        let mut vals: Vec<Option<AsnValue>> = Vec::new();
        vals.push(Some(AsnValue::Integer(self.service_key.duplicate())));
        vals.push(opt_octets_value(&self.destination_subscriber_number));
        vals.push(opt_octets_value(&self.calling_party_number));
        vals.push(opt_to_asn(&self.event_type_sms));
        vals.push(opt_octets_value(&self.imsi));
        vals.push(opt_to_asn(&self.location_information_msc));
        vals.push(opt_octets_value(&self.smsc_address));
        vals.push(opt_octets_value(&self.time_and_timezone));
        vals.push(opt_octets_value(&self.tp_short_message_specific_info));
        vals.push(opt_octets_value(&self.tp_protocol_identifier));
        vals.push(opt_octets_value(&self.tp_data_coding_scheme));
        vals.push(opt_octets_value(&self.tp_validity_period));
        vals.push(opt_octets_value(&self.sms_reference_number));
        vals.push(opt_octets_value(&self.msc_address));
        vals.push(opt_octets_value(&self.sgsn_number));
        vals.push(opt_octets_value(&self.ms_classmark2));
        proof {
            lemma_options_model(vals@);
            assert(options_model(vals@) =~= self@->Sequence_0);
        }
        AsnValue::Sequence(vals)
    }

    #[verifier::spinoff_prover]
    #[verifier::rlimit(40)]
    fn from_asn(v: &AsnValue) -> (r: Option<Self>) {
        let vals = match v {
            AsnValue::Sequence(vals) => vals,
            _ => return None,
        };
        proof {
            if wt(3, Self::spec_schema(), v@) {
                lemma_components(3, Self::spec_schema(), vals@);
            }
            lemma_options_model(vals@);
        }
        if vals.len() != 16 {
            return None;
        }
        proof {
            lemma_component_within::<EventTypeSms>(2, context(3), opt_model(vals@[3]));
            lemma_component_within::<LocationInformation>(2, context(5), opt_model(vals@[5]));
        }
        let service_key = match take_int(&vals[0]) {
            Some(x) => x,
            None => return None,
        };
        let destination_subscriber_number = match take_opt_octets(&vals[1]) {
            Some(x) => x,
            None => return None,
        };
        let calling_party_number = match take_opt_octets(&vals[2]) {
            Some(x) => x,
            None => return None,
        };
        let event_type_sms = match take_opt::<EventTypeSms>(&vals[3]) {
            Some(x) => x,
            None => return None,
        };
        let imsi = match take_opt_octets(&vals[4]) {
            Some(x) => x,
            None => return None,
        };
        let location_information_msc = match take_opt::<LocationInformation>(&vals[5]) {
            Some(x) => x,
            None => return None,
        };
        let smsc_address = match take_opt_octets(&vals[6]) {
            Some(x) => x,
            None => return None,
        };
        let time_and_timezone = match take_opt_octets(&vals[7]) {
            Some(x) => x,
            None => return None,
        };
        let tp_short_message_specific_info = match take_opt_octets(&vals[8]) {
            Some(x) => x,
            None => return None,
        };
        let tp_protocol_identifier = match take_opt_octets(&vals[9]) {
            Some(x) => x,
            None => return None,
        };
        let tp_data_coding_scheme = match take_opt_octets(&vals[10]) {
            Some(x) => x,
            None => return None,
        };
        let tp_validity_period = match take_opt_octets(&vals[11]) {
            Some(x) => x,
            None => return None,
        };
        let sms_reference_number = match take_opt_octets(&vals[12]) {
            Some(x) => x,
            None => return None,
        };
        let msc_address = match take_opt_octets(&vals[13]) {
            Some(x) => x,
            None => return None,
        };
        let sgsn_number = match take_opt_octets(&vals[14]) {
            Some(x) => x,
            None => return None,
        };
        let ms_classmark2 = match take_opt_octets(&vals[15]) {
            Some(x) => x,
            None => return None,
        };
        let r = InitialDpSmsArg {
            service_key,
            destination_subscriber_number,
            calling_party_number,
            event_type_sms,
            imsi,
            location_information_msc,
            smsc_address,
            time_and_timezone,
            tp_short_message_specific_info,
            tp_protocol_identifier,
            tp_data_coding_scheme,
            tp_validity_period,
            sms_reference_number,
            msc_address,
            sgsn_number,
            ms_classmark2,
        };
        assert(r@->Sequence_0 =~= options_model(vals@));
        proof {
            Self::lemma_view_typed(r);
        }
        Some(r)
    }
}

/// ConnectSMS (op 61).
#[derive(Clone, Debug, PartialEq, Eq)]
pub struct ConnectSmsArg {
    pub calling_partys_number: Option<IsdnAddressString>,
    pub destination_subscriber_number: Option<CalledPartyBcdNumber>,
    pub smsc_address: Option<IsdnAddressString>,
}

impl ConnectSmsArg {
    /// The components, all OPTIONAL: `[0]`, `[1]`, `[2]`.
    pub open spec fn spec_fields() -> Seq<SpecField> {
        seq![
            optional(leaf(context(0), SpecKind::OctetString)),
            optional(leaf(context(1), SpecKind::OctetString)),
            optional(leaf(context(2), SpecKind::OctetString)),
        ]
    }

    /// The encoding of a ConnectSMS: a SEQUENCE of callingPartysNumber under `[0]`,
    /// destinationSubscriberNumber under `[1]` and sMSCAddress under `[2]`,
    /// each when present.
    pub proof fn lemma_encoding(x: Self)
        ensures
            ber_encoding(x) == tlv(
                Tag { class: 0, number: 16 },
                true,
                (match x.calling_partys_number {
                    Some(c) => tlv(Tag { class: 2, number: 0 }, false, c@),
                    None => Seq::empty(),
                }) + (match x.destination_subscriber_number {
                    Some(c) => tlv(Tag { class: 2, number: 1 }, false, c@),
                    None => Seq::empty(),
                }) + (match x.smsc_address {
                    Some(c) => tlv(Tag { class: 2, number: 2 }, false, c@),
                    None => Seq::empty(),
                }),
            ),
    {
        let vals = x@->Sequence_0;
        let fs = Self::spec_fields();
        reveal_with_fuel(enc_fields, 4);
        assert(fs.drop_first().drop_first().drop_first() =~= Seq::<SpecField>::empty());
        assert(enc_fields((DEPTH - 1) as nat, fs.drop_first().drop_first().drop_first(), vals.drop_first().drop_first().drop_first()) =~= Seq::<u8>::empty());
        assert(enc_fields((DEPTH - 1) as nat, fs, vals) =~= (match x.calling_partys_number {
                    Some(c) => tlv(Tag { class: 2, number: 0 }, false, c@),
                    None => Seq::empty(),
                }) + (match x.destination_subscriber_number {
                    Some(c) => tlv(Tag { class: 2, number: 1 }, false, c@),
                    None => Seq::empty(),
                }) + (match x.smsc_address {
                    Some(c) => tlv(Tag { class: 2, number: 2 }, false, c@),
                    None => Seq::empty(),
                }));
    }
}

impl View for ConnectSmsArg {
    type V = Asn;

    open spec fn view(&self) -> Asn {
        Asn::Sequence(
            seq![
                opt_octets(self.calling_partys_number),
                opt_octets(self.destination_subscriber_number),
                opt_octets(self.smsc_address),
            ],
        )
    }
}

impl BerCodec for ConnectSmsArg {
    open spec fn spec_schema() -> SpecSchema {
        leaf(universal(16), SpecKind::Sequence(Self::spec_fields()))
    }

    open spec fn height() -> nat {
        2
    }

    proof fn lemma_schema_sound() {
        lemma_wf_leaf(1, leaf(context(0), SpecKind::OctetString));
        lemma_wf_leaf(1, leaf(context(1), SpecKind::OctetString));
        lemma_wf_leaf(1, leaf(context(2), SpecKind::OctetString));
        lemma_wf_sequence(2, universal(16), Self::spec_fields());
    }

    proof fn lemma_view_typed(x: Self) {
        reveal_with_fuel(wt, 2);
    }

    fn schema() -> (s: Schema) {
        let mut fields: Vec<Field> = Vec::new();
        fields.push(
            Field {
                optional: true,
                schema: octets_schema(Tag { class: CONTEXT, number: 0 }),
            },
        );
        fields.push(
            Field {
                optional: true,
                schema: octets_schema(Tag { class: CONTEXT, number: 1 }),
            },
        );
        fields.push(
            Field {
                optional: true,
                schema: octets_schema(Tag { class: CONTEXT, number: 2 }),
            },
        );
        proof {
            lemma_fields_model(fields@);
            assert(fields_model(fields@) =~= Self::spec_fields());
        }
        Schema { tag: Tag { class: UNIVERSAL, number: 16 }, kind: Kind::Sequence(fields) }
    }

    fn to_asn(&self) -> (v: AsnValue) {
        let mut vals: Vec<Option<AsnValue>> = Vec::new();
        vals.push(opt_octets_value(&self.calling_partys_number));
        vals.push(opt_octets_value(&self.destination_subscriber_number));
        vals.push(opt_octets_value(&self.smsc_address));
        proof {
            lemma_options_model(vals@);
            assert(options_model(vals@) =~= self@->Sequence_0);
        }
        AsnValue::Sequence(vals)
    }

    fn from_asn(v: &AsnValue) -> (r: Option<Self>) {
        let vals = match v {
            AsnValue::Sequence(vals) => vals,
            _ => return None,
        };
        proof {
            if wt(2, Self::spec_schema(), v@) {
                lemma_components(2, Self::spec_schema(), vals@);
            }
            lemma_options_model(vals@);
        }
        if vals.len() != 3 {
            return None;
        }
        let calling_partys_number = match take_opt_octets(&vals[0]) {
            Some(x) => x,
            None => return None,
        };
        let destination_subscriber_number = match take_opt_octets(&vals[1]) {
            Some(x) => x,
            None => return None,
        };
        let smsc_address = match take_opt_octets(&vals[2]) {
            Some(x) => x,
            None => return None,
        };
        let r = ConnectSmsArg {
            calling_partys_number,
            destination_subscriber_number,
            smsc_address,
        };
        assert(r@->Sequence_0 =~= options_model(vals@));
        proof {
            Self::lemma_view_typed(r);
        }
        Some(r)
    }
}

/// ReleaseSMS (op 62).
#[derive(Clone, Debug, PartialEq, Eq)]
pub struct ReleaseSmsArg {
    /// RP-Cause value.
    pub rp_cause: Vec<u8>,
}

impl ReleaseSmsArg {
    /// The components: an untagged OCTET STRING.
    pub open spec fn spec_fields() -> Seq<SpecField> {
        seq![
            required(leaf(universal(4), SpecKind::OctetString)),
        ]
    }

    /// The encoding of a ReleaseSMS: a SEQUENCE holding the RP cause as a universal OCTET
    /// STRING.
    pub proof fn lemma_encoding(x: Self)
        ensures
            ber_encoding(x) == tlv(
                Tag { class: 0, number: 16 },
                true,
                (tlv(Tag { class: 0, number: 4 }, false, x.rp_cause@)),
            ),
    {
        let vals = x@->Sequence_0;
        let fs = Self::spec_fields();
        reveal_with_fuel(enc_fields, 2);
        assert(fs.drop_first() =~= Seq::<SpecField>::empty());
        assert(enc_fields((DEPTH - 1) as nat, fs.drop_first(), vals.drop_first()) =~= Seq::<u8>::empty());
        assert(enc_fields((DEPTH - 1) as nat, fs, vals) =~= (tlv(Tag { class: 0, number: 4 }, false, x.rp_cause@)));
    }
}

impl View for ReleaseSmsArg {
    type V = Asn;

    open spec fn view(&self) -> Asn {
        Asn::Sequence(
            seq![
                Some(Asn::Octets(self.rp_cause@)),
            ],
        )
    }
}

impl BerCodec for ReleaseSmsArg {
    open spec fn spec_schema() -> SpecSchema {
        leaf(universal(16), SpecKind::Sequence(Self::spec_fields()))
    }

    open spec fn height() -> nat {
        2
    }

    proof fn lemma_schema_sound() {
        lemma_wf_leaf(1, leaf(universal(4), SpecKind::OctetString));
        lemma_wf_sequence(2, universal(16), Self::spec_fields());
    }

    proof fn lemma_view_typed(x: Self) {
        reveal_with_fuel(wt, 2);
    }

    fn schema() -> (s: Schema) {
        let mut fields: Vec<Field> = Vec::new();
        fields.push(
            Field {
                optional: false,
                schema: octets_schema(Tag { class: UNIVERSAL, number: 4 }),
            },
        );
        proof {
            lemma_fields_model(fields@);
            assert(fields_model(fields@) =~= Self::spec_fields());
        }
        Schema { tag: Tag { class: UNIVERSAL, number: 16 }, kind: Kind::Sequence(fields) }
    }

    fn to_asn(&self) -> (v: AsnValue) {
        let mut vals: Vec<Option<AsnValue>> = Vec::new();
        vals.push(Some(octets_value(&self.rp_cause)));
        proof {
            lemma_options_model(vals@);
            assert(options_model(vals@) =~= self@->Sequence_0);
        }
        AsnValue::Sequence(vals)
    }

    fn from_asn(v: &AsnValue) -> (r: Option<Self>) {
        let vals = match v {
            AsnValue::Sequence(vals) => vals,
            _ => return None,
        };
        proof {
            if wt(2, Self::spec_schema(), v@) {
                lemma_components(2, Self::spec_schema(), vals@);
            }
            lemma_options_model(vals@);
        }
        if vals.len() != 1 {
            return None;
        }
        let rp_cause = match take_octets(&vals[0]) {
            Some(x) => x,
            None => return None,
        };
        let r = ReleaseSmsArg { rp_cause };
        assert(r@->Sequence_0 =~= options_model(vals@));
        proof {
            Self::lemma_view_typed(r);
        }
        Some(r)
    }
}

/// RequestReportSMSEvent (op 63).
#[derive(Clone, Debug, PartialEq, Eq)]
pub struct RequestReportSmsEventArg {
    pub sms_events: Vec<SmsEvent>,
}

impl RequestReportSmsEventArg {
    /// The components: `[0] SEQUENCE OF SMSEvent`.
    pub open spec fn spec_fields() -> Seq<SpecField> {
        seq![
            required(leaf(context(0), SpecKind::SequenceOf(Box::new(SmsEvent::spec_schema())))),
        ]
    }

    /// The encoding of a RequestReportSMSEvent argument: a SEQUENCE holding the
    /// list of sMSEvents, a constructed value under `[0]`.
    pub proof fn lemma_encoding(x: Self)
        ensures
            exists|c: Seq<u8>|
                ber_encoding(x) == tlv(
                    Tag { class: 0, number: 16 },
                    true,
                    #[trigger] tlv(Tag { class: 2, number: 0 }, true, c),
                ),
    {
        let vals = x@->Sequence_0;
        let fs = Self::spec_fields();
        let fuel = (DEPTH - 1) as nat;
        let items = vals[0]->Some_0->SequenceOf_0;
        let c = enc_items((fuel - 1) as nat, *fs[0].schema.kind->SequenceOf_0, items);
        reveal_with_fuel(enc_fields, 2);
        assert(fs.drop_first() =~= Seq::<SpecField>::empty());
        assert(enc_fields(fuel, fs, vals) =~= tlv(Tag { class: 2, number: 0 }, true, c));
    }
}

impl View for RequestReportSmsEventArg {
    type V = Asn;

    open spec fn view(&self) -> Asn {
        Asn::Sequence(
            seq![
                Some(list_view(self.sms_events@)),
            ],
        )
    }
}

impl BerCodec for RequestReportSmsEventArg {
    open spec fn spec_schema() -> SpecSchema {
        leaf(universal(16), SpecKind::Sequence(Self::spec_fields()))
    }

    open spec fn height() -> nat {
        4
    }

    proof fn lemma_schema_sound() {
        SmsEvent::lemma_schema_sound();
        lemma_wf_list(3, context(0), SmsEvent::spec_schema());
        lemma_wf_sequence(4, universal(16), Self::spec_fields());
    }

    proof fn lemma_view_typed(x: Self) {
        lemma_list_typed::<SmsEvent>(3, context(0), x.sms_events@);
        reveal_with_fuel(wt, 2);
    }

    fn schema() -> (s: Schema) {
        let mut fields: Vec<Field> = Vec::new();
        fields.push(
            Field {
                optional: false,
                schema: Schema {
                    tag: Tag { class: CONTEXT, number: 0 },
                    kind: Kind::SequenceOf(Box::new(SmsEvent::schema())),
                },
            },
        );
        proof {
            lemma_fields_model(fields@);
            assert(fields_model(fields@) =~= Self::spec_fields());
        }
        Schema { tag: Tag { class: UNIVERSAL, number: 16 }, kind: Kind::Sequence(fields) }
    }

    fn to_asn(&self) -> (v: AsnValue) {
        let mut vals: Vec<Option<AsnValue>> = Vec::new();
        vals.push(Some(list_to_asn(&self.sms_events)));
        proof {
            lemma_options_model(vals@);
            assert(options_model(vals@) =~= self@->Sequence_0);
        }
        AsnValue::Sequence(vals)
    }

    fn from_asn(v: &AsnValue) -> (r: Option<Self>) {
        let vals = match v {
            AsnValue::Sequence(vals) => vals,
            _ => return None,
        };
        proof {
            if wt(4, Self::spec_schema(), v@) {
                lemma_components(4, Self::spec_schema(), vals@);
            }
            lemma_options_model(vals@);
        }
        if vals.len() != 1 {
            return None;
        }
        proof {
            lemma_list_within::<SmsEvent>(3, context(0), opt_model(vals@[0]));
        }
        let sms_events = match take_list::<SmsEvent>(&vals[0]) {
            Some(x) => x,
            None => return None,
        };
        let r = RequestReportSmsEventArg { sms_events };
        assert(r@->Sequence_0 =~= options_model(vals@));
        proof {
            Self::lemma_view_typed(r);
        }
        Some(r)
    }
}

/// EventReportSMS (op 64).
#[derive(Clone, Debug, PartialEq, Eq)]
pub struct EventReportSmsArg {
    pub event_type_sms: EventTypeSms,
    pub event_specific_information_sms: Option<Vec<u8>>,
    pub misc_call_info: Option<Vec<u8>>,
}

impl EventReportSmsArg {
    /// The components: `[0] EventTypeSMS`, then OPTIONAL `[1]` and `[2]`.
    pub open spec fn spec_fields() -> Seq<SpecField> {
        seq![
            required(retag(EventTypeSms::spec_schema(), context(0))),
            optional(leaf(context(1), SpecKind::OctetString)),
            optional(leaf(context(2), SpecKind::OctetString)),
        ]
    }

    /// The encoding of a EventReportSMS: a SEQUENCE of eventTypeSMS under `[0]`,
    /// eventSpecificInformationSMS under `[1]` and miscCallInfo under `[2]`,
    /// each when present.
    pub proof fn lemma_encoding(x: Self)
        ensures
            ber_encoding(x) == tlv(
                Tag { class: 0, number: 16 },
                true,
                (tlv(Tag { class: 2, number: 0 }, false, int_octets(x.event_type_sms.spec_value() as int))) + (match x.event_specific_information_sms {
                    Some(c) => tlv(Tag { class: 2, number: 1 }, false, c@),
                    None => Seq::empty(),
                }) + (match x.misc_call_info {
                    Some(c) => tlv(Tag { class: 2, number: 2 }, false, c@),
                    None => Seq::empty(),
                }),
            ),
    {
        let vals = x@->Sequence_0;
        let fs = Self::spec_fields();
        reveal_with_fuel(enc_fields, 4);
        assert(fs.drop_first().drop_first().drop_first() =~= Seq::<SpecField>::empty());
        assert(enc_fields((DEPTH - 1) as nat, fs.drop_first().drop_first().drop_first(), vals.drop_first().drop_first().drop_first()) =~= Seq::<u8>::empty());
        assert(enc_fields((DEPTH - 1) as nat, fs, vals) =~= (tlv(Tag { class: 2, number: 0 }, false, int_octets(x.event_type_sms.spec_value() as int))) + (match x.event_specific_information_sms {
                    Some(c) => tlv(Tag { class: 2, number: 1 }, false, c@),
                    None => Seq::empty(),
                }) + (match x.misc_call_info {
                    Some(c) => tlv(Tag { class: 2, number: 2 }, false, c@),
                    None => Seq::empty(),
                }));
    }
}

impl View for EventReportSmsArg {
    type V = Asn;

    open spec fn view(&self) -> Asn {
        Asn::Sequence(
            seq![
                Some(self.event_type_sms@),
                opt_octets(self.event_specific_information_sms),
                opt_octets(self.misc_call_info),
            ],
        )
    }
}

impl BerCodec for EventReportSmsArg {
    open spec fn spec_schema() -> SpecSchema {
        leaf(universal(16), SpecKind::Sequence(Self::spec_fields()))
    }

    open spec fn height() -> nat {
        2
    }

    proof fn lemma_schema_sound() {
        EventTypeSms::lemma_schema_sound();
        lemma_retag(1, EventTypeSms::spec_schema(), context(0));
        lemma_wf_leaf(1, leaf(context(1), SpecKind::OctetString));
        lemma_wf_leaf(1, leaf(context(2), SpecKind::OctetString));
        lemma_wf_sequence(2, universal(16), Self::spec_fields());
    }

    proof fn lemma_view_typed(x: Self) {
        lemma_component_typed::<EventTypeSms>(1, context(0), x.event_type_sms);
        reveal_with_fuel(wt, 2);
    }

    fn schema() -> (s: Schema) {
        let mut fields: Vec<Field> = Vec::new();
        fields.push(
            Field {
                optional: false,
                schema: retag_schema(EventTypeSms::schema(), Tag { class: CONTEXT, number: 0 }),
            },
        );
        fields.push(
            Field {
                optional: true,
                schema: octets_schema(Tag { class: CONTEXT, number: 1 }),
            },
        );
        fields.push(
            Field {
                optional: true,
                schema: octets_schema(Tag { class: CONTEXT, number: 2 }),
            },
        );
        proof {
            lemma_fields_model(fields@);
            assert(fields_model(fields@) =~= Self::spec_fields());
        }
        Schema { tag: Tag { class: UNIVERSAL, number: 16 }, kind: Kind::Sequence(fields) }
    }

    fn to_asn(&self) -> (v: AsnValue) {
        let mut vals: Vec<Option<AsnValue>> = Vec::new();
        vals.push(Some(self.event_type_sms.to_asn()));
        vals.push(opt_octets_value(&self.event_specific_information_sms));
        vals.push(opt_octets_value(&self.misc_call_info));
        proof {
            lemma_options_model(vals@);
            assert(options_model(vals@) =~= self@->Sequence_0);
        }
        AsnValue::Sequence(vals)
    }

    fn from_asn(v: &AsnValue) -> (r: Option<Self>) {
        let vals = match v {
            AsnValue::Sequence(vals) => vals,
            _ => return None,
        };
        proof {
            if wt(2, Self::spec_schema(), v@) {
                lemma_components(2, Self::spec_schema(), vals@);
            }
            lemma_options_model(vals@);
        }
        if vals.len() != 3 {
            return None;
        }
        proof {
            lemma_component_within::<EventTypeSms>(1, context(0), opt_model(vals@[0]));
        }
        let event_type_sms = match take::<EventTypeSms>(&vals[0]) {
            Some(x) => x,
            None => return None,
        };
        let event_specific_information_sms = match take_opt_octets(&vals[1]) {
            Some(x) => x,
            None => return None,
        };
        let misc_call_info = match take_opt_octets(&vals[2]) {
            Some(x) => x,
            None => return None,
        };
        let r = EventReportSmsArg {
            event_type_sms,
            event_specific_information_sms,
            misc_call_info,
        };
        assert(r@->Sequence_0 =~= options_model(vals@));
        proof {
            Self::lemma_view_typed(r);
        }
        Some(r)
    }
}

} // verus!
