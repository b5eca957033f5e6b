//! The Python face of the codec, as plain values: the call-control operations
//! and InitialDPSMS with the components Python sets, the shared enums, and the
//! conversions between them and the CAP types. The PyO3 module that exposes
//! them is built around these.

use crate::application_context::{
    self, ac_arcs, arcs_of, AC_GSMSRF_SCF, AC_GSMSSF_SCF_ASSIST_HANDOFF, AC_GSMSSF_SCF_GENERIC,
    AC_SMS,
};
use crate::ber::integer::{fits_i64, Integer};
use crate::ber::model::Asn;
use crate::ber::parts::{copy_bytes, copy_opt_bytes, octets_list, opt_octets};
use crate::codec::{
    ber_decoding, ber_encoding, decode, decode_failure, encode, lemma_decode_encode, list_view,
    opt_view,
};
use crate::error::CapError;
use crate::operations::{
    ApplyChargingArg, ConnectArg, EventReportBcsmArg, InitialDpArg, InitialDpSmsArg,
    ReleaseCallArg, RequestReportBcsmEventArg,
};
use crate::text::{decimal, push_decimal, push_signed, signed_decimal};
use crate::types::{BcsmEvent, EventTypeBcsm, EventTypeSms, MonitorMode};
use vstd::prelude::*;
use vstd::string::*;

verus! {

/// A key as Python holds it: its value where it fits in 64 bits, else 0.
pub open spec fn i64_or_zero(v: int) -> i64 {
    if fits_i64(v) {
        v as i64
    } else {
        0
    }
}

/// A service key as Python holds it: its value where it fits in 64 bits, else
/// 0 (service keys are small in practice; a larger one still decodes).
pub fn i64_from(v: &Integer) -> (r: i64)
    ensures
        r == i64_or_zero(v@),
{
    match v.to_i64() {
        Some(k) => k,
        None => 0,
    }
}

/// EventTypeBCSM as Python sees it; it compares equal to its on-wire integer
/// (`OAnswer == 7`).
#[derive(Clone, Copy, Debug, PartialEq, Eq, Structural)]
pub enum PyEventTypeBcsm {
    CollectedInfo,
    AnalysedInformation,
    RouteSelectFailure,
    OCalledPartyBusy,
    ONoAnswer,
    OAnswer,
    ODisconnect,
    OAbandon,
    TermAttemptAuthorized,
    TBusy,
    TNoAnswer,
    TAnswer,
    TDisconnect,
    TAbandon,
}

impl PyEventTypeBcsm {
    /// The CAP value this stands for.
    pub open spec fn spec_core(self) -> EventTypeBcsm {
        match self {
            PyEventTypeBcsm::CollectedInfo => EventTypeBcsm::CollectedInfo,
            PyEventTypeBcsm::AnalysedInformation => EventTypeBcsm::AnalysedInformation,
            PyEventTypeBcsm::RouteSelectFailure => EventTypeBcsm::RouteSelectFailure,
            PyEventTypeBcsm::OCalledPartyBusy => EventTypeBcsm::OCalledPartyBusy,
            PyEventTypeBcsm::ONoAnswer => EventTypeBcsm::ONoAnswer,
            PyEventTypeBcsm::OAnswer => EventTypeBcsm::OAnswer,
            PyEventTypeBcsm::ODisconnect => EventTypeBcsm::ODisconnect,
            PyEventTypeBcsm::OAbandon => EventTypeBcsm::OAbandon,
            PyEventTypeBcsm::TermAttemptAuthorized => EventTypeBcsm::TermAttemptAuthorized,
            PyEventTypeBcsm::TBusy => EventTypeBcsm::TBusy,
            PyEventTypeBcsm::TNoAnswer => EventTypeBcsm::TNoAnswer,
            PyEventTypeBcsm::TAnswer => EventTypeBcsm::TAnswer,
            PyEventTypeBcsm::TDisconnect => EventTypeBcsm::TDisconnect,
            PyEventTypeBcsm::TAbandon => EventTypeBcsm::TAbandon,
        }
    }

    /// The CAP value this stands for.
    pub fn to_core(self) -> (r: EventTypeBcsm)
        ensures
            r == self.spec_core(),
    {
        match self {
            PyEventTypeBcsm::CollectedInfo => EventTypeBcsm::CollectedInfo,
            PyEventTypeBcsm::AnalysedInformation => EventTypeBcsm::AnalysedInformation,
            PyEventTypeBcsm::RouteSelectFailure => EventTypeBcsm::RouteSelectFailure,
            PyEventTypeBcsm::OCalledPartyBusy => EventTypeBcsm::OCalledPartyBusy,
            PyEventTypeBcsm::ONoAnswer => EventTypeBcsm::ONoAnswer,
            PyEventTypeBcsm::OAnswer => EventTypeBcsm::OAnswer,
            PyEventTypeBcsm::ODisconnect => EventTypeBcsm::ODisconnect,
            PyEventTypeBcsm::OAbandon => EventTypeBcsm::OAbandon,
            PyEventTypeBcsm::TermAttemptAuthorized => EventTypeBcsm::TermAttemptAuthorized,
            PyEventTypeBcsm::TBusy => EventTypeBcsm::TBusy,
            PyEventTypeBcsm::TNoAnswer => EventTypeBcsm::TNoAnswer,
            PyEventTypeBcsm::TAnswer => EventTypeBcsm::TAnswer,
            PyEventTypeBcsm::TDisconnect => EventTypeBcsm::TDisconnect,
            PyEventTypeBcsm::TAbandon => EventTypeBcsm::TAbandon,
        }
    }

    /// The Python value that stands for `e`.
    pub fn from_core(e: EventTypeBcsm) -> (r: Self)
        ensures
            r.spec_core() == e,
    {
        match e {
            EventTypeBcsm::CollectedInfo => PyEventTypeBcsm::CollectedInfo,
            EventTypeBcsm::AnalysedInformation => PyEventTypeBcsm::AnalysedInformation,
            EventTypeBcsm::RouteSelectFailure => PyEventTypeBcsm::RouteSelectFailure,
            EventTypeBcsm::OCalledPartyBusy => PyEventTypeBcsm::OCalledPartyBusy,
            EventTypeBcsm::ONoAnswer => PyEventTypeBcsm::ONoAnswer,
            EventTypeBcsm::OAnswer => PyEventTypeBcsm::OAnswer,
            EventTypeBcsm::ODisconnect => PyEventTypeBcsm::ODisconnect,
            EventTypeBcsm::OAbandon => PyEventTypeBcsm::OAbandon,
            EventTypeBcsm::TermAttemptAuthorized => PyEventTypeBcsm::TermAttemptAuthorized,
            EventTypeBcsm::TBusy => PyEventTypeBcsm::TBusy,
            EventTypeBcsm::TNoAnswer => PyEventTypeBcsm::TNoAnswer,
            EventTypeBcsm::TAnswer => PyEventTypeBcsm::TAnswer,
            EventTypeBcsm::TDisconnect => PyEventTypeBcsm::TDisconnect,
            EventTypeBcsm::TAbandon => PyEventTypeBcsm::TAbandon,
        }
    }

    /// The integer Python compares the value by: its on-wire ENUMERATED value.
    pub fn value(self) -> (r: i64)
        ensures
            r == self.spec_core().spec_value(),
    {
        self.to_core().value()
    }

    /// The Python values carry the on-wire values of TS 29.078 for their
    /// names: each stands for the CAP event of the same name, and compares
    /// equal to that event's number.
    pub proof fn lemma_wire_numbers(p: Self)
        ensures
            p.spec_core().spec_value() == match p {
                PyEventTypeBcsm::CollectedInfo => 2i64,
                PyEventTypeBcsm::AnalysedInformation => 3i64,
                PyEventTypeBcsm::RouteSelectFailure => 4i64,
                PyEventTypeBcsm::OCalledPartyBusy => 5i64,
                PyEventTypeBcsm::ONoAnswer => 6i64,
                PyEventTypeBcsm::OAnswer => 7i64,
                PyEventTypeBcsm::ODisconnect => 9i64,
                PyEventTypeBcsm::OAbandon => 10i64,
                PyEventTypeBcsm::TermAttemptAuthorized => 12i64,
                PyEventTypeBcsm::TBusy => 13i64,
                PyEventTypeBcsm::TNoAnswer => 14i64,
                PyEventTypeBcsm::TAnswer => 15i64,
                PyEventTypeBcsm::TDisconnect => 17i64,
                PyEventTypeBcsm::TAbandon => 18i64,
            },
    {
    }

    /// Each Python value stands for its own CAP value, so converting there and
    /// back gives it again.
    pub proof fn lemma_core_injective(a: Self, b: Self)
        ensures
            a.spec_core() == b.spec_core() ==> a == b,
    {
    }
}

/// MonitorMode as Python sees it.
#[derive(Clone, Copy, Debug, PartialEq, Eq, Structural)]
pub enum PyMonitorMode {
    Interrupted,
    NotifyAndContinue,
    Transparent,
}

impl PyMonitorMode {
    /// The CAP value this stands for.
    pub open spec fn spec_core(self) -> MonitorMode {
        match self {
            PyMonitorMode::Interrupted => MonitorMode::Interrupted,
            PyMonitorMode::NotifyAndContinue => MonitorMode::NotifyAndContinue,
            PyMonitorMode::Transparent => MonitorMode::Transparent,
        }
    }

    /// The CAP value this stands for.
    pub fn to_core(self) -> (r: MonitorMode)
        ensures
            r == self.spec_core(),
    {
        match self {
            PyMonitorMode::Interrupted => MonitorMode::Interrupted,
            PyMonitorMode::NotifyAndContinue => MonitorMode::NotifyAndContinue,
            PyMonitorMode::Transparent => MonitorMode::Transparent,
        }
    }

    /// The Python value that stands for `e`.
    pub fn from_core(e: MonitorMode) -> (r: Self)
        ensures
            r.spec_core() == e,
    {
        match e {
            MonitorMode::Interrupted => PyMonitorMode::Interrupted,
            MonitorMode::NotifyAndContinue => PyMonitorMode::NotifyAndContinue,
            MonitorMode::Transparent => PyMonitorMode::Transparent,
        }
    }

    /// The integer Python compares the value by: its on-wire ENUMERATED value.
    pub fn value(self) -> (r: i64)
        ensures
            r == self.spec_core().spec_value(),
    {
        self.to_core().value()
    }

    /// The Python values carry the on-wire values of TS 29.078 for their
    /// names: each stands for the CAP mode of the same name, and compares
    /// equal to that mode's number.
    pub proof fn lemma_wire_numbers(p: Self)
        ensures
            p.spec_core().spec_value() == match p {
                PyMonitorMode::Interrupted => 0i64,
                PyMonitorMode::NotifyAndContinue => 1i64,
                PyMonitorMode::Transparent => 2i64,
            },
    {
    }

    /// Each Python value stands for its own CAP value, so converting there and
    /// back gives it again.
    pub proof fn lemma_core_injective(a: Self, b: Self)
        ensures
            a.spec_core() == b.spec_core() ==> a == b,
    {
    }
}

/// EventTypeSMS as Python sees it.
#[derive(Clone, Copy, Debug, PartialEq, Eq, Structural)]
pub enum PyEventTypeSms {
    SmsCollectedInfo,
    OSmsFailure,
    OSmsSubmission,
    SmsDeliveryRequested,
    TSmsFailure,
    TSmsDelivery,
}

impl PyEventTypeSms {
    /// The CAP value this stands for.
    pub open spec fn spec_core(self) -> EventTypeSms {
        match self {
            PyEventTypeSms::SmsCollectedInfo => EventTypeSms::SmsCollectedInfo,
            PyEventTypeSms::OSmsFailure => EventTypeSms::OSmsFailure,
            PyEventTypeSms::OSmsSubmission => EventTypeSms::OSmsSubmission,
            PyEventTypeSms::SmsDeliveryRequested => EventTypeSms::SmsDeliveryRequested,
            PyEventTypeSms::TSmsFailure => EventTypeSms::TSmsFailure,
            PyEventTypeSms::TSmsDelivery => EventTypeSms::TSmsDelivery,
        }
    }

    /// The CAP value this stands for.
    pub fn to_core(self) -> (r: EventTypeSms)
        ensures
            r == self.spec_core(),
    {
        match self {
            PyEventTypeSms::SmsCollectedInfo => EventTypeSms::SmsCollectedInfo,
            PyEventTypeSms::OSmsFailure => EventTypeSms::OSmsFailure,
            PyEventTypeSms::OSmsSubmission => EventTypeSms::OSmsSubmission,
            PyEventTypeSms::SmsDeliveryRequested => EventTypeSms::SmsDeliveryRequested,
            PyEventTypeSms::TSmsFailure => EventTypeSms::TSmsFailure,
            PyEventTypeSms::TSmsDelivery => EventTypeSms::TSmsDelivery,
        }
    }

    /// The Python value that stands for `e`.
    pub fn from_core(e: EventTypeSms) -> (r: Self)
        ensures
            r.spec_core() == e,
    {
        match e {
            EventTypeSms::SmsCollectedInfo => PyEventTypeSms::SmsCollectedInfo,
            EventTypeSms::OSmsFailure => PyEventTypeSms::OSmsFailure,
            EventTypeSms::OSmsSubmission => PyEventTypeSms::OSmsSubmission,
            EventTypeSms::SmsDeliveryRequested => PyEventTypeSms::SmsDeliveryRequested,
            EventTypeSms::TSmsFailure => PyEventTypeSms::TSmsFailure,
            EventTypeSms::TSmsDelivery => PyEventTypeSms::TSmsDelivery,
        }
    }

    /// The integer Python compares the value by: its on-wire ENUMERATED value.
    pub fn value(self) -> (r: i64)
        ensures
            r == self.spec_core().spec_value(),
    {
        self.to_core().value()
    }

    /// The Python values carry the on-wire values of TS 29.078 for their
    /// names: each stands for the CAP event of the same name, and compares
    /// equal to that event's number.
    pub proof fn lemma_wire_numbers(p: Self)
        ensures
            p.spec_core().spec_value() == match p {
                PyEventTypeSms::SmsCollectedInfo => 1i64,
                PyEventTypeSms::OSmsFailure => 2i64,
                PyEventTypeSms::OSmsSubmission => 3i64,
                PyEventTypeSms::SmsDeliveryRequested => 11i64,
                PyEventTypeSms::TSmsFailure => 12i64,
                PyEventTypeSms::TSmsDelivery => 13i64,
            },
    {
    }

    /// Each Python value stands for its own CAP value, so converting there and
    /// back gives it again.
    pub proof fn lemma_core_injective(a: Self, b: Self)
        ensures
            a.spec_core() == b.spec_core() ==> a == b,
    {
    }
}

/// BCSMEvent as Python sees it.
#[derive(Clone, Debug, PartialEq, Eq)]
pub struct PyBcsmEvent {
    pub event_type_bcsm: PyEventTypeBcsm,
    pub monitor_mode: PyMonitorMode,
    pub leg_id: Option<Vec<u8>>,
}

impl PyBcsmEvent {
    /// The abstract value of the CAP value this stands for.
    pub open spec fn core_view(self) -> Asn {
        Asn::Sequence(
            seq![
                Some(self.event_type_bcsm.spec_core()@),
                Some(self.monitor_mode.spec_core()@),
                opt_octets(self.leg_id),
            ],
        )
    }

    /// `self` stands for `c`.
    pub open spec fn mirrors(self, c: BcsmEvent) -> bool {
        &&& self.event_type_bcsm.spec_core() == c.event_type_bcsm
        &&& self.monitor_mode.spec_core() == c.monitor_mode
        &&& opt_octets(self.leg_id) == opt_octets(c.leg_id)
    }

    /// Two Python values that stand for one CAP value are the same value; so
    /// converting to the CAP value and back gives the value again.
    pub proof fn lemma_mirrors_agree(p: Self, q: Self, c: BcsmEvent)
        requires
            p.mirrors(c),
            q.mirrors(c),
        ensures
            p.core_view() == q.core_view(),
    {
    }

    /// A Python value that stands for a CAP value whose abstract value is
    /// `p`'s is `p` again.
    pub proof fn lemma_mirrors_view(p: Self, q: Self, c: BcsmEvent)
        requires
            q.mirrors(c),
            c@ == p.core_view(),
        ensures
            q.core_view() == p.core_view(),
    {
        assert(c@->Sequence_0[0] == p.core_view()->Sequence_0[0]);
        assert(c@->Sequence_0[1] == p.core_view()->Sequence_0[1]);
        assert(c@->Sequence_0[2] == p.core_view()->Sequence_0[2]);
    }

    /// A BCSMEvent entry.
    pub fn new(
        event_type_bcsm: PyEventTypeBcsm,
        monitor_mode: PyMonitorMode,
        leg_id: Option<Vec<u8>>,
    ) -> (r: Self)
        ensures
            r.event_type_bcsm == event_type_bcsm,
            r.monitor_mode == monitor_mode,
            r.leg_id == leg_id,
    {
        PyBcsmEvent { event_type_bcsm, monitor_mode, leg_id }
    }

    /// The CAP value this stands for.
    pub fn to_core(&self) -> (r: BcsmEvent)
        ensures
            r@ == self.core_view(),
            self.mirrors(r),
    {
        BcsmEvent {
            event_type_bcsm: self.event_type_bcsm.to_core(),
            monitor_mode: self.monitor_mode.to_core(),
            leg_id: copy_opt_bytes(&self.leg_id),
        }
    }

    /// The Python value that stands for `c`.
    pub fn from_core(c: &BcsmEvent) -> (r: Self)
        ensures
            r.mirrors(*c),
            r.core_view() == c@,
    {
        PyBcsmEvent {
            event_type_bcsm: PyEventTypeBcsm::from_core(c.event_type_bcsm),
            monitor_mode: PyMonitorMode::from_core(c.monitor_mode),
            leg_id: copy_opt_bytes(&c.leg_id),
        }
    }
}

/// An optional event type as the CAP component it stands for.
pub open spec fn opt_event_type_bcsm(o: Option<PyEventTypeBcsm>) -> Option<Asn> {
    match o {
        Some(e) => Some(e.spec_core()@),
        None => None,
    }
}

/// The CAP value of an optional event type.
fn event_type_bcsm_to_core(o: Option<PyEventTypeBcsm>) -> (r: Option<EventTypeBcsm>)
    ensures
        opt_view(r) == opt_event_type_bcsm(o),
        match o {
            Some(e) => r == Some(e.spec_core()),
            None => r is None,
        },
{
    match o {
        Some(e) => Some(e.to_core()),
        None => None,
    }
}

/// The Python value of an optional event type.
fn event_type_bcsm_from_core(o: Option<EventTypeBcsm>) -> (r: Option<PyEventTypeBcsm>)
    ensures
        opt_event_type_bcsm(r) == opt_view(o),
        match r {
            Some(e) => o == Some(e.spec_core()),
            None => o is None,
        },
{
    match o {
        Some(e) => Some(PyEventTypeBcsm::from_core(e)),
        None => None,
    }
}

/// InitialDP argument as Python sees it: the service key and six of the
/// optional components.
#[derive(Clone, Debug, PartialEq, Eq)]
pub struct PyInitialDpArg {
    pub service_key: i64,
    pub called_party_number: Option<Vec<u8>>,
    pub calling_party_number: Option<Vec<u8>>,
    pub event_type_bcsm: Option<PyEventTypeBcsm>,
    pub imsi: Option<Vec<u8>>,
    pub call_reference_number: Option<Vec<u8>>,
    pub msc_address: Option<Vec<u8>>,
}

impl PyInitialDpArg {
    /// The abstract value of the CAP value this stands for; the components
    /// Python does not set are absent.
    pub open spec fn core_view(self) -> Asn {
        Asn::Sequence(
            seq![
                Some(Asn::Integer(self.service_key as int)),
                opt_octets(self.called_party_number),
                opt_octets(self.calling_party_number),
                None,
                None,
                opt_event_type_bcsm(self.event_type_bcsm),
                None,
                opt_octets(self.imsi),
                None,
                opt_octets(self.call_reference_number),
                opt_octets(self.msc_address),
                None,
                None,
            ],
        )
    }

    /// `self` stands for the components of `c` that Python sees.
    pub open spec fn mirrors(self, c: InitialDpArg) -> bool {
        &&& self.service_key == i64_or_zero(c.service_key@)
        &&& opt_octets(self.called_party_number) == opt_octets(c.called_party_number)
        &&& opt_octets(self.calling_party_number) == opt_octets(c.calling_party_number)
        &&& opt_event_type_bcsm(self.event_type_bcsm) == opt_view(c.event_type_bcsm)
        &&& opt_octets(self.imsi) == opt_octets(c.imsi)
        &&& opt_octets(self.call_reference_number) == opt_octets(c.call_reference_number)
        &&& opt_octets(self.msc_address) == opt_octets(c.msc_address)
    }

    /// Two Python values that stand for one CAP value are the same value; so
    /// converting to the CAP value and back gives the value again.
    pub proof fn lemma_mirrors_agree(p: Self, q: Self, c: InitialDpArg)
        requires
            p.mirrors(c),
            q.mirrors(c),
        ensures
            p.core_view() == q.core_view(),
    {
    }

    /// A Python value that stands for a CAP value whose abstract value is
    /// `p`'s is `p` again: decoding what `encode` wrote gives `p` back.
    pub proof fn lemma_mirrors_view(p: Self, q: Self, c: InitialDpArg)
        requires
            q.mirrors(c),
            c@ == p.core_view(),
        ensures
            q.core_view() == p.core_view(),
    {
        assert(c@->Sequence_0[0] == p.core_view()->Sequence_0[0]);
        assert(c@->Sequence_0[1] == p.core_view()->Sequence_0[1]);
        assert(c@->Sequence_0[2] == p.core_view()->Sequence_0[2]);
        assert(c@->Sequence_0[5] == p.core_view()->Sequence_0[5]);
        assert(c@->Sequence_0[7] == p.core_view()->Sequence_0[7]);
        assert(c@->Sequence_0[9] == p.core_view()->Sequence_0[9]);
        assert(c@->Sequence_0[10] == p.core_view()->Sequence_0[10]);
    }

    /// Decoding the encoding of `p` (the encoding of `c`, the CAP value `p`
    /// stands for) gives `p` back: the decoded value `q` stands for the same
    /// CAP value.
    pub proof fn lemma_round_trip(p: Self, c: InitialDpArg, q: Self, d: InitialDpArg)
        requires
            c@ == p.core_view(),
            ber_encoding(c).len() < 0x1_0000_0000_0000_0000,
            ber_decoding::<InitialDpArg>(ber_encoding(c)) == Some(d@),
            q.mirrors(d),
        ensures
            q.core_view() == p.core_view(),
    {
        lemma_decode_encode(c, Seq::empty());
        assert(ber_encoding(c) + Seq::<u8>::empty() =~= ber_encoding(c));
        Self::lemma_mirrors_view(p, q, d);
    }

    /// An InitialDP argument.
    pub fn new(
        service_key: i64,
        called_party_number: Option<Vec<u8>>,
        calling_party_number: Option<Vec<u8>>,
        event_type_bcsm: Option<PyEventTypeBcsm>,
        imsi: Option<Vec<u8>>,
        call_reference_number: Option<Vec<u8>>,
        msc_address: Option<Vec<u8>>,
    ) -> (r: Self)
        ensures
            r == (PyInitialDpArg {
                service_key,
                called_party_number,
                calling_party_number,
                event_type_bcsm,
                imsi,
                call_reference_number,
                msc_address,
            }),
    {
        PyInitialDpArg {
            service_key,
            called_party_number,
            calling_party_number,
            event_type_bcsm,
            imsi,
            call_reference_number,
            msc_address,
        }
    }

    /// The CAP value this stands for.
    pub fn to_core(&self) -> (r: InitialDpArg)
        ensures
            r@ == self.core_view(),
            self.mirrors(r),
    {
        let r = InitialDpArg {
            service_key: Integer::from_i64(self.service_key),
            called_party_number: copy_opt_bytes(&self.called_party_number),
            calling_party_number: copy_opt_bytes(&self.calling_party_number),
            calling_partys_category: None,
            original_called_party_id: None,
            event_type_bcsm: event_type_bcsm_to_core(self.event_type_bcsm),
            redirecting_party_id: None,
            imsi: copy_opt_bytes(&self.imsi),
            location_information: None,
            call_reference_number: copy_opt_bytes(&self.call_reference_number),
            msc_address: copy_opt_bytes(&self.msc_address),
            called_party_bcd_number: None,
            time_and_timezone: None,
        };
        assert(r@->Sequence_0 =~= self.core_view()->Sequence_0);
        r
    }

    /// The Python value that stands for `c`.
    pub fn from_core(c: &InitialDpArg) -> (r: Self)
        ensures
            r.mirrors(*c),
    {
        PyInitialDpArg {
            service_key: i64_from(&c.service_key),
            called_party_number: copy_opt_bytes(&c.called_party_number),
            calling_party_number: copy_opt_bytes(&c.calling_party_number),
            event_type_bcsm: event_type_bcsm_from_core(c.event_type_bcsm),
            imsi: copy_opt_bytes(&c.imsi),
            call_reference_number: copy_opt_bytes(&c.call_reference_number),
            msc_address: copy_opt_bytes(&c.msc_address),
        }
    }

    /// Encodes the InitialDP argument to BER.
    pub fn encode(&self) -> (r: Result<Vec<u8>, CapError>)
        ensures
            r matches Ok(b) && exists|c: InitialDpArg| c@ == self.core_view() && b@ == ber_encoding(c),
    {
        let core = self.to_core();
        encode(&core)
    }

    /// Decodes an InitialDP argument from BER.
    pub fn decode(data: &[u8]) -> (r: Result<Self, CapError>)
        ensures
            match ber_decoding::<InitialDpArg>(data@) {
                Some(v) => r matches Ok(p) && exists|c: InitialDpArg| c@ == v && p.mirrors(c),
                None => r matches Err(CapError::Decode(m)) && m@ == decode_failure(),
            },
    {
        let core: InitialDpArg = match decode(data) {
            Ok(c) => c,
            Err(e) => return Err(e),
        };
        Ok(Self::from_core(&core))
    }
}

/// Connect argument as Python sees it: the destination routing addresses.
#[derive(Clone, Debug, PartialEq, Eq)]
pub struct PyConnectArg {
    pub destination_routing_address: Vec<Vec<u8>>,
}

impl PyConnectArg {
    /// The abstract value of the CAP value this stands for; the components
    /// Python does not set are absent.
    pub open spec fn core_view(self) -> Asn {
        Asn::Sequence(
            seq![Some(octets_list(self.destination_routing_address@)), None, None, None, None],
        )
    }

    /// `self` stands for the components of `c` that Python sees.
    pub open spec fn mirrors(self, c: ConnectArg) -> bool {
        octets_list(self.destination_routing_address@) == octets_list(
            c.destination_routing_address@,
        )
    }

    /// Two Python values that stand for one CAP value are the same value; so
    /// converting to the CAP value and back gives the value again.
    pub proof fn lemma_mirrors_agree(p: Self, q: Self, c: ConnectArg)
        requires
            p.mirrors(c),
            q.mirrors(c),
        ensures
            p.core_view() == q.core_view(),
    {
    }

    /// A Python value that stands for a CAP value whose abstract value is
    /// `p`'s is `p` again: decoding what `encode` wrote gives `p` back.
    pub proof fn lemma_mirrors_view(p: Self, q: Self, c: ConnectArg)
        requires
            q.mirrors(c),
            c@ == p.core_view(),
        ensures
            q.core_view() == p.core_view(),
    {
        assert(c@->Sequence_0[0] == p.core_view()->Sequence_0[0]);
    }

    /// Decoding the encoding of `p` (the encoding of `c`, the CAP value `p`
    /// stands for) gives `p` back: the decoded value `q` stands for the same
    /// CAP value.
    pub proof fn lemma_round_trip(p: Self, c: ConnectArg, q: Self, d: ConnectArg)
        requires
            c@ == p.core_view(),
            ber_encoding(c).len() < 0x1_0000_0000_0000_0000,
            ber_decoding::<ConnectArg>(ber_encoding(c)) == Some(d@),
            q.mirrors(d),
        ensures
            q.core_view() == p.core_view(),
    {
        lemma_decode_encode(c, Seq::empty());
        assert(ber_encoding(c) + Seq::<u8>::empty() =~= ber_encoding(c));
        Self::lemma_mirrors_view(p, q, d);
    }

    /// A Connect argument.
    pub fn new(destination_routing_address: Vec<Vec<u8>>) -> (r: Self)
        ensures
            r.destination_routing_address == destination_routing_address,
    {
        PyConnectArg { destination_routing_address }
    }

    /// The CAP value this stands for.
    pub fn to_core(&self) -> (r: ConnectArg)
        ensures
            r@ == self.core_view(),
            self.mirrors(r),
    {
        let r = ConnectArg {
            destination_routing_address: copy_list(&self.destination_routing_address),
            original_called_party_id: None,
            calling_partys_category: None,
            redirecting_party_id: None,
            generic_numbers: None,
        };
        assert(r@->Sequence_0 =~= self.core_view()->Sequence_0);
        r
    }

    /// The Python value that stands for `c`.
    pub fn from_core(c: &ConnectArg) -> (r: Self)
        ensures
            r.mirrors(*c),
    {
        PyConnectArg { destination_routing_address: copy_list(&c.destination_routing_address) }
    }

    /// Encodes the Connect argument to BER.
    pub fn encode(&self) -> (r: Result<Vec<u8>, CapError>)
        ensures
            r matches Ok(b) && exists|c: ConnectArg| c@ == self.core_view() && b@ == ber_encoding(c),
    {
        let core = self.to_core();
        encode(&core)
    }

    /// Decodes a Connect argument from BER.
    pub fn decode(data: &[u8]) -> (r: Result<Self, CapError>)
        ensures
            match ber_decoding::<ConnectArg>(data@) {
                Some(v) => r matches Ok(p) && exists|c: ConnectArg| c@ == v && p.mirrors(c),
                None => r matches Err(CapError::Decode(m)) && m@ == decode_failure(),
            },
    {
        let core: ConnectArg = match decode(data) {
            Ok(c) => c,
            Err(e) => return Err(e),
        };
        Ok(Self::from_core(&core))
    }
}

/// A copy of a list of strings of octets.
fn copy_list(v: &Vec<Vec<u8>>) -> (r: Vec<Vec<u8>>)
    ensures
        octets_list(r@) == octets_list(v@),
{
    let mut r: Vec<Vec<u8>> = Vec::new();
    let mut i: usize = 0;
    while i < v.len()
        invariant
            i <= v.len(),
            r@.len() == i,
            forall|j: int| 0 <= j < i ==> (#[trigger] r@[j])@ == v@[j]@,
        decreases v.len() - i,
    {
        r.push(copy_bytes(&v[i]));
        i = i + 1;
    }
    assert(octets_list(r@)->SequenceOf_0 =~= octets_list(v@)->SequenceOf_0);
    r
}

/// ReleaseCall argument as Python sees it.
#[derive(Clone, Debug, PartialEq, Eq)]
pub struct PyReleaseCallArg {
    pub cause: Vec<u8>,
}

impl PyReleaseCallArg {
    /// The abstract value of the CAP value this stands for.
    pub open spec fn core_view(self) -> Asn {
        Asn::Sequence(seq![Some(Asn::Octets(self.cause@))])
    }

    /// `self` stands for `c`.
    pub open spec fn mirrors(self, c: ReleaseCallArg) -> bool {
        self.cause@ == c.cause@
    }

    /// Two Python values that stand for one CAP value are the same value; so
    /// converting to the CAP value and back gives the value again.
    pub proof fn lemma_mirrors_agree(p: Self, q: Self, c: ReleaseCallArg)
        requires
            p.mirrors(c),
            q.mirrors(c),
        ensures
            p.core_view() == q.core_view(),
    {
    }

    /// A Python value that stands for a CAP value whose abstract value is
    /// `p`'s is `p` again: decoding what `encode` wrote gives `p` back.
    pub proof fn lemma_mirrors_view(p: Self, q: Self, c: ReleaseCallArg)
        requires
            q.mirrors(c),
            c@ == p.core_view(),
        ensures
            q.core_view() == p.core_view(),
    {
        assert(c@->Sequence_0[0] == p.core_view()->Sequence_0[0]);
    }

    /// Decoding the encoding of `p` (the encoding of `c`, the CAP value `p`
    /// stands for) gives `p` back: the decoded value `q` stands for the same
    /// CAP value.
    pub proof fn lemma_round_trip(p: Self, c: ReleaseCallArg, q: Self, d: ReleaseCallArg)
        requires
            c@ == p.core_view(),
            ber_encoding(c).len() < 0x1_0000_0000_0000_0000,
            ber_decoding::<ReleaseCallArg>(ber_encoding(c)) == Some(d@),
            q.mirrors(d),
        ensures
            q.core_view() == p.core_view(),
    {
        lemma_decode_encode(c, Seq::empty());
        assert(ber_encoding(c) + Seq::<u8>::empty() =~= ber_encoding(c));
        Self::lemma_mirrors_view(p, q, d);
    }

    /// A ReleaseCall argument.
    pub fn new(cause: Vec<u8>) -> (r: Self)
        ensures
            r.cause == cause,
    {
        PyReleaseCallArg { cause }
    }

    /// The CAP value this stands for.
    pub fn to_core(&self) -> (r: ReleaseCallArg)
        ensures
            r@ == self.core_view(),
            self.mirrors(r),
    {
        ReleaseCallArg { cause: copy_bytes(&self.cause) }
    }

    /// The Python value that stands for `c`.
    pub fn from_core(c: &ReleaseCallArg) -> (r: Self)
        ensures
            r.mirrors(*c),
    {
        PyReleaseCallArg { cause: copy_bytes(&c.cause) }
    }

    /// Encodes the ReleaseCall argument to BER.
    pub fn encode(&self) -> (r: Result<Vec<u8>, CapError>)
        ensures
            r matches Ok(b) && exists|c: ReleaseCallArg| c@ == self.core_view() && b@ == ber_encoding(
                c,
            ),
    {
        let core = self.to_core();
        encode(&core)
    }

    /// Decodes a ReleaseCall argument from BER.
    pub fn decode(data: &[u8]) -> (r: Result<Self, CapError>)
        ensures
            match ber_decoding::<ReleaseCallArg>(data@) {
                Some(v) => r matches Ok(p) && exists|c: ReleaseCallArg| c@ == v && p.mirrors(c),
                None => r matches Err(CapError::Decode(m)) && m@ == decode_failure(),
            },
    {
        let core: ReleaseCallArg = match decode(data) {
            Ok(c) => c,
            Err(e) => return Err(e),
        };
        Ok(Self::from_core(&core))
    }
}

/// RequestReportBCSMEvent argument as Python sees it.
#[derive(Clone, Debug, PartialEq, Eq)]
pub struct PyRequestReportBcsmEventArg {
    pub bcsm_events: Vec<PyBcsmEvent>,
}

impl PyRequestReportBcsmEventArg {
    /// The abstract value of the CAP value this stands for.
    pub open spec fn core_view(self) -> Asn {
        Asn::Sequence(
            seq![
                Some(
                    Asn::SequenceOf(
                        self.bcsm_events@.map_values(|e: PyBcsmEvent| e.core_view()),
                    ),
                ),
            ],
        )
    }

    /// `self` stands for `c`.
    pub open spec fn mirrors(self, c: RequestReportBcsmEventArg) -> bool {
        &&& self.bcsm_events@.len() == c.bcsm_events@.len()
        &&& forall|i: int|
            0 <= i < self.bcsm_events@.len() ==> (#[trigger] self.bcsm_events@[i]).mirrors(
                c.bcsm_events@[i],
            )
    }

    /// Two Python values that stand for one CAP value are the same value; so
    /// converting to the CAP value and back gives the value again.
    pub proof fn lemma_mirrors_agree(p: Self, q: Self, c: RequestReportBcsmEventArg)
        requires
            p.mirrors(c),
            q.mirrors(c),
        ensures
            p.core_view() == q.core_view(),
    {
        let ps = p.bcsm_events@.map_values(|e: PyBcsmEvent| e.core_view());
        let qs = q.bcsm_events@.map_values(|e: PyBcsmEvent| e.core_view());
        assert forall|i: int| 0 <= i < ps.len() implies ps[i] == qs[i] by {
            PyBcsmEvent::lemma_mirrors_agree(p.bcsm_events@[i], q.bcsm_events@[i], c.bcsm_events@[i]);
        }
        assert(ps =~= qs);
    }

    /// A Python value that stands for a CAP value whose abstract value is
    /// `p`'s is `p` again: decoding what `encode` wrote gives `p` back.
    pub proof fn lemma_mirrors_view(p: Self, q: Self, c: RequestReportBcsmEventArg)
        requires
            q.mirrors(c),
            c@ == p.core_view(),
        ensures
            q.core_view() == p.core_view(),
    {
        let cs = c.bcsm_events@.map_values(|e: BcsmEvent| e@);
        let ps = p.bcsm_events@.map_values(|e: PyBcsmEvent| e.core_view());
        let qs = q.bcsm_events@.map_values(|e: PyBcsmEvent| e.core_view());
        assert(c@->Sequence_0[0] == p.core_view()->Sequence_0[0]);
        assert(cs == ps);
        assert forall|i: int| 0 <= i < qs.len() implies qs[i] == ps[i] by {
            assert(cs[i] == ps[i]);
            PyBcsmEvent::lemma_mirrors_view(
                p.bcsm_events@[i],
                q.bcsm_events@[i],
                c.bcsm_events@[i],
            );
        }
        assert(qs =~= ps);
    }

    /// Decoding the encoding of `p` (the encoding of `c`, the CAP value `p`
    /// stands for) gives `p` back: the decoded value `q` stands for the same
    /// CAP value.
    pub proof fn lemma_round_trip(p: Self, c: RequestReportBcsmEventArg, q: Self, d: RequestReportBcsmEventArg)
        requires
            c@ == p.core_view(),
            ber_encoding(c).len() < 0x1_0000_0000_0000_0000,
            ber_decoding::<RequestReportBcsmEventArg>(ber_encoding(c)) == Some(d@),
            q.mirrors(d),
        ensures
            q.core_view() == p.core_view(),
    {
        lemma_decode_encode(c, Seq::empty());
        assert(ber_encoding(c) + Seq::<u8>::empty() =~= ber_encoding(c));
        Self::lemma_mirrors_view(p, q, d);
    }

    /// A RequestReportBCSMEvent argument.
    pub fn new(bcsm_events: Vec<PyBcsmEvent>) -> (r: Self)
        ensures
            r.bcsm_events == bcsm_events,
    {
        PyRequestReportBcsmEventArg { bcsm_events }
    }

    /// The CAP value this stands for.
    pub fn to_core(&self) -> (r: RequestReportBcsmEventArg)
        ensures
            r@ == self.core_view(),
            self.mirrors(r),
    {
        let mut events: Vec<BcsmEvent> = Vec::new();
        let mut i: usize = 0;
        while i < self.bcsm_events.len()
            invariant
                i <= self.bcsm_events.len(),
                events@.len() == i,
                forall|j: int|
                    0 <= j < i ==> (#[trigger] events@[j])@ == self.bcsm_events@[j].core_view()
                        && self.bcsm_events@[j].mirrors(events@[j]),
            decreases self.bcsm_events.len() - i,
        {
            events.push(self.bcsm_events[i].to_core());
            i = i + 1;
        }
        let r = RequestReportBcsmEventArg { bcsm_events: events };
        assert(list_view(r.bcsm_events@)->SequenceOf_0 =~= self.bcsm_events@.map_values(
            |e: PyBcsmEvent| e.core_view(),
        ));
        assert(r@->Sequence_0 =~= self.core_view()->Sequence_0);
        r
    }

    /// The Python value that stands for `c`.
    pub fn from_core(c: &RequestReportBcsmEventArg) -> (r: Self)
        ensures
            r.mirrors(*c),
    {
        let mut events: Vec<PyBcsmEvent> = Vec::new();
        let mut i: usize = 0;
        while i < c.bcsm_events.len()
            invariant
                i <= c.bcsm_events.len(),
                events@.len() == i,
                forall|j: int| 0 <= j < i ==> (#[trigger] events@[j]).mirrors(c.bcsm_events@[j]),
            decreases c.bcsm_events.len() - i,
        {
            events.push(PyBcsmEvent::from_core(&c.bcsm_events[i]));
            i = i + 1;
        }
        PyRequestReportBcsmEventArg { bcsm_events: events }
    }

    /// Encodes the RequestReportBCSMEvent argument to BER.
    pub fn encode(&self) -> (r: Result<Vec<u8>, CapError>)
        ensures
            r matches Ok(b) && exists|c: RequestReportBcsmEventArg|
                c@ == self.core_view() && b@ == ber_encoding(c),
    {
        let core = self.to_core();
        encode(&core)
    }

    /// Decodes a RequestReportBCSMEvent argument from BER.
    pub fn decode(data: &[u8]) -> (r: Result<Self, CapError>)
        ensures
            match ber_decoding::<RequestReportBcsmEventArg>(data@) {
                Some(v) => r matches Ok(p) && exists|c: RequestReportBcsmEventArg|
                    c@ == v && p.mirrors(c),
                None => r matches Err(CapError::Decode(m)) && m@ == decode_failure(),
            },
    {
        let core: RequestReportBcsmEventArg = match decode(data) {
            Ok(c) => c,
            Err(e) => return Err(e),
        };
        Ok(Self::from_core(&core))
    }
}

/// EventReportBCSM argument as Python sees it.
#[derive(Clone, Debug, PartialEq, Eq)]
pub struct PyEventReportBcsmArg {
    pub event_type_bcsm: PyEventTypeBcsm,
    pub leg_id: Option<Vec<u8>>,
    pub misc_call_info: Option<Vec<u8>>,
}

impl PyEventReportBcsmArg {
    /// The abstract value of the CAP value this stands for.
    pub open spec fn core_view(self) -> Asn {
        Asn::Sequence(
            seq![
                Some(self.event_type_bcsm.spec_core()@),
                opt_octets(self.leg_id),
                opt_octets(self.misc_call_info),
            ],
        )
    }

    /// `self` stands for `c`.
    pub open spec fn mirrors(self, c: EventReportBcsmArg) -> bool {
        &&& self.event_type_bcsm.spec_core() == c.event_type_bcsm
        &&& opt_octets(self.leg_id) == opt_octets(c.leg_id)
        &&& opt_octets(self.misc_call_info) == opt_octets(c.misc_call_info)
    }

    /// Two Python values that stand for one CAP value are the same value; so
    /// converting to the CAP value and back gives the value again.
    pub proof fn lemma_mirrors_agree(p: Self, q: Self, c: EventReportBcsmArg)
        requires
            p.mirrors(c),
            q.mirrors(c),
        ensures
            p.core_view() == q.core_view(),
    {
    }

    /// A Python value that stands for a CAP value whose abstract value is
    /// `p`'s is `p` again: decoding what `encode` wrote gives `p` back.
    pub proof fn lemma_mirrors_view(p: Self, q: Self, c: EventReportBcsmArg)
        requires
            q.mirrors(c),
            c@ == p.core_view(),
        ensures
            q.core_view() == p.core_view(),
    {
        assert(c@->Sequence_0[0] == p.core_view()->Sequence_0[0]);
        assert(c@->Sequence_0[1] == p.core_view()->Sequence_0[1]);
        assert(c@->Sequence_0[2] == p.core_view()->Sequence_0[2]);
    }

    /// Decoding the encoding of `p` (the encoding of `c`, the CAP value `p`
    /// stands for) gives `p` back: the decoded value `q` stands for the same
    /// CAP value.
    pub proof fn lemma_round_trip(p: Self, c: EventReportBcsmArg, q: Self, d: EventReportBcsmArg)
        requires
            c@ == p.core_view(),
            ber_encoding(c).len() < 0x1_0000_0000_0000_0000,
            ber_decoding::<EventReportBcsmArg>(ber_encoding(c)) == Some(d@),
            q.mirrors(d),
        ensures
            q.core_view() == p.core_view(),
    {
        lemma_decode_encode(c, Seq::empty());
        assert(ber_encoding(c) + Seq::<u8>::empty() =~= ber_encoding(c));
        Self::lemma_mirrors_view(p, q, d);
    }

    /// An EventReportBCSM argument.
    pub fn new(
        event_type_bcsm: PyEventTypeBcsm,
        leg_id: Option<Vec<u8>>,
        misc_call_info: Option<Vec<u8>>,
    ) -> (r: Self)
        ensures
            r == (PyEventReportBcsmArg { event_type_bcsm, leg_id, misc_call_info }),
    {
        PyEventReportBcsmArg { event_type_bcsm, leg_id, misc_call_info }
    }

    /// The CAP value this stands for.
    pub fn to_core(&self) -> (r: EventReportBcsmArg)
        ensures
            r@ == self.core_view(),
            self.mirrors(r),
    {
        EventReportBcsmArg {
            event_type_bcsm: self.event_type_bcsm.to_core(),
            leg_id: copy_opt_bytes(&self.leg_id),
            misc_call_info: copy_opt_bytes(&self.misc_call_info),
        }
    }

    /// The Python value that stands for `c`.
    pub fn from_core(c: &EventReportBcsmArg) -> (r: Self)
        ensures
            r.mirrors(*c),
    {
        PyEventReportBcsmArg {
            event_type_bcsm: PyEventTypeBcsm::from_core(c.event_type_bcsm),
            leg_id: copy_opt_bytes(&c.leg_id),
            misc_call_info: copy_opt_bytes(&c.misc_call_info),
        }
    }

    /// Encodes the EventReportBCSM argument to BER.
    pub fn encode(&self) -> (r: Result<Vec<u8>, CapError>)
        ensures
            r matches Ok(b) && exists|c: EventReportBcsmArg| c@ == self.core_view() && b@
                == ber_encoding(c),
    {
        let core = self.to_core();
        encode(&core)
    }

    /// Decodes an EventReportBCSM argument from BER.
    pub fn decode(data: &[u8]) -> (r: Result<Self, CapError>)
        ensures
            match ber_decoding::<EventReportBcsmArg>(data@) {
                Some(v) => r matches Ok(p) && exists|c: EventReportBcsmArg| c@ == v && p.mirrors(c),
                None => r matches Err(CapError::Decode(m)) && m@ == decode_failure(),
            },
    {
        let core: EventReportBcsmArg = match decode(data) {
            Ok(c) => c,
            Err(e) => return Err(e),
        };
        Ok(Self::from_core(&core))
    }
}

/// ApplyCharging argument as Python sees it.
#[derive(Clone, Debug, PartialEq, Eq)]
pub struct PyApplyChargingArg {
    pub ach_billing_charging_characteristics: Vec<u8>,
    pub party_to_charge: Option<Vec<u8>>,
}

impl PyApplyChargingArg {
    /// The abstract value of the CAP value this stands for.
    pub open spec fn core_view(self) -> Asn {
        Asn::Sequence(
            seq![
                Some(Asn::Octets(self.ach_billing_charging_characteristics@)),
                opt_octets(self.party_to_charge),
            ],
        )
    }

    /// `self` stands for `c`.
    pub open spec fn mirrors(self, c: ApplyChargingArg) -> bool {
        &&& self.ach_billing_charging_characteristics@ == c.ach_billing_charging_characteristics@
        &&& opt_octets(self.party_to_charge) == opt_octets(c.party_to_charge)
    }

    /// Two Python values that stand for one CAP value are the same value; so
    /// converting to the CAP value and back gives the value again.
    pub proof fn lemma_mirrors_agree(p: Self, q: Self, c: ApplyChargingArg)
        requires
            p.mirrors(c),
            q.mirrors(c),
        ensures
            p.core_view() == q.core_view(),
    {
    }

    /// A Python value that stands for a CAP value whose abstract value is
    /// `p`'s is `p` again: decoding what `encode` wrote gives `p` back.
    pub proof fn lemma_mirrors_view(p: Self, q: Self, c: ApplyChargingArg)
        requires
            q.mirrors(c),
            c@ == p.core_view(),
        ensures
            q.core_view() == p.core_view(),
    {
        assert(c@->Sequence_0[0] == p.core_view()->Sequence_0[0]);
        assert(c@->Sequence_0[1] == p.core_view()->Sequence_0[1]);
    }

    /// Decoding the encoding of `p` (the encoding of `c`, the CAP value `p`
    /// stands for) gives `p` back: the decoded value `q` stands for the same
    /// CAP value.
    pub proof fn lemma_round_trip(p: Self, c: ApplyChargingArg, q: Self, d: ApplyChargingArg)
        requires
            c@ == p.core_view(),
            ber_encoding(c).len() < 0x1_0000_0000_0000_0000,
            ber_decoding::<ApplyChargingArg>(ber_encoding(c)) == Some(d@),
            q.mirrors(d),
        ensures
            q.core_view() == p.core_view(),
    {
        lemma_decode_encode(c, Seq::empty());
        assert(ber_encoding(c) + Seq::<u8>::empty() =~= ber_encoding(c));
        Self::lemma_mirrors_view(p, q, d);
    }

    /// An ApplyCharging argument.
    pub fn new(ach_billing_charging_characteristics: Vec<u8>, party_to_charge: Option<Vec<u8>>) -> (r:
        Self)
        ensures
            r == (PyApplyChargingArg { ach_billing_charging_characteristics, party_to_charge }),
    {
        PyApplyChargingArg { ach_billing_charging_characteristics, party_to_charge }
    }

    /// The CAP value this stands for.
    pub fn to_core(&self) -> (r: ApplyChargingArg)
        ensures
            r@ == self.core_view(),
            self.mirrors(r),
    {
        ApplyChargingArg {
            ach_billing_charging_characteristics: copy_bytes(
                &self.ach_billing_charging_characteristics,
            ),
            party_to_charge: copy_opt_bytes(&self.party_to_charge),
        }
    }

    /// The Python value that stands for `c`.
    pub fn from_core(c: &ApplyChargingArg) -> (r: Self)
        ensures
            r.mirrors(*c),
    {
        PyApplyChargingArg {
            ach_billing_charging_characteristics: copy_bytes(
                &c.ach_billing_charging_characteristics,
            ),
            party_to_charge: copy_opt_bytes(&c.party_to_charge),
        }
    }

    /// Encodes the ApplyCharging argument to BER.
    pub fn encode(&self) -> (r: Result<Vec<u8>, CapError>)
        ensures
            r matches Ok(b) && exists|c: ApplyChargingArg| c@ == self.core_view() && b@
                == ber_encoding(c),
    {
        let core = self.to_core();
        encode(&core)
    }

    /// Decodes an ApplyCharging argument from BER.
    pub fn decode(data: &[u8]) -> (r: Result<Self, CapError>)
        ensures
            match ber_decoding::<ApplyChargingArg>(data@) {
                Some(v) => r matches Ok(p) && exists|c: ApplyChargingArg| c@ == v && p.mirrors(c),
                None => r matches Err(CapError::Decode(m)) && m@ == decode_failure(),
            },
    {
        let core: ApplyChargingArg = match decode(data) {
            Ok(c) => c,
            Err(e) => return Err(e),
        };
        Ok(Self::from_core(&core))
    }
}

/// An optional SMS event type as the CAP component it stands for.
pub open spec fn opt_event_type_sms(o: Option<PyEventTypeSms>) -> Option<Asn> {
    match o {
        Some(e) => Some(e.spec_core()@),
        None => None,
    }
}

/// The CAP value of an optional SMS event type.
fn event_type_sms_to_core(o: Option<PyEventTypeSms>) -> (r: Option<EventTypeSms>)
    ensures
        opt_view(r) == opt_event_type_sms(o),
{
    match o {
        Some(e) => Some(e.to_core()),
        None => None,
    }
}

/// The Python value of an optional SMS event type.
fn event_type_sms_from_core(o: Option<EventTypeSms>) -> (r: Option<PyEventTypeSms>)
    ensures
        opt_event_type_sms(r) == opt_view(o),
{
    match o {
        Some(e) => Some(PyEventTypeSms::from_core(e)),
        None => None,
    }
}

/// InitialDPSMS argument as Python sees it: the service key and five of the
/// optional components.
#[derive(Clone, Debug, PartialEq, Eq)]
pub struct PyInitialDpSmsArg {
    pub service_key: i64,
    pub destination_subscriber_number: Option<Vec<u8>>,
    pub calling_party_number: Option<Vec<u8>>,
    pub event_type_sms: Option<PyEventTypeSms>,
    pub imsi: Option<Vec<u8>>,
    pub smsc_address: Option<Vec<u8>>,
}

impl PyInitialDpSmsArg {
    /// The abstract value of the CAP value this stands for; the components
    /// Python does not set are absent.
    pub open spec fn core_view(self) -> Asn {
        Asn::Sequence(
            seq![
                Some(Asn::Integer(self.service_key as int)),
                opt_octets(self.destination_subscriber_number),
                opt_octets(self.calling_party_number),
                opt_event_type_sms(self.event_type_sms),
                opt_octets(self.imsi),
                None,
                opt_octets(self.smsc_address),
                None,
                None,
                None,
                None,
                None,
                None,
                None,
                None,
                None,
            ],
        )
    }

    /// `self` stands for the components of `c` that Python sees.
    pub open spec fn mirrors(self, c: InitialDpSmsArg) -> bool {
        &&& self.service_key == i64_or_zero(c.service_key@)
        &&& opt_octets(self.destination_subscriber_number) == opt_octets(
            c.destination_subscriber_number,
        )
        &&& opt_octets(self.calling_party_number) == opt_octets(c.calling_party_number)
        &&& opt_event_type_sms(self.event_type_sms) == opt_view(c.event_type_sms)
        &&& opt_octets(self.imsi) == opt_octets(c.imsi)
        &&& opt_octets(self.smsc_address) == opt_octets(c.smsc_address)
    }

    /// Two Python values that stand for one CAP value are the same value; so
    /// converting to the CAP value and back gives the value again.
    pub proof fn lemma_mirrors_agree(p: Self, q: Self, c: InitialDpSmsArg)
        requires
            p.mirrors(c),
            q.mirrors(c),
        ensures
            p.core_view() == q.core_view(),
    {
    }

    /// A Python value that stands for a CAP value whose abstract value is
    /// `p`'s is `p` again: decoding what `encode` wrote gives `p` back.
    pub proof fn lemma_mirrors_view(p: Self, q: Self, c: InitialDpSmsArg)
        requires
            q.mirrors(c),
            c@ == p.core_view(),
        ensures
            q.core_view() == p.core_view(),
    {
        assert(c@->Sequence_0[0] == p.core_view()->Sequence_0[0]);
        assert(c@->Sequence_0[1] == p.core_view()->Sequence_0[1]);
        assert(c@->Sequence_0[2] == p.core_view()->Sequence_0[2]);
        assert(c@->Sequence_0[3] == p.core_view()->Sequence_0[3]);
        assert(c@->Sequence_0[4] == p.core_view()->Sequence_0[4]);
        assert(c@->Sequence_0[6] == p.core_view()->Sequence_0[6]);
    }

    /// Decoding the encoding of `p` (the encoding of `c`, the CAP value `p`
    /// stands for) gives `p` back: the decoded value `q` stands for the same
    /// CAP value.
    pub proof fn lemma_round_trip(p: Self, c: InitialDpSmsArg, q: Self, d: InitialDpSmsArg)
        requires
            c@ == p.core_view(),
            ber_encoding(c).len() < 0x1_0000_0000_0000_0000,
            ber_decoding::<InitialDpSmsArg>(ber_encoding(c)) == Some(d@),
            q.mirrors(d),
        ensures
            q.core_view() == p.core_view(),
    {
        lemma_decode_encode(c, Seq::empty());
        assert(ber_encoding(c) + Seq::<u8>::empty() =~= ber_encoding(c));
        Self::lemma_mirrors_view(p, q, d);
    }

    /// An InitialDPSMS argument.
    pub fn new(
        service_key: i64,
        destination_subscriber_number: Option<Vec<u8>>,
        calling_party_number: Option<Vec<u8>>,
        event_type_sms: Option<PyEventTypeSms>,
        imsi: Option<Vec<u8>>,
        smsc_address: Option<Vec<u8>>,
    ) -> (r: Self)
        ensures
            r == (PyInitialDpSmsArg {
                service_key,
                destination_subscriber_number,
                calling_party_number,
                event_type_sms,
                imsi,
                smsc_address,
            }),
    {
        PyInitialDpSmsArg {
            service_key,
            destination_subscriber_number,
            calling_party_number,
            event_type_sms,
            imsi,
            smsc_address,
        }
    }

    /// The CAP value this stands for.
    pub fn to_core(&self) -> (r: InitialDpSmsArg)
        ensures
            r@ == self.core_view(),
            self.mirrors(r),
    {
        let r = InitialDpSmsArg {
            service_key: Integer::from_i64(self.service_key),
            destination_subscriber_number: copy_opt_bytes(&self.destination_subscriber_number),
            calling_party_number: copy_opt_bytes(&self.calling_party_number),
            event_type_sms: event_type_sms_to_core(self.event_type_sms),
            imsi: copy_opt_bytes(&self.imsi),
            location_information_msc: None,
            smsc_address: copy_opt_bytes(&self.smsc_address),
            time_and_timezone: None,
            tp_short_message_specific_info: None,
            tp_protocol_identifier: None,
            tp_data_coding_scheme: None,
            tp_validity_period: None,
            sms_reference_number: None,
            msc_address: None,
            sgsn_number: None,
            ms_classmark2: None,
        };
        assert(r@->Sequence_0 =~= self.core_view()->Sequence_0);
        r
    }

    /// The Python value that stands for `c`.
    pub fn from_core(c: &InitialDpSmsArg) -> (r: Self)
        ensures
            r.mirrors(*c),
    {
        PyInitialDpSmsArg {
            service_key: i64_from(&c.service_key),
            destination_subscriber_number: copy_opt_bytes(&c.destination_subscriber_number),
            calling_party_number: copy_opt_bytes(&c.calling_party_number),
            event_type_sms: event_type_sms_from_core(c.event_type_sms),
            imsi: copy_opt_bytes(&c.imsi),
            smsc_address: copy_opt_bytes(&c.smsc_address),
        }
    }

    /// Encodes the InitialDPSMS argument to BER.
    pub fn encode(&self) -> (r: Result<Vec<u8>, CapError>)
        ensures
            r matches Ok(b) && exists|c: InitialDpSmsArg| c@ == self.core_view() && b@
                == ber_encoding(c),
    {
        let core = self.to_core();
        encode(&core)
    }

    /// Decodes an InitialDPSMS argument from BER.
    pub fn decode(data: &[u8]) -> (r: Result<Self, CapError>)
        ensures
            match ber_decoding::<InitialDpSmsArg>(data@) {
                Some(v) => r matches Ok(p) && exists|c: InitialDpSmsArg| c@ == v && p.mirrors(c),
                None => r matches Err(CapError::Decode(m)) && m@ == decode_failure(),
            },
    {
        let core: InitialDpSmsArg = match decode(data) {
            Ok(c) => c,
            Err(e) => return Err(e),
        };
        Ok(Self::from_core(&core))
    }
}

/// The arcs of gsmSSF-scfGenericAC in the given CAP phase.
pub fn cap_gsmssf_scf_generic(version: u32) -> (r: Vec<u32>)
    ensures
        r@ == ac_arcs(version, AC_GSMSSF_SCF_GENERIC),
{
    arcs_of(&application_context::cap_gsmssf_scf_generic(version))
}

/// The arcs of gsmSSF-scfAssistHandoffAC in the given CAP phase.
pub fn cap_gsmssf_scf_assist_handoff(version: u32) -> (r: Vec<u32>)
    ensures
        r@ == ac_arcs(version, AC_GSMSSF_SCF_ASSIST_HANDOFF),
{
    arcs_of(&application_context::cap_gsmssf_scf_assist_handoff(version))
}

/// The arcs of gsmSRF-gsmSCF-AC in the given CAP phase.
pub fn cap_gsmsrf_scf(version: u32) -> (r: Vec<u32>)
    ensures
        r@ == ac_arcs(version, AC_GSMSRF_SCF),
{
    arcs_of(&application_context::cap_gsmsrf_scf(version))
}

/// The arcs of cap-sms-AC in the given CAP phase.
pub fn cap_sms_ac(version: u32) -> (r: Vec<u32>)
    ensures
        r@ == ac_arcs(version, AC_SMS),
{
    arcs_of(&application_context::cap_sms_ac(version))
}

impl PyBcsmEvent {
    /// How Python shows the entry: its event and mode as their integers.
    pub fn repr(&self) -> (r: String)
        ensures
            r@ == "BcsmEvent(event_type_bcsm="@ + signed_decimal(
                self.event_type_bcsm.spec_core().spec_value() as int,
            ) + ", monitor_mode="@ + signed_decimal(self.monitor_mode.spec_core().spec_value() as int)
                + ")"@,
    {
        let mut s = String::new();
        s.append("BcsmEvent(event_type_bcsm=");
        push_signed(&mut s, self.event_type_bcsm.value());
        s.append(", monitor_mode=");
        push_signed(&mut s, self.monitor_mode.value());
        s.append(")");
        s
    }
}

impl PyInitialDpArg {
    /// How Python shows the argument: its service key.
    pub fn repr(&self) -> (r: String)
        ensures
            r@ == "InitialDpArg(service_key="@ + signed_decimal(self.service_key as int) + ")"@,
    {
        let mut s = String::new();
        s.append("InitialDpArg(service_key=");
        push_signed(&mut s, self.service_key);
        s.append(")");
        s
    }
}

impl PyConnectArg {
    /// How Python shows the argument: the number of routing addresses.
    pub fn repr(&self) -> (r: String)
        ensures
            r@ == "ConnectArg(destination_routing_address=["@ + decimal(
                self.destination_routing_address@.len(),
            ) + " addr])"@,
    {
        let mut s = String::new();
        s.append("ConnectArg(destination_routing_address=[");
        push_decimal(&mut s, self.destination_routing_address.len() as u64);
        s.append(" addr])");
        s
    }
}

impl PyReleaseCallArg {
    /// How Python shows the argument: the length of the cause.
    pub fn repr(&self) -> (r: String)
        ensures
            r@ == "ReleaseCallArg(cause="@ + decimal(self.cause@.len()) + " bytes)"@,
    {
        let mut s = String::new();
        s.append("ReleaseCallArg(cause=");
        push_decimal(&mut s, self.cause.len() as u64);
        s.append(" bytes)");
        s
    }
}

impl PyRequestReportBcsmEventArg {
    /// How Python shows the argument: the number of events.
    pub fn repr(&self) -> (r: String)
        ensures
            r@ == "RequestReportBcsmEventArg(bcsm_events=["@ + decimal(self.bcsm_events@.len())
                + " events])"@,
    {
        let mut s = String::new();
        s.append("RequestReportBcsmEventArg(bcsm_events=[");
        push_decimal(&mut s, self.bcsm_events.len() as u64);
        s.append(" events])");
        s
    }
}

impl PyEventReportBcsmArg {
    /// How Python shows the argument: its event as its integer.
    pub fn repr(&self) -> (r: String)
        ensures
            r@ == "EventReportBcsmArg(event_type_bcsm="@ + signed_decimal(
                self.event_type_bcsm.spec_core().spec_value() as int,
            ) + ")"@,
    {
        let mut s = String::new();
        s.append("EventReportBcsmArg(event_type_bcsm=");
        push_signed(&mut s, self.event_type_bcsm.value());
        s.append(")");
        s
    }
}

impl PyApplyChargingArg {
    /// How Python shows the argument.
    pub fn repr(&self) -> (r: String)
        ensures
            r@ == "ApplyChargingArg(..)"@,
    {
        "ApplyChargingArg(..)".to_owned()
    }
}

impl PyInitialDpSmsArg {
    /// How Python shows the argument: its service key.
    pub fn repr(&self) -> (r: String)
        ensures
            r@ == "InitialDpSmsArg(service_key="@ + signed_decimal(self.service_key as int) + ")"@,
    {
        let mut s = String::new();
        s.append("InitialDpSmsArg(service_key=");
        push_signed(&mut s, self.service_key);
        s.append(")");
        s
    }
}

} // verus!
