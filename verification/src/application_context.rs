//! CAP application-context OIDs, 3GPP TS 29.078.
//!
//! An application context identifies the CAP operation set and phase used in a
//! TCAP dialogue. The OIDs are:
//!
//! ```text
//!   CAP v1/v2: 0.4.0.0.1.0.50.<version>   (under the MAP AC space)
//!   CAP v3:    0.4.0.0.1.21.3.<ac_id>      (module 21)
//!   CAP v4:    0.4.0.0.1.23.3.<ac_id>      (module 23)
//! ```
//! AC ids: 4 = gsmSSF-scfGeneric, 6 = assistHandoff, 10 = gsmSRF, 50 = sms.
//! Any other version is read as CAP v3.

use rasn::types::ObjectIdentifier;
use vstd::prelude::*;

verus! {

/// An ASN.1 OBJECT IDENTIFIER, as `rasn` holds it.
#[verifier::external_type_specification]
#[verifier::external_body]
pub struct ExObjectIdentifier(ObjectIdentifier);

/// The arcs an object identifier holds (`rasn` keeps them in a
/// `Cow<'static, [u32]>` and hands them out as a slice).
pub uninterp spec fn oid_arcs(oid: ObjectIdentifier) -> Seq<u32>;

/// `rasn`'s `ObjectIdentifier::new_unchecked`, given the arcs as an owned
/// `Cow`: it stores them as they are, with no check that they form a valid
/// OID, so the identifier holds exactly `arcs`.
#[verifier::external_body]
fn oid_from_arcs(arcs: Vec<u32>) -> (oid: ObjectIdentifier)
    ensures
        oid_arcs(oid) == arcs@,
{
    ObjectIdentifier::new_unchecked(arcs.into())
}

/// The arcs of `oid`, in order: `rasn`'s `ObjectIdentifier` dereferences
/// (through `Oid`) to the slice of arcs it holds, which `to_vec` copies.
#[verifier::external_body]
pub(crate) fn arcs_of(oid: &ObjectIdentifier) -> (r: Vec<u32>)
    ensures
        r@ == oid_arcs(*oid),
{
    oid.to_vec()
}

/// CAP phase 1.
pub const CAP_V1: u32 = 1;

/// CAP phase 2.
pub const CAP_V2: u32 = 2;

/// CAP phase 3.
pub const CAP_V3: u32 = 3;

/// CAP phase 4.
pub const CAP_V4: u32 = 4;

/// gsmSSF-scfGenericAC.
pub const AC_GSMSSF_SCF_GENERIC: u32 = 4;

/// gsmSSF-scfAssistHandoffAC.
pub const AC_GSMSSF_SCF_ASSIST_HANDOFF: u32 = 6;

/// gsmSRF-gsmSCF-AC.
pub const AC_GSMSRF_SCF: u32 = 10;

/// cap-sms-AC.
pub const AC_SMS: u32 = 50;

/// The arcs of the application context `ac_id` in CAP phase `version`.
pub open spec fn ac_arcs(version: u32, ac_id: u32) -> Seq<u32> {
    if version == CAP_V1 {
        seq![0, 4, 0, 0, 1, 0, 50, 1]
    } else if version == CAP_V2 {
        seq![0, 4, 0, 0, 1, 0, 50, 2]
    } else if version == CAP_V4 {
        seq![0, 4, 0, 0, 1, 23, 3, ac_id]
    } else {
        seq![0, 4, 0, 0, 1, 21, 3, ac_id]
    }
}

/// The application context `ac_id` in CAP phase `version`; phases other
/// than 1, 2 and 4 are read as phase 3.
pub fn cap_ac(version: u32, ac_id: u32) -> (oid: ObjectIdentifier)
    ensures
        oid_arcs(oid) == ac_arcs(version, ac_id),
{
    let components: Vec<u32> = match version {
        1 => vec![0, 4, 0, 0, 1, 0, 50, 1],
        2 => vec![0, 4, 0, 0, 1, 0, 50, 2],
        3 => vec![0, 4, 0, 0, 1, 21, 3, ac_id],
        4 => vec![0, 4, 0, 0, 1, 23, 3, ac_id],
        _ => vec![0, 4, 0, 0, 1, 21, 3, ac_id],
    };
    assert(components@ =~= ac_arcs(version, ac_id));
    oid_from_arcs(components)
}

/// gsmSSF-scfGenericAC: gsmSSF to gsmSCF call control.
pub fn cap_gsmssf_scf_generic(version: u32) -> (oid: ObjectIdentifier)
    ensures
        oid_arcs(oid) == ac_arcs(version, AC_GSMSSF_SCF_GENERIC),
{
    cap_ac(version, AC_GSMSSF_SCF_GENERIC)
}

/// gsmSSF-scfAssistHandoffAC.
pub fn cap_gsmssf_scf_assist_handoff(version: u32) -> (oid: ObjectIdentifier)
    ensures
        oid_arcs(oid) == ac_arcs(version, AC_GSMSSF_SCF_ASSIST_HANDOFF),
{
    cap_ac(version, AC_GSMSSF_SCF_ASSIST_HANDOFF)
}

/// gsmSRF-gsmSCF-AC: specialised resources.
pub fn cap_gsmsrf_scf(version: u32) -> (oid: ObjectIdentifier)
    ensures
        oid_arcs(oid) == ac_arcs(version, AC_GSMSRF_SCF),
{
    cap_ac(version, AC_GSMSRF_SCF)
}

/// cap-sms-AC: SMS control.
pub fn cap_sms_ac(version: u32) -> (oid: ObjectIdentifier)
    ensures
        oid_arcs(oid) == ac_arcs(version, AC_SMS),
{
    cap_ac(version, AC_SMS)
}

/// Phases 3 and 4 name different application contexts, whatever the context.
pub proof fn lemma_phases_distinct(ac_id: u32)
    ensures
        ac_arcs(CAP_V3, ac_id) != ac_arcs(CAP_V4, ac_id),
{
    assert(ac_arcs(CAP_V3, ac_id)[5] != ac_arcs(CAP_V4, ac_id)[5]);
}

/// From phase 3 on, different AC ids name different application contexts.
pub proof fn lemma_contexts_distinct(version: u32, a: u32, b: u32)
    requires
        version != CAP_V1,
        version != CAP_V2,
        a != b,
    ensures
        ac_arcs(version, a) != ac_arcs(version, b),
{
    assert(ac_arcs(version, a)[7] != ac_arcs(version, b)[7]);
}

/// In phases 1 and 2 the last arc is the phase, whatever the context.
pub proof fn lemma_early_phases(version: u32, ac_id: u32)
    requires
        version == CAP_V1 || version == CAP_V2,
    ensures
        ac_arcs(version, ac_id) == seq![0u32, 4, 0, 0, 1, 0, 50, version],
{
}

/// In phases 3 and 4, different (phase, context) pairs name different
/// application contexts.
pub proof fn lemma_ac_injective(v1: u32, a1: u32, v2: u32, a2: u32)
    requires
        v1 == CAP_V3 || v1 == CAP_V4,
        v2 == CAP_V3 || v2 == CAP_V4,
        v1 != v2 || a1 != a2,
    ensures
        ac_arcs(v1, a1) != ac_arcs(v2, a2),
{
    if v1 != v2 {
        assert(ac_arcs(v1, a1)[5] != ac_arcs(v2, a2)[5]);
    } else {
        assert(ac_arcs(v1, a1)[7] != ac_arcs(v2, a2)[7]);
    }
}

/// Every application context has eight arcs, the first five `0.4.0.0.1`.
pub proof fn lemma_ac_shape(version: u32, ac_id: u32)
    ensures
        ac_arcs(version, ac_id).len() == 8,
        ac_arcs(version, ac_id).take(5) == seq![0u32, 4, 0, 0, 1],
{
    assert(ac_arcs(version, ac_id).take(5) =~= seq![0u32, 4, 0, 0, 1]);
}

} // verus!
