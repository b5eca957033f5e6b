//! Application-context OIDs.

use gsm_cap::application_context::{
    cap_ac, cap_gsmsrf_scf, cap_gsmssf_scf_assist_handoff, cap_gsmssf_scf_generic, cap_sms_ac, CAP_V1,
    CAP_V2, CAP_V3, CAP_V4,
};

fn arcs(oid: &rasn::types::ObjectIdentifier) -> Vec<u32> {
    oid.iter().copied().collect::<Vec<u32>>()
}

#[test]
fn versions_are_distinct() {
    assert_ne!(
        cap_gsmssf_scf_generic(CAP_V3),
        cap_gsmssf_scf_generic(CAP_V4)
    );
    assert_ne!(cap_gsmssf_scf_generic(CAP_V3), cap_gsmsrf_scf(CAP_V3));
}

#[test]
fn v3_generic_oid_shape() {
    // CAP v3 gsmSSF-scfGeneric = 0.4.0.0.1.21.3.4
    let oid = cap_gsmssf_scf_generic(CAP_V3);
    assert_eq!(
        oid.iter().copied().collect::<Vec<u32>>(),
        vec![0, 4, 0, 0, 1, 21, 3, 4]
    );
}

#[test]
fn v4_contexts_use_module_23() {
    assert_eq!(arcs(&cap_gsmssf_scf_generic(CAP_V4)), vec![0, 4, 0, 0, 1, 23, 3, 4]);
    assert_eq!(arcs(&cap_gsmssf_scf_assist_handoff(CAP_V4)), vec![0, 4, 0, 0, 1, 23, 3, 6]);
    assert_eq!(arcs(&cap_gsmsrf_scf(CAP_V4)), vec![0, 4, 0, 0, 1, 23, 3, 10]);
    assert_eq!(arcs(&cap_sms_ac(CAP_V4)), vec![0, 4, 0, 0, 1, 23, 3, 50]);
}

#[test]
fn v3_contexts_use_module_21() {
    assert_eq!(arcs(&cap_gsmssf_scf_assist_handoff(CAP_V3)), vec![0, 4, 0, 0, 1, 21, 3, 6]);
    assert_eq!(arcs(&cap_gsmsrf_scf(CAP_V3)), vec![0, 4, 0, 0, 1, 21, 3, 10]);
    assert_eq!(arcs(&cap_sms_ac(CAP_V3)), vec![0, 4, 0, 0, 1, 21, 3, 50]);
}

#[test]
fn early_phases_ignore_the_context_id() {
    assert_eq!(arcs(&cap_gsmssf_scf_generic(CAP_V1)), vec![0, 4, 0, 0, 1, 0, 50, 1]);
    assert_eq!(arcs(&cap_gsmssf_scf_generic(CAP_V2)), vec![0, 4, 0, 0, 1, 0, 50, 2]);
    assert_eq!(cap_sms_ac(CAP_V1), cap_gsmssf_scf_generic(CAP_V1));
    assert_eq!(cap_gsmsrf_scf(CAP_V2), cap_gsmssf_scf_assist_handoff(CAP_V2));
}

#[test]
fn unknown_phase_is_read_as_phase_3() {
    assert_eq!(cap_gsmssf_scf_generic(0), cap_gsmssf_scf_generic(CAP_V3));
    assert_eq!(cap_sms_ac(7), cap_sms_ac(CAP_V3));
}

#[test]
fn contexts_differ_from_phase_3_on() {
    for v in [CAP_V3, CAP_V4] {
        let all = [
            cap_gsmssf_scf_generic(v),
            cap_gsmssf_scf_assist_handoff(v),
            cap_gsmsrf_scf(v),
            cap_sms_ac(v),
        ];
        for i in 0..all.len() {
            for j in (i + 1)..all.len() {
                assert_ne!(all[i], all[j]);
            }
        }
    }
}

#[test]
fn distinct_phase_and_context_pairs_give_distinct_oids() {
    let pairs = [(CAP_V3, 4), (CAP_V3, 6), (CAP_V3, 10), (CAP_V3, 50), (CAP_V4, 4), (CAP_V4, 6), (CAP_V4, 10), (CAP_V4, 50)];
    for (i, a) in pairs.iter().enumerate() {
        for (j, b) in pairs.iter().enumerate() {
            assert_eq!(i == j, cap_ac(a.0, a.1) == cap_ac(b.0, b.1));
        }
    }
    assert_eq!(arcs(&cap_ac(CAP_V1, 99)), vec![0, 4, 0, 0, 1, 0, 50, 1]);
    assert_eq!(arcs(&cap_ac(7, 99)), vec![0, 4, 0, 0, 1, 21, 3, 99]);
}
