//! The plain values behind the Python bindings.

use gsm_cap::python::{
    cap_gsmssf_scf_generic, cap_sms_ac, PyApplyChargingArg, PyBcsmEvent, PyConnectArg,
    PyEventReportBcsmArg, PyEventTypeBcsm, PyEventTypeSms, PyInitialDpArg, PyInitialDpSmsArg,
    PyMonitorMode, PyReleaseCallArg, PyRequestReportBcsmEventArg,
};
use gsm_cap::types::{EventTypeBcsm, EventTypeSms, MonitorMode};

#[test]
fn enums_convert_both_ways() {
    assert_eq!(PyEventTypeBcsm::OAnswer.to_core(), EventTypeBcsm::OAnswer);
    assert_eq!(PyEventTypeBcsm::from_core(EventTypeBcsm::TAbandon), PyEventTypeBcsm::TAbandon);
    assert_eq!(PyEventTypeBcsm::OAnswer.value(), 7);
    assert_eq!(PyMonitorMode::from_core(MonitorMode::Transparent).to_core(), MonitorMode::Transparent);
    assert_eq!(PyEventTypeSms::TSmsDelivery.to_core(), EventTypeSms::TSmsDelivery);
    assert_eq!(PyEventTypeSms::SmsDeliveryRequested.value(), 11);
}

#[test]
fn initial_dp_through_python_values() {
    let p = PyInitialDpArg::new(
        42,
        Some(vec![0x03, 0x55, 0x01, 0x23]),
        None,
        Some(PyEventTypeBcsm::CollectedInfo),
        None,
        None,
        None,
    );
    let ber = p.encode().unwrap();
    assert_eq!(
        ber,
        vec![0x30, 0x0C, 0x80, 0x01, 0x2A, 0x82, 0x04, 0x03, 0x55, 0x01, 0x23, 0x9C, 0x01, 0x02]
    );
    assert_eq!(PyInitialDpArg::decode(&ber).unwrap(), p);
    let core = p.to_core();
    assert_eq!(core.calling_partys_category, None);
    assert_eq!(PyInitialDpArg::from_core(&core), p);
}

#[test]
fn initial_dp_bytes_through_python_values() {
    let p = PyInitialDpArg::new(42, None, None, Some(PyEventTypeBcsm::CollectedInfo), None, None, None);
    assert_eq!(p.encode().unwrap(), vec![0x30, 0x06, 0x80, 0x01, 0x2A, 0x9C, 0x01, 0x02]);
}

#[test]
fn other_operations_through_python_values() {
    let c = PyConnectArg::new(vec![vec![0x03, 0x55], vec![0x04]]);
    assert_eq!(PyConnectArg::decode(&c.encode().unwrap()).unwrap(), c);

    let r = PyReleaseCallArg::new(vec![0x90, 0x03]);
    assert_eq!(r.encode().unwrap(), vec![0x30, 0x04, 0x04, 0x02, 0x90, 0x03]);
    assert_eq!(PyReleaseCallArg::decode(&r.encode().unwrap()).unwrap(), r);

    let q = PyRequestReportBcsmEventArg::new(vec![
        PyBcsmEvent::new(PyEventTypeBcsm::OAnswer, PyMonitorMode::NotifyAndContinue, None),
        PyBcsmEvent::new(PyEventTypeBcsm::ODisconnect, PyMonitorMode::Interrupted, Some(vec![0x01])),
    ]);
    assert_eq!(PyRequestReportBcsmEventArg::decode(&q.encode().unwrap()).unwrap(), q);

    let e = PyEventReportBcsmArg::new(PyEventTypeBcsm::OAnswer, Some(vec![0x02]), None);
    assert_eq!(e.encode().unwrap(), vec![0x30, 0x06, 0x80, 0x01, 0x07, 0x82, 0x01, 0x02]);
    assert_eq!(PyEventReportBcsmArg::decode(&e.encode().unwrap()).unwrap(), e);

    let a = PyApplyChargingArg::new(vec![0x00, 0x01, 0x02], Some(vec![0x02]));
    assert_eq!(PyApplyChargingArg::decode(&a.encode().unwrap()).unwrap(), a);

    let s = PyInitialDpSmsArg::new(7, Some(vec![0x91]), None, Some(PyEventTypeSms::OSmsSubmission), None, Some(vec![0x91, 0x55]));
    assert_eq!(PyInitialDpSmsArg::decode(&s.encode().unwrap()).unwrap(), s);
}

#[test]
fn python_sees_only_its_components() {
    // An InitialDP with a component Python does not carry decodes to the
    // components Python does.
    let ber = [0x30, 0x06, 0x80, 0x01, 0x2A, 0x85, 0x01, 0x0A];
    let p = PyInitialDpArg::decode(&ber).unwrap();
    assert_eq!(p, PyInitialDpArg::new(42, None, None, None, None, None, None));
}

#[test]
fn decode_errors_reach_python() {
    assert!(matches!(PyReleaseCallArg::decode(&[0x30]), Err(gsm_cap::CapError::Decode(_))));
}

#[test]
fn application_context_arcs() {
    assert_eq!(cap_gsmssf_scf_generic(3), vec![0, 4, 0, 0, 1, 21, 3, 4]);
    assert_eq!(cap_sms_ac(4), vec![0, 4, 0, 0, 1, 23, 3, 50]);
}

#[test]
fn keys_beyond_64_bits_reach_python_as_zero() {
    // InitialDPSMS with service key 2^63 and a destination number.
    let ber = [
        0x30, 0x10, 0x80, 0x09, 0x00, 0x80, 0, 0, 0, 0, 0, 0, 0, 0x81, 0x03, 0x91, 0x55, 0x01,
    ];
    let p = PyInitialDpSmsArg::decode(&ber).unwrap();
    assert_eq!(p.service_key, 0);
    assert_eq!(p.destination_subscriber_number, Some(vec![0x91, 0x55, 0x01]));
    let idp = [0x30, 0x0B, 0x80, 0x09, 0x00, 0x80, 0, 0, 0, 0, 0, 0, 0];
    assert_eq!(PyInitialDpArg::decode(&idp).unwrap().service_key, 0);
}

#[test]
fn decode_error_message() {
    match PyReleaseCallArg::decode(&[0x30]) {
        Err(gsm_cap::CapError::Decode(m)) => assert_eq!(m, gsm_cap::codec::DECODE_FAILURE),
        _ => panic!("expected a decode error"),
    }
    assert_eq!(gsm_cap::python::cap_gsmssf_scf_assist_handoff(4), vec![0, 4, 0, 0, 1, 23, 3, 6]);
    assert_eq!(gsm_cap::python::cap_gsmsrf_scf(3), vec![0, 4, 0, 0, 1, 21, 3, 10]);
}

#[test]
fn python_reprs() {
    let ev = PyBcsmEvent::new(PyEventTypeBcsm::OAnswer, PyMonitorMode::from_core(MonitorMode::Transparent), None);
    assert_eq!(ev.repr(), "BcsmEvent(event_type_bcsm=7, monitor_mode=2)");
    let idp = PyInitialDpArg::new(42, None, None, None, None, None, None);
    assert_eq!(idp.repr(), "InitialDpArg(service_key=42)");
    let idp = PyInitialDpArg::new(i64::MIN, None, None, None, None, None, None);
    assert_eq!(idp.repr(), "InitialDpArg(service_key=-9223372036854775808)");
    let sms = PyInitialDpSmsArg::new(-305, None, None, None, None, None);
    assert_eq!(sms.repr(), "InitialDpSmsArg(service_key=-305)");
    let sms = PyInitialDpSmsArg::new(0, None, None, None, None, None);
    assert_eq!(sms.repr(), "InitialDpSmsArg(service_key=0)");
    let con = PyConnectArg::new(vec![vec![1], vec![2, 3]]);
    assert_eq!(con.repr(), "ConnectArg(destination_routing_address=[2 addr])");
    let rel = PyReleaseCallArg::new(vec![0x80, 0x90, 0x01, 0x02, 0x03, 0x04, 0x05, 0x06, 0x07, 0x08, 0x09, 0x10]);
    assert_eq!(rel.repr(), "ReleaseCallArg(cause=12 bytes)");
    let rr = PyRequestReportBcsmEventArg::new(vec![ev.clone(), ev]);
    assert_eq!(rr.repr(), "RequestReportBcsmEventArg(bcsm_events=[2 events])");
    let er = PyEventReportBcsmArg::new(PyEventTypeBcsm::TAbandon, None, None);
    assert_eq!(er.repr(), format!("EventReportBcsmArg(event_type_bcsm={})", PyEventTypeBcsm::TAbandon.value()));
    let ac = PyApplyChargingArg::new(vec![0xA0], None);
    assert_eq!(ac.repr(), "ApplyChargingArg(..)");
}

#[test]
fn error_messages() {
    assert_eq!(gsm_cap::CapError::Encode("x".to_string()).message(), "CAP encode error: x");
    assert_eq!(
        gsm_cap::CapError::Decode(gsm_cap::codec::DECODE_FAILURE.to_string()).message(),
        format!("CAP decode error: {}", gsm_cap::codec::DECODE_FAILURE)
    );
    assert_eq!(gsm_cap::CapError::UnknownOperation(99).message(), "unknown CAP operation code: 99");
    assert_eq!(gsm_cap::CapError::UnknownOperation(-7).message(), "unknown CAP operation code: -7");
    assert_eq!(
        gsm_cap::CapError::UnknownOperation(i64::MIN).message(),
        "unknown CAP operation code: -9223372036854775808"
    );
}
