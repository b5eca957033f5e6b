//! The exact BER the codec writes, what it refuses to read, and agreement
//! with `rasn` (through the `inap` crate, which shares several CAP types).

use gsm_cap::operations::{
    CancelArg, ConnectArg, ConnectToResourceArg, EventReportBcsmArg, InitialDpArg,
    PlayAnnouncementArg, PromptAndCollectUserInformationArg, PromptAndCollectUserInformationRes,
    ReleaseCallArg, RequestReportBcsmEventArg,
};
use gsm_cap::types::{BcsmEvent, EventTypeBcsm, Integer, LocationInformation, MonitorMode};
use gsm_cap::{decode, encode, CapError};

fn idp(service_key: i64) -> InitialDpArg {
    InitialDpArg {
        service_key: Integer::from_i64(service_key),
        called_party_number: None,
        calling_party_number: None,
        calling_partys_category: None,
        original_called_party_id: None,
        event_type_bcsm: None,
        redirecting_party_id: None,
        imsi: None,
        location_information: None,
        call_reference_number: None,
        msc_address: None,
        called_party_bcd_number: None,
        time_and_timezone: None,
    }
}

fn is_decode_error<T: std::fmt::Debug>(r: Result<T, CapError>) -> bool {
    matches!(r, Err(CapError::Decode(_)))
}

#[test]
fn release_call_bytes() {
    let ber = encode(&ReleaseCallArg { cause: vec![0x90, 0x03] }).unwrap();
    assert_eq!(ber, vec![0x30, 0x04, 0x04, 0x02, 0x90, 0x03]);
}

#[test]
fn event_report_bcsm_bytes() {
    let ber = encode(&EventReportBcsmArg {
        event_type_bcsm: EventTypeBcsm::OAnswer,
        leg_id: Some(vec![0x02]),
        misc_call_info: None,
    })
    .unwrap();
    assert_eq!(ber, vec![0x30, 0x06, 0x80, 0x01, 0x07, 0x82, 0x01, 0x02]);
}

#[test]
fn service_key_is_minimal_twos_complement() {
    assert_eq!(encode(&idp(42)).unwrap(), vec![0x30, 0x03, 0x80, 0x01, 0x2A]);
    assert_eq!(encode(&idp(0)).unwrap(), vec![0x30, 0x03, 0x80, 0x01, 0x00]);
    assert_eq!(encode(&idp(128)).unwrap(), vec![0x30, 0x04, 0x80, 0x02, 0x00, 0x80]);
    assert_eq!(encode(&idp(-1)).unwrap(), vec![0x30, 0x03, 0x80, 0x01, 0xFF]);
    assert_eq!(encode(&idp(-129)).unwrap(), vec![0x30, 0x04, 0x80, 0x02, 0xFF, 0x7F]);
    assert_eq!(
        encode(&idp(i64::MAX)).unwrap(),
        vec![0x30, 0x0A, 0x80, 0x08, 0x7F, 0xFF, 0xFF, 0xFF, 0xFF, 0xFF, 0xFF, 0xFF]
    );
    assert_eq!(
        encode(&idp(i64::MIN)).unwrap(),
        vec![0x30, 0x0A, 0x80, 0x08, 0x80, 0, 0, 0, 0, 0, 0, 0]
    );
    for k in [0, 1, -1, 127, 128, -128, -129, 65535, i64::MAX, i64::MIN] {
        let back: InitialDpArg = decode(&encode(&idp(k)).unwrap()).unwrap();
        assert_eq!(back.service_key.to_i64(), Some(k));
    }
}

#[test]
fn high_tag_numbers_take_a_second_octet() {
    let mut v = idp(0);
    v.time_and_timezone = Some(vec![0x01]);
    assert_eq!(
        encode(&v).unwrap(),
        vec![0x30, 0x07, 0x80, 0x01, 0x00, 0x9F, 0x39, 0x01, 0x01]
    );
    let mut v = idp(0);
    v.location_information = Some(LocationInformation {
        age_of_location_information: Some(Integer::from_i64(5)),
        geographical_information: None,
        vlr_number: None,
        location_number: None,
        cell_global_id_or_service_area_id_or_lai: None,
        msc_number: None,
    });
    let ber = encode(&v).unwrap();
    assert_eq!(
        ber,
        vec![0x30, 0x09, 0x80, 0x01, 0x00, 0xBF, 0x34, 0x03, 0x02, 0x01, 0x05]
    );
    assert_eq!(decode::<InitialDpArg>(&ber).unwrap(), v);
}

#[test]
fn long_contents_take_a_long_length() {
    let cause = vec![0x5A; 200];
    let ber = encode(&ReleaseCallArg { cause: cause.clone() }).unwrap();
    assert_eq!(&ber[..6], &[0x30, 0x81, 0xCB, 0x04, 0x81, 0xC8]);
    assert_eq!(ber.len(), 6 + 200);
    assert_eq!(decode::<ReleaseCallArg>(&ber).unwrap().cause, cause);
}

#[test]
fn connect_bytes() {
    let c = ConnectArg {
        destination_routing_address: vec![vec![0x03, 0x55]],
        original_called_party_id: None,
        calling_partys_category: None,
        redirecting_party_id: None,
        generic_numbers: Some(vec![]),
    };
    assert_eq!(
        encode(&c).unwrap(),
        vec![0x30, 0x08, 0xA0, 0x04, 0x04, 0x02, 0x03, 0x55, 0xAB, 0x00]
    );
    assert_eq!(decode::<ConnectArg>(&encode(&c).unwrap()).unwrap(), c);
}

#[test]
fn request_report_bcsm_bytes() {
    let r = RequestReportBcsmEventArg {
        bcsm_events: vec![BcsmEvent {
            event_type_bcsm: EventTypeBcsm::OAnswer,
            monitor_mode: MonitorMode::NotifyAndContinue,
            leg_id: None,
        }],
    };
    assert_eq!(
        encode(&r).unwrap(),
        vec![0x30, 0x0A, 0xA0, 0x08, 0x30, 0x06, 0x80, 0x01, 0x07, 0x81, 0x01, 0x01]
    );
}

#[test]
fn cancel_is_a_choice() {
    assert_eq!(encode(&CancelArg::InvokeId(Integer::from_i64(5))).unwrap(), vec![0x80, 0x01, 0x05]);
    assert_eq!(encode(&CancelArg::AllRequests).unwrap(), vec![0x81, 0x00]);
    assert_eq!(decode::<CancelArg>(&[0x80, 0x01, 0x05]).unwrap(), CancelArg::InvokeId(Integer::from_i64(5)));
    assert_eq!(decode::<CancelArg>(&[0x81, 0x00]).unwrap(), CancelArg::AllRequests);
    assert!(is_decode_error(decode::<CancelArg>(&[0x82, 0x00])));
    assert!(is_decode_error(decode::<CancelArg>(&[0x81, 0x01, 0x00])));
}

#[test]
fn collected_digits_result() {
    let r = PromptAndCollectUserInformationRes::DigitsResponse(vec![0x01, 0x02]);
    assert_eq!(encode(&r).unwrap(), vec![0x80, 0x02, 0x01, 0x02]);
    assert_eq!(decode::<PromptAndCollectUserInformationRes>(&[0x80, 0x02, 0x01, 0x02]).unwrap(), r);
}

#[test]
fn booleans_and_null() {
    let p = PlayAnnouncementArg {
        information_to_send: vec![0xAA],
        disconnect_from_ip_forbidden: Some(true),
        request_announcement_complete: None,
    };
    assert_eq!(
        encode(&p).unwrap(),
        vec![0x30, 0x06, 0x80, 0x01, 0xAA, 0x81, 0x01, 0xFF]
    );
    // Any non-zero octet reads as TRUE.
    let back: PlayAnnouncementArg =
        decode(&[0x30, 0x09, 0x80, 0x01, 0xAA, 0x81, 0x01, 0x01, 0x82, 0x01, 0x00]).unwrap();
    assert_eq!(back.disconnect_from_ip_forbidden, Some(true));
    assert_eq!(back.request_announcement_complete, Some(false));
    let c = ConnectToResourceArg { resource_address_ipv4: None, resource_address_none: Some(()) };
    assert_eq!(encode(&c).unwrap(), vec![0x30, 0x02, 0x83, 0x00]);
    assert_eq!(decode::<ConnectToResourceArg>(&[0x30, 0x02, 0x83, 0x00]).unwrap(), c);
}

#[test]
fn refused_inputs() {
    assert!(is_decode_error(decode::<ReleaseCallArg>(&[])));
    // Not a SEQUENCE.
    assert!(is_decode_error(decode::<ReleaseCallArg>(&[0x31, 0x04, 0x04, 0x02, 0x90, 0x03])));
    // Truncated.
    assert!(is_decode_error(decode::<ReleaseCallArg>(&[0x30, 0x04, 0x04, 0x02, 0x90])));
    // A required component is missing.
    assert!(is_decode_error(decode::<ReleaseCallArg>(&[0x30, 0x00])));
    // A component too many.
    assert!(is_decode_error(decode::<ReleaseCallArg>(&[
        0x30, 0x07, 0x04, 0x02, 0x90, 0x03, 0x04, 0x01, 0x00
    ])));
    // EventTypeBCSM 8 names no event.
    assert!(is_decode_error(decode::<EventReportBcsmArg>(&[0x30, 0x03, 0x80, 0x01, 0x08])));
    // The end-of-contents identifier is no tag.
    assert!(is_decode_error(decode::<ReleaseCallArg>(&[0x00, 0x00])));
}

#[test]
fn what_follows_a_value_is_not_read() {
    let back: ReleaseCallArg =
        decode(&[0x30, 0x04, 0x04, 0x02, 0x90, 0x03, 0xFF, 0xFF]).unwrap();
    assert_eq!(back.cause, vec![0x90, 0x03]);
}

#[test]
fn long_form_lengths_are_read() {
    let back: ReleaseCallArg = decode(&[0x30, 0x81, 0x04, 0x04, 0x02, 0x90, 0x03]).unwrap();
    assert_eq!(back.cause, vec![0x90, 0x03]);
}

#[test]
fn indefinite_lengths_are_read() {
    let back: ReleaseCallArg =
        decode(&[0x30, 0x80, 0x04, 0x02, 0x90, 0x03, 0x00, 0x00, 0xFF]).unwrap();
    assert_eq!(back.cause, vec![0x90, 0x03]);
    // A SEQUENCE OF and its elements of indefinite length, inside one.
    let r: RequestReportBcsmEventArg = decode(&[
        0x30, 0x80, 0xA0, 0x80, 0x30, 0x80, 0x80, 0x01, 0x07, 0x81, 0x01, 0x01, 0x00, 0x00, 0x30,
        0x06, 0x80, 0x01, 0x09, 0x81, 0x01, 0x00, 0x00, 0x00, 0x00, 0x00,
    ])
    .unwrap();
    assert_eq!(
        r.bcsm_events,
        vec![
            BcsmEvent {
                event_type_bcsm: EventTypeBcsm::OAnswer,
                monitor_mode: MonitorMode::NotifyAndContinue,
                leg_id: None,
            },
            BcsmEvent {
                event_type_bcsm: EventTypeBcsm::ODisconnect,
                monitor_mode: MonitorMode::Interrupted,
                leg_id: None,
            },
        ]
    );
    // Optional components at the end of an indefinite-length SEQUENCE.
    let e: EventReportBcsmArg = decode(&[0x30, 0x80, 0x80, 0x01, 0x07, 0x00, 0x00]).unwrap();
    assert_eq!(e.leg_id, None);
    assert_eq!(e.misc_call_info, None);
}

#[test]
fn bad_indefinite_lengths_are_refused() {
    // No end-of-contents octets.
    assert!(is_decode_error(decode::<ReleaseCallArg>(&[0x30, 0x80, 0x04, 0x02, 0x90, 0x03])));
    // A primitive encoding cannot have the indefinite length.
    assert!(is_decode_error(decode::<ReleaseCallArg>(&[
        0x30, 0x80, 0x04, 0x80, 0x90, 0x03, 0x00, 0x00, 0x00, 0x00
    ])));
    // A component too many before the end-of-contents octets.
    assert!(is_decode_error(decode::<ReleaseCallArg>(&[
        0x30, 0x80, 0x04, 0x02, 0x90, 0x03, 0x04, 0x00, 0x00, 0x00
    ])));
}

#[test]
fn indefinite_lengths_read_as_rasn_reads_them() {
    let ber = [0x30, 0x80, 0x80, 0x01, 0x0F, 0x81, 0x01, 0x02, 0x82, 0x01, 0x05, 0x00, 0x00];
    let theirs: inap::types::BcsmEvent = inap::decode(&ber).unwrap();
    let mine: BcsmEvent = decode(&ber).unwrap();
    assert_eq!(encode(&mine).unwrap(), inap::encode(&theirs).unwrap());
    assert_eq!(mine.leg_id, Some(vec![0x05]));
}

#[test]
fn segmented_octet_strings_are_read() {
    let back: ReleaseCallArg =
        decode(&[0x30, 0x08, 0x24, 0x06, 0x04, 0x01, 0x90, 0x04, 0x01, 0x03]).unwrap();
    assert_eq!(back.cause, vec![0x90, 0x03]);
    let back: ReleaseCallArg = decode(&[
        0x30, 0x80, 0x24, 0x80, 0x04, 0x02, 0x90, 0x03, 0x04, 0x00, 0x00, 0x00, 0x00, 0x00,
    ])
    .unwrap();
    assert_eq!(back.cause, vec![0x90, 0x03]);
    // A segment must be an OCTET STRING.
    assert!(is_decode_error(decode::<ReleaseCallArg>(&[
        0x30, 0x05, 0x24, 0x03, 0x02, 0x01, 0x00
    ])));
    // Segments may be segmented in turn, in either length form.
    let back: ReleaseCallArg = decode(&[
        0x30, 0x0A, 0x24, 0x08, 0x24, 0x03, 0x04, 0x01, 0x90, 0x04, 0x01, 0x03,
    ])
    .unwrap();
    assert_eq!(back.cause, vec![0x90, 0x03]);
    let back: ReleaseCallArg = decode(&[
        0x30, 0x0C, 0x24, 0x0A, 0x24, 0x80, 0x04, 0x01, 0x90, 0x00, 0x00, 0x04, 0x01, 0x03,
    ])
    .unwrap();
    assert_eq!(back.cause, vec![0x90, 0x03]);
    let back: ReleaseCallArg =
        decode(&[0x30, 0x06, 0x24, 0x04, 0x24, 0x02, 0x04, 0x00]).unwrap();
    assert_eq!(back.cause, Vec::<u8>::new());
    // Segments nested past the depth limit are refused.
    let mut deep: Vec<u8> = vec![0x04, 0x00];
    for _ in 0..150 {
        let mut outer = vec![0x24, deep.len() as u8];
        if deep.len() >= 128 {
            outer = vec![0x24, 0x82, (deep.len() >> 8) as u8, deep.len() as u8];
        }
        outer.extend_from_slice(&deep);
        deep = outer;
    }
    let mut ber = vec![0x30, 0x82, (deep.len() >> 8) as u8, deep.len() as u8];
    ber.extend_from_slice(&deep);
    assert!(is_decode_error(decode::<ReleaseCallArg>(&ber)));
}

#[test]
fn nested_segments_are_read() {
    let ber = [
        0x30, 0x0F, 0x80, 0x01, 0x07, 0x81, 0x01, 0x01, 0xA2, 0x07, 0x24, 0x05, 0x04, 0x01, 0x05,
        0x04, 0x00,
    ];
    let mine: BcsmEvent = decode(&ber).unwrap();
    assert_eq!(mine.leg_id, Some(vec![0x05]));
    assert_eq!(
        encode(&mine).unwrap(),
        vec![0x30, 0x09, 0x80, 0x01, 0x07, 0x81, 0x01, 0x01, 0x82, 0x01, 0x05]
    );
    // Primitive and constructed segments mixed, in both length forms.
    let ber = [
        0x30, 0x11, 0x24, 0x0F, 0x04, 0x01, 0xA1, 0x24, 0x03, 0x04, 0x01, 0xB2, 0x24, 0x80, 0x04,
        0x01, 0xC3, 0x00, 0x00,
    ];
    let back: ReleaseCallArg = decode(&ber).unwrap();
    assert_eq!(back.cause, vec![0xA1, 0xB2, 0xC3]);
    // End-of-contents octets inside definite-length contents are stray.
    assert!(is_decode_error(decode::<ReleaseCallArg>(&[
        0x30, 0x07, 0x24, 0x05, 0x04, 0x01, 0xA1, 0x00, 0x00
    ])));
}

#[test]
fn long_lengths_and_tags_are_read() {
    // Nine length octets, eight of them leading zeros.
    let ber = [
        0x30, 0x89, 0, 0, 0, 0, 0, 0, 0, 0, 0x06, 0x80, 0x01, 0x07, 0x81, 0x01, 0x01,
    ];
    let mine: BcsmEvent = decode(&ber).unwrap();
    assert_eq!(mine.event_type_bcsm, EventTypeBcsm::OAnswer);
    assert_eq!(mine.monitor_mode, MonitorMode::NotifyAndContinue);
    // A length of 2^64 is refused.
    let ber = [0x30, 0x89, 0x01, 0, 0, 0, 0, 0, 0, 0, 0, 0x80, 0x01, 0x07, 0x81, 0x01, 0x01];
    assert!(is_decode_error(decode::<BcsmEvent>(&ber)));
    // The tag [2] in the high-tag form, with a leading zero digit.
    let ber = [
        0x30, 0x0B, 0x80, 0x01, 0x07, 0x81, 0x01, 0x01, 0x9F, 0x80, 0x02, 0x01, 0x05,
    ];
    let mine: BcsmEvent = decode(&ber).unwrap();
    assert_eq!(mine.leg_id, Some(vec![0x05]));
    // A tag number of 2^32 + 2 does not fit 32 bits and is refused.
    let ber = [
        0x30, 0x0E, 0x80, 0x01, 0x07, 0x81, 0x01, 0x01, 0x9F, 0x90, 0x80, 0x80, 0x80, 0x02,
        0x01, 0x05,
    ];
    assert!(is_decode_error(decode::<BcsmEvent>(&ber)));
    // 2^32 - 1 fits, but is no component of a BcsmEvent.
    let ber = [
        0x30, 0x0E, 0x80, 0x01, 0x07, 0x81, 0x01, 0x01, 0x9F, 0x8F, 0xFF, 0xFF, 0xFF, 0x7F,
        0x01, 0x05,
    ];
    assert!(is_decode_error(decode::<BcsmEvent>(&ber)));
}

#[test]
fn padded_enumerations_are_read() {
    // oAnswer (7) in nine contents octets.
    let ber = [
        0x30, 0x0E, 0x80, 0x09, 0, 0, 0, 0, 0, 0, 0, 0, 0x07, 0x81, 0x01, 0x01,
    ];
    let mine: BcsmEvent = decode(&ber).unwrap();
    assert_eq!(mine.event_type_bcsm, EventTypeBcsm::OAnswer);
    assert_eq!(
        encode(&mine).unwrap(),
        vec![0x30, 0x06, 0x80, 0x01, 0x07, 0x81, 0x01, 0x01]
    );
    // 2^64 + 7 does not fit 64 bits.
    let ber = [
        0x30, 0x0E, 0x80, 0x09, 0x01, 0, 0, 0, 0, 0, 0, 0, 0x07, 0x81, 0x01, 0x01,
    ];
    assert!(is_decode_error(decode::<BcsmEvent>(&ber)));
}

#[test]
fn service_keys_of_any_size_are_read() {
    // 2^63, one more than the largest 64-bit key: nine contents octets.
    let ber = [0x30, 0x0B, 0x80, 0x09, 0x00, 0x80, 0, 0, 0, 0, 0, 0, 0];
    let back: InitialDpArg = decode(&ber).unwrap();
    assert_eq!(back.service_key.to_i64(), None);
    assert_eq!(encode(&back).unwrap(), ber.to_vec());
    let sms = [0x30, 0x0B, 0x80, 0x09, 0xFF, 0x7F, 0xFF, 0xFF, 0xFF, 0xFF, 0xFF, 0xFF, 0xFF];
    let back: gsm_cap::operations::InitialDpSmsArg = decode(&sms).unwrap();
    assert_eq!(back.service_key.to_i64(), None);
    assert_eq!(encode(&back).unwrap(), sms.to_vec());
}

#[test]
fn padded_integers_read_as_their_value() {
    let back: InitialDpArg = decode(&[0x30, 0x04, 0x80, 0x02, 0x00, 0x2A]).unwrap();
    assert_eq!(back.service_key, Integer::from_i64(42));
    assert_eq!(encode(&back).unwrap(), vec![0x30, 0x03, 0x80, 0x01, 0x2A]);
    let back: InitialDpArg =
        decode(&[0x30, 0x0C, 0x80, 0x0A, 0xFF, 0xFF, 0xFF, 0xFF, 0xFF, 0xFF, 0xFF, 0xFF, 0xFF, 0xFE])
            .unwrap();
    assert_eq!(back.service_key.to_i64(), Some(-2));
    // An INTEGER has at least one contents octet.
    assert!(is_decode_error(decode::<InitialDpArg>(&[0x30, 0x02, 0x80, 0x00])));
}

#[test]
fn decoding_an_encoding_gives_the_value_whatever_follows() {
    let r = RequestReportBcsmEventArg {
        bcsm_events: vec![
            BcsmEvent {
                event_type_bcsm: EventTypeBcsm::TAbandon,
                monitor_mode: MonitorMode::Transparent,
                leg_id: Some(vec![0x01]),
            },
            BcsmEvent {
                event_type_bcsm: EventTypeBcsm::CollectedInfo,
                monitor_mode: MonitorMode::Interrupted,
                leg_id: None,
            },
        ],
    };
    let mut ber = encode(&r).unwrap();
    ber.extend_from_slice(&[0x30, 0x00, 0x42]);
    assert_eq!(decode::<RequestReportBcsmEventArg>(&ber).unwrap(), r);
}

#[test]
fn different_values_have_different_encodings() {
    let a = encode(&CancelArg::InvokeId(Integer::from_i64(0))).unwrap();
    let b = encode(&CancelArg::AllRequests).unwrap();
    assert_ne!(a, b);
    let c = encode(&ReleaseCallArg { cause: vec![] }).unwrap();
    let d = encode(&ReleaseCallArg { cause: vec![0x00] }).unwrap();
    assert_ne!(c, d);
}

#[test]
fn same_bytes_as_rasn_for_shared_types() {
    let mine = BcsmEvent {
        event_type_bcsm: EventTypeBcsm::ODisconnect,
        monitor_mode: MonitorMode::Interrupted,
        leg_id: Some(vec![0x01]),
    };
    let theirs = inap::types::BcsmEvent {
        event_type_bcsm: inap::types::EventTypeBcsm::ODisconnect,
        monitor_mode: inap::types::MonitorMode::Interrupted,
        leg_id: Some(vec![0x01].into()),
    };
    let ber = encode(&mine).unwrap();
    assert_eq!(ber, inap::encode(&theirs).unwrap());
    assert_eq!(inap::decode::<inap::types::BcsmEvent>(&ber).unwrap(), theirs);

    let mine = PlayAnnouncementArg {
        information_to_send: vec![0x10, 0x20],
        disconnect_from_ip_forbidden: Some(false),
        request_announcement_complete: Some(true),
    };
    let theirs = inap::operations::PlayAnnouncementArg {
        information_to_send: vec![0x10, 0x20].into(),
        disconnect_from_ip_forbidden: Some(false),
        request_announcement_complete: Some(true),
    };
    assert_eq!(encode(&mine).unwrap(), inap::encode(&theirs).unwrap());

    let mine = PromptAndCollectUserInformationArg {
        collected_info: vec![0x01],
        disconnect_from_ip_forbidden: None,
        information_to_send: Some(vec![0x02, 0x03]),
    };
    let theirs = inap::operations::PromptAndCollectUserInformationArg {
        collected_info: vec![0x01].into(),
        disconnect_from_ip_forbidden: None,
        information_to_send: Some(vec![0x02, 0x03].into()),
    };
    assert_eq!(encode(&mine).unwrap(), inap::encode(&theirs).unwrap());

    let mine = ConnectToResourceArg {
        resource_address_ipv4: Some(vec![0x0A, 0x00, 0x00, 0x01]),
        resource_address_none: None,
    };
    let theirs = inap::operations::ConnectToResourceArg {
        resource_address_ipv4: Some(vec![0x0A, 0x00, 0x00, 0x01].into()),
        resource_address_none: None,
    };
    assert_eq!(encode(&mine).unwrap(), inap::encode(&theirs).unwrap());

    let mine = PromptAndCollectUserInformationRes::DigitsResponse(vec![0x31, 0x32]);
    let theirs = inap::operations::PromptAndCollectUserInformationRes::DigitsResponse(
        vec![0x31, 0x32].into(),
    );
    assert_eq!(encode(&mine).unwrap(), inap::encode(&theirs).unwrap());
}

#[test]
fn reads_what_rasn_writes() {
    let theirs = inap::types::BcsmEvent {
        event_type_bcsm: inap::types::EventTypeBcsm::TAnswer,
        monitor_mode: inap::types::MonitorMode::NotifyAndContinue,
        leg_id: None,
    };
    let ber = inap::encode(&theirs).unwrap();
    let mine: BcsmEvent = decode(&ber).unwrap();
    assert_eq!(mine.event_type_bcsm, EventTypeBcsm::TAnswer);
    assert_eq!(mine.monitor_mode, MonitorMode::NotifyAndContinue);
    assert_eq!(mine.leg_id, None);
}

#[test]
fn enumerated_values() {
    assert_eq!(EventTypeBcsm::OAnswer.value(), 7);
    assert_eq!(EventTypeBcsm::from_value(18), Some(EventTypeBcsm::TAbandon));
    assert_eq!(EventTypeBcsm::from_value(8), None);
    assert_eq!(MonitorMode::Transparent.value(), 2);
    assert_eq!(gsm_cap::types::EventTypeSms::from_value(11),
        Some(gsm_cap::types::EventTypeSms::SmsDeliveryRequested));
    assert_eq!(gsm_cap::types::EventTypeSms::from_value(4), None);
}

#[test]
fn every_bcsm_event_as_rasn_writes_it() {
    let events = [
        (EventTypeBcsm::CollectedInfo, inap::types::EventTypeBcsm::CollectedInfo),
        (EventTypeBcsm::AnalysedInformation, inap::types::EventTypeBcsm::AnalysedInformation),
        (EventTypeBcsm::RouteSelectFailure, inap::types::EventTypeBcsm::RouteSelectFailure),
        (EventTypeBcsm::OCalledPartyBusy, inap::types::EventTypeBcsm::OCalledPartyBusy),
        (EventTypeBcsm::ONoAnswer, inap::types::EventTypeBcsm::ONoAnswer),
        (EventTypeBcsm::OAnswer, inap::types::EventTypeBcsm::OAnswer),
        (EventTypeBcsm::ODisconnect, inap::types::EventTypeBcsm::ODisconnect),
        (EventTypeBcsm::OAbandon, inap::types::EventTypeBcsm::OAbandon),
        (EventTypeBcsm::TermAttemptAuthorized, inap::types::EventTypeBcsm::TermAttemptAuthorized),
        (EventTypeBcsm::TBusy, inap::types::EventTypeBcsm::TBusy),
        (EventTypeBcsm::TNoAnswer, inap::types::EventTypeBcsm::TNoAnswer),
        (EventTypeBcsm::TAnswer, inap::types::EventTypeBcsm::TAnswer),
        (EventTypeBcsm::TDisconnect, inap::types::EventTypeBcsm::TDisconnect),
        (EventTypeBcsm::TAbandon, inap::types::EventTypeBcsm::TAbandon),
    ];
    let modes = [
        (MonitorMode::Interrupted, inap::types::MonitorMode::Interrupted),
        (MonitorMode::NotifyAndContinue, inap::types::MonitorMode::NotifyAndContinue),
        (MonitorMode::Transparent, inap::types::MonitorMode::Transparent),
    ];
    let legs: [Option<Vec<u8>>; 3] = [None, Some(vec![]), Some(vec![0x01, 0x02])];
    for (e, te) in events.iter() {
        for (m, tm) in modes.iter() {
            for leg in legs.iter() {
                let mine = BcsmEvent { event_type_bcsm: *e, monitor_mode: *m, leg_id: leg.clone() };
                let theirs = inap::types::BcsmEvent {
                    event_type_bcsm: *te,
                    monitor_mode: *tm,
                    leg_id: leg.clone().map(Into::into),
                };
                let ber = encode(&mine).unwrap();
                assert_eq!(ber, inap::encode(&theirs).unwrap());
                assert_eq!(decode::<BcsmEvent>(&ber).unwrap(), mine);
                assert_eq!(inap::decode::<inap::types::BcsmEvent>(&ber).unwrap(), theirs);
            }
        }
    }
}

#[test]
fn long_contents_as_rasn_writes_them() {
    for n in [0usize, 1, 127, 128, 255, 256, 1000, 70000] {
        let info = vec![0xA5; n];
        let mine = PromptAndCollectUserInformationArg {
            collected_info: info.clone(),
            disconnect_from_ip_forbidden: Some(true),
            information_to_send: None,
        };
        let theirs = inap::operations::PromptAndCollectUserInformationArg {
            collected_info: info.clone().into(),
            disconnect_from_ip_forbidden: Some(true),
            information_to_send: None,
        };
        let ber = encode(&mine).unwrap();
        assert_eq!(ber, inap::encode(&theirs).unwrap());
        assert_eq!(decode::<PromptAndCollectUserInformationArg>(&ber).unwrap(), mine);
    }
}
