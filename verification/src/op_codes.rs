//! CAP operation codes (local operation values used in TCAP Invoke components),
//! 3GPP TS 29.078.

use vstd::prelude::*;

verus! {

/// Call-control and specialised-resource operations.
pub const INITIAL_DP: i64 = 0;
pub const CONNECT_TO_RESOURCE: i64 = 19;
pub const CONNECT: i64 = 20;
pub const RELEASE_CALL: i64 = 22;
pub const REQUEST_REPORT_BCSM_EVENT: i64 = 23;
pub const EVENT_REPORT_BCSM: i64 = 24;
pub const CONTINUE: i64 = 31;
pub const FURNISH_CHARGING_INFORMATION: i64 = 34;
pub const APPLY_CHARGING: i64 = 35;
pub const APPLY_CHARGING_REPORT: i64 = 36;
pub const PLAY_ANNOUNCEMENT: i64 = 47;
pub const PROMPT_AND_COLLECT_USER_INFORMATION: i64 = 48;
pub const SPECIALIZED_RESOURCE_REPORT: i64 = 49;
pub const CANCEL: i64 = 53;
pub const ACTIVITY_TEST: i64 = 55;

/// CAMEL-for-SMS operations (CAP v3+).
pub const INITIAL_DP_SMS: i64 = 60;
pub const CONNECT_SMS: i64 = 61;
pub const RELEASE_SMS: i64 = 62;
pub const REQUEST_REPORT_SMS_EVENT: i64 = 63;
pub const EVENT_REPORT_SMS: i64 = 64;
pub const CONTINUE_SMS: i64 = 65;

/// The table of well-known CAP operations: the name of `code`, or `None` when
/// `code` is not one of the operation codes above.
pub open spec fn spec_operation_name(code: i64) -> Option<Seq<char>> {
    if code == INITIAL_DP {
        Some("initialDP"@)
    } else if code == CONNECT_TO_RESOURCE {
        Some("connectToResource"@)
    } else if code == CONNECT {
        Some("connect"@)
    } else if code == RELEASE_CALL {
        Some("releaseCall"@)
    } else if code == REQUEST_REPORT_BCSM_EVENT {
        Some("requestReportBCSMEvent"@)
    } else if code == EVENT_REPORT_BCSM {
        Some("eventReportBCSM"@)
    } else if code == CONTINUE {
        Some("continue"@)
    } else if code == FURNISH_CHARGING_INFORMATION {
        Some("furnishChargingInformation"@)
    } else if code == APPLY_CHARGING {
        Some("applyCharging"@)
    } else if code == APPLY_CHARGING_REPORT {
        Some("applyChargingReport"@)
    } else if code == PLAY_ANNOUNCEMENT {
        Some("playAnnouncement"@)
    } else if code == PROMPT_AND_COLLECT_USER_INFORMATION {
        Some("promptAndCollectUserInformation"@)
    } else if code == SPECIALIZED_RESOURCE_REPORT {
        Some("specializedResourceReport"@)
    } else if code == CANCEL {
        Some("cancel"@)
    } else if code == ACTIVITY_TEST {
        Some("activityTest"@)
    } else if code == INITIAL_DP_SMS {
        Some("initialDPSMS"@)
    } else if code == CONNECT_SMS {
        Some("connectSMS"@)
    } else if code == RELEASE_SMS {
        Some("releaseSMS"@)
    } else if code == REQUEST_REPORT_SMS_EVENT {
        Some("requestReportSMSEvent"@)
    } else if code == EVENT_REPORT_SMS {
        Some("eventReportSMS"@)
    } else if code == CONTINUE_SMS {
        Some("continueSMS"@)
    } else {
        None
    }
}

/// No two operation codes share a name, so a name identifies its code.
pub proof fn lemma_names_distinct(c1: i64, c2: i64)
    requires
        c1 != c2,
        spec_operation_name(c1) is Some,
    ensures
        spec_operation_name(c1) != spec_operation_name(c2),
{
    reveal_strlit("initialDP");
    reveal_strlit("connectToResource");
    reveal_strlit("connect");
    reveal_strlit("releaseCall");
    reveal_strlit("requestReportBCSMEvent");
    reveal_strlit("eventReportBCSM");
    reveal_strlit("continue");
    reveal_strlit("furnishChargingInformation");
    reveal_strlit("applyCharging");
    reveal_strlit("applyChargingReport");
    reveal_strlit("playAnnouncement");
    reveal_strlit("promptAndCollectUserInformation");
    reveal_strlit("specializedResourceReport");
    reveal_strlit("cancel");
    reveal_strlit("activityTest");
    reveal_strlit("initialDPSMS");
    reveal_strlit("connectSMS");
    reveal_strlit("releaseSMS");
    reveal_strlit("requestReportSMSEvent");
    reveal_strlit("eventReportSMS");
    reveal_strlit("continueSMS");
    if spec_operation_name(c2) is Some {
        let n1 = spec_operation_name(c1)->Some_0;
        let n2 = spec_operation_name(c2)->Some_0;
        if n1 == n2 {
            assert(n1.len() == n2.len() && n1[0] == n2[0]);
        }
    }
}

/// The operation codes of TS 29.078 and their names: initialDP 0,
/// connectToResource 19, connect 20, releaseCall 22, requestReportBCSMEvent
/// 23, eventReportBCSM 24, continue 31, furnishChargingInformation 34,
/// applyCharging 35, applyChargingReport 36, playAnnouncement 47,
/// promptAndCollectUserInformation 48, specializedResourceReport 49, cancel
/// 53, activityTest 55, initialDPSMS 60, connectSMS 61, releaseSMS 62,
/// requestReportSMSEvent 63, eventReportSMS 64 and continueSMS 65. Every
/// other code has no name.
pub proof fn lemma_operation_table(c: i64)
    ensures
        spec_operation_name(0) == Some("initialDP"@),
        spec_operation_name(19) == Some("connectToResource"@),
        spec_operation_name(20) == Some("connect"@),
        spec_operation_name(22) == Some("releaseCall"@),
        spec_operation_name(23) == Some("requestReportBCSMEvent"@),
        spec_operation_name(24) == Some("eventReportBCSM"@),
        spec_operation_name(31) == Some("continue"@),
        spec_operation_name(34) == Some("furnishChargingInformation"@),
        spec_operation_name(35) == Some("applyCharging"@),
        spec_operation_name(36) == Some("applyChargingReport"@),
        spec_operation_name(47) == Some("playAnnouncement"@),
        spec_operation_name(48) == Some("promptAndCollectUserInformation"@),
        spec_operation_name(49) == Some("specializedResourceReport"@),
        spec_operation_name(53) == Some("cancel"@),
        spec_operation_name(55) == Some("activityTest"@),
        spec_operation_name(60) == Some("initialDPSMS"@),
        spec_operation_name(61) == Some("connectSMS"@),
        spec_operation_name(62) == Some("releaseSMS"@),
        spec_operation_name(63) == Some("requestReportSMSEvent"@),
        spec_operation_name(64) == Some("eventReportSMS"@),
        spec_operation_name(65) == Some("continueSMS"@),
        spec_operation_name(c) is Some <==> (c == 0 || c == 19 || c == 20 || c == 22 || c == 23 || c == 24 || c == 31 || c == 34 || c == 35 || c == 36 || c == 47 || c == 48 || c == 49 || c == 53 || c == 55 || c == 60 || c == 61 || c == 62 || c == 63 || c == 64 || c == 65),
{
}

/// The name of a well-known CAP operation code, if any.
pub fn operation_name(code: i64) -> (name: Option<&'static str>)
    ensures
        name.is_some() == spec_operation_name(code).is_some(),
        name matches Some(s) ==> s@ == spec_operation_name(code).unwrap(),
{
    if code == INITIAL_DP {
        Some("initialDP")
    } else if code == CONNECT_TO_RESOURCE {
        Some("connectToResource")
    } else if code == CONNECT {
        Some("connect")
    } else if code == RELEASE_CALL {
        Some("releaseCall")
    } else if code == REQUEST_REPORT_BCSM_EVENT {
        Some("requestReportBCSMEvent")
    } else if code == EVENT_REPORT_BCSM {
        Some("eventReportBCSM")
    } else if code == CONTINUE {
        Some("continue")
    } else if code == FURNISH_CHARGING_INFORMATION {
        Some("furnishChargingInformation")
    } else if code == APPLY_CHARGING {
        Some("applyCharging")
    } else if code == APPLY_CHARGING_REPORT {
        Some("applyChargingReport")
    } else if code == PLAY_ANNOUNCEMENT {
        Some("playAnnouncement")
    } else if code == PROMPT_AND_COLLECT_USER_INFORMATION {
        Some("promptAndCollectUserInformation")
    } else if code == SPECIALIZED_RESOURCE_REPORT {
        Some("specializedResourceReport")
    } else if code == CANCEL {
        Some("cancel")
    } else if code == ACTIVITY_TEST {
        Some("activityTest")
    } else if code == INITIAL_DP_SMS {
        Some("initialDPSMS")
    } else if code == CONNECT_SMS {
        Some("connectSMS")
    } else if code == RELEASE_SMS {
        Some("releaseSMS")
    } else if code == REQUEST_REPORT_SMS_EVENT {
        Some("requestReportSMSEvent")
    } else if code == EVENT_REPORT_SMS {
        Some("eventReportSMS")
    } else if code == CONTINUE_SMS {
        Some("continueSMS")
    } else {
        None
    }
}

} // verus!
