use obd_core::elm327::{check_at_reply, check_obd_reply, join_lines, VehicleInfo};
use obd_core::ObdError;

fn lines(v: &[&str]) -> Vec<String> {
    v.iter().map(|s| s.to_string()).collect()
}

#[test]
fn at_reply_passes_clean_lines() {
    assert_eq!(check_at_reply("ATI", lines(&["ELM327 V1.5"])).unwrap(), lines(&["ELM327 V1.5"]));
    assert_eq!(check_at_reply("ATZ", lines(&[])).unwrap(), Vec::<String>::new());
}

#[test]
fn at_reply_error_names_command_and_line() {
    match check_at_reply("ATSP0", lines(&["OK", "BUS ERROR", "ERROR"])) {
        Err(ObdError::ElmError(m)) => assert_eq!(m, "ATSP0: BUS ERROR"),
        other => panic!("unexpected {:?}", other),
    }
}

#[test]
fn obd_reply_checks() {
    assert!(matches!(check_obd_reply(lines(&[])), Err(ObdError::NoData)));
    assert!(matches!(check_obd_reply(lines(&["NO DATA"])), Err(ObdError::NoData)));
    assert!(matches!(check_obd_reply(lines(&["SEARCHING...", "NODATA"])), Err(ObdError::NoData)));
    match check_obd_reply(lines(&["CAN ERROR"])) {
        Err(ObdError::ElmError(m)) => assert_eq!(m, "CAN ERROR"),
        other => panic!("unexpected {:?}", other),
    }
    assert_eq!(check_obd_reply(lines(&["410C1AF8"])).unwrap(), lines(&["410C1AF8"]));
    // "NO DATA!" is neither a no-data line nor an error line.
    assert_eq!(check_obd_reply(lines(&["NO DATA!"])).unwrap(), lines(&["NO DATA!"]));
}

#[test]
fn joined_lines() {
    assert_eq!(join_lines(&lines(&["ELM327", "v1.5"])), "ELM327 v1.5");
    assert_eq!(join_lines(&lines(&[])), "");
    assert_eq!(join_lines(&lines(&["AUTO, ISO 15765-4 (CAN 11/500)"])), "AUTO, ISO 15765-4 (CAN 11/500)");
}

#[test]
fn vehicle_info_default_is_empty() {
    let v = VehicleInfo::default();
    assert_eq!(v.elm_version, "");
    assert_eq!(v.protocol, "");
}
