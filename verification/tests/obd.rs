use obd_core::obd::{
    bitmap_fits_check, clear_reply, dtcs_from_reply, parse_hex_bytes, pid_reply, pid_request,
    pids_of_bitmap, strip_mode_byte, supported_pids_reply, supported_pids_reply_panics,
};
use obd_core::ObdError;

fn lines(v: &[&str]) -> Vec<String> {
    v.iter().map(|s| s.to_string()).collect()
}

#[test]
fn strip_leading_mode_byte() {
    assert_eq!(strip_mode_byte("410C1AF8", 0x41).unwrap(), "0C1AF8");
}

#[test]
fn strip_searches_for_mode_byte() {
    assert_eq!(strip_mode_byte("7E804410C1AF8", 0x41).unwrap(), "0C1AF8");
}

#[test]
fn strip_missing_mode_byte() {
    match strip_mode_byte("7F0112", 0x41) {
        Err(ObdError::ParseError(m)) => assert_eq!(m, "Expected mode byte 41 in '7F0112'"),
        other => panic!("unexpected {:?}", other),
    }
    match strip_mode_byte("", 0x0A) {
        Err(ObdError::ParseError(m)) => assert_eq!(m, "Expected mode byte 0A in ''"),
        other => panic!("unexpected {:?}", other),
    }
}

#[test]
fn strip_after_non_ascii() {
    assert_eq!(strip_mode_byte("é41ab", 0x41).unwrap(), "ab");
}

#[test]
fn hex_bytes_ignore_other_chars() {
    assert_eq!(parse_hex_bytes("0C 1A f8").unwrap(), vec![0x0C, 0x1A, 0xF8]);
    assert_eq!(parse_hex_bytes("").unwrap(), Vec::<u8>::new());
    assert_eq!(parse_hex_bytes("xyz").unwrap(), Vec::<u8>::new());
}

#[test]
fn odd_hex_digits_are_an_error() {
    match parse_hex_bytes("0C1") {
        Err(ObdError::InvalidHex(m)) => assert_eq!(m, "0C1"),
        other => panic!("unexpected {:?}", other),
    }
}

#[test]
fn law_hex_roundtrip_on_values() {
    let bytes: Vec<u8> = (0..=255u8).collect();
    let text: String = bytes.iter().map(|b| format!("{:02X}", b)).collect();
    assert_eq!(parse_hex_bytes(&text).unwrap(), bytes);
}

#[test]
fn pid_request_text() {
    assert_eq!(pid_request(0x0C), "010C");
    assert_eq!(pid_request(0xA5), "01A5");
}

#[test]
fn pid_reply_decodes_the_bytes_after_the_echo() {
    assert_eq!(pid_reply(0x0C, &lines(&["410C1AF8"])).unwrap(), "Engine RPM: 1726");
    assert_eq!(pid_reply(0x0D, &lines(&["410D32"])).unwrap(), "Vehicle speed: 50 km/h");
    assert_eq!(pid_reply(0x13, &lines(&["411301"])).unwrap(), "PID 0x13: [1]");
    // A full CAN frame: the mode byte is searched for.
    assert_eq!(pid_reply(0x0C, &lines(&["7E804410C1AF8"])).unwrap(), "Engine RPM: 1726");
}

#[test]
fn pid_reply_errors() {
    assert!(matches!(pid_reply(0x0C, &lines(&[])), Err(ObdError::NoData)));
    assert!(matches!(pid_reply(0x0C, &lines(&["7F01"])), Err(ObdError::ParseError(_))));
    assert!(matches!(pid_reply(0x0C, &lines(&["410"])), Err(ObdError::InvalidHex(_))));
    match pid_reply(0x0C, &lines(&["41"])) {
        Err(ObdError::UnsupportedPid(p)) => assert_eq!(p, 0x0C),
        other => panic!("unexpected {:?}", other),
    }
}

#[test]
fn supported_pids_of_standard_reply() {
    // BE 1F A8 13: a common reply.
    let l = lines(&["4100BE1FA813"]);
    assert!(!supported_pids_reply_panics(&l));
    let pids = supported_pids_reply(&l).unwrap();
    assert_eq!(
        pids,
        vec![0x01, 0x03, 0x04, 0x05, 0x06, 0x07, 0x0C, 0x0D, 0x0E, 0x0F, 0x10, 0x11, 0x13, 0x15, 0x1C, 0x1F, 0x20]
    );
}

#[test]
fn supported_pids_of_short_replies() {
    assert_eq!(supported_pids_reply(&lines(&["41"])).unwrap(), Vec::<u8>::new());
    assert_eq!(supported_pids_reply(&lines(&["4100"])).unwrap(), Vec::<u8>::new());
    assert!(matches!(supported_pids_reply(&lines(&[])), Err(ObdError::NoData)));
    assert!(matches!(supported_pids_reply(&lines(&["41008"])), Err(ObdError::InvalidHex(_))));
}

#[test]
fn supported_pids_panic_inputs_are_detected() {
    assert!(supported_pids_reply_panics(&lines(&["410é"])));
    let mut long = String::from("4100");
    for _ in 0..32 {
        long.push_str("01");
    }
    assert!(supported_pids_reply_panics(&lines(&[&long])));
    assert!(!supported_pids_reply_panics(&lines(&["41é"])));
}

#[test]
fn law_supported_pids_sorted_and_announced_on_values() {
    for b in 0..=255u8 {
        let bytes = [b, 0x80, 0x01, b];
        assert!(bitmap_fits_check(&bytes));
        let pids = pids_of_bitmap(&bytes);
        for w in pids.windows(2) {
            assert!(w[0] < w[1]);
        }
        for p in 1..=32u32 {
            let idx = ((p - 1) / 8) as usize;
            let bit = (p - 1) % 8;
            let set = bytes[idx] & (0x80 >> bit) != 0;
            assert_eq!(pids.contains(&(p as u8)), set);
        }
    }
}

#[test]
fn dtcs_from_replies() {
    assert_eq!(dtcs_from_reply(Ok(lines(&["430300"]))).unwrap()[0].code, "P0300");
    assert_eq!(dtcs_from_reply(Err(ObdError::NoData)).unwrap().len(), 0);
    assert!(matches!(dtcs_from_reply(Err(ObdError::Timeout)), Err(ObdError::Timeout)));
}

#[test]
fn clear_replies() {
    assert!(clear_reply(&lines(&["44"])).is_ok());
    assert!(clear_reply(&lines(&["7E8 44"])).is_ok());
    assert!(clear_reply(&lines(&[""])).is_ok());
    assert!(matches!(clear_reply(&lines(&[])), Err(ObdError::NoData)));
    match clear_reply(&lines(&["7F0422"])) {
        Err(ObdError::ParseError(m)) => assert_eq!(m, "Unexpected Mode 04 response: 7F0422"),
        other => panic!("unexpected {:?}", other),
    }
}
