use obd_core::dtc::{decode_dtc_bytes, dtc_response_splits_char, lookup_dtc, parse_dtc_response, Dtc};
use obd_core::ObdError;

#[test]
fn decode_p0300() {
    let dtc = decode_dtc_bytes(0x03, 0x00).unwrap();
    assert_eq!(dtc.code, "P0300");
    assert!(dtc.description.unwrap().contains("misfire"));
}

#[test]
fn decode_p0171_lean() {
    let dtc = decode_dtc_bytes(0x01, 0x71).unwrap();
    assert_eq!(dtc.code, "P0171");
}

#[test]
fn decode_body_code() {
    // B0101 → high=0x81, low=0x01  (bits 15-14 = 10 → B, d1=0, d2=1, d3=0, d4=1)
    let dtc = decode_dtc_bytes(0x81, 0x01).unwrap();
    assert_eq!(dtc.code, "B0101");
}

#[test]
fn decode_network_code() {
    // U0100 → high=0xC1, low=0x00
    let dtc = decode_dtc_bytes(0xC1, 0x00).unwrap();
    assert_eq!(dtc.code, "U0100");
}

#[test]
fn padding_bytes_skipped() {
    // 43 (mode) + 0102 (P0102) + 0000 (padding) → after stripping "43": 01020000
    let lines = vec!["4301020000".to_string()];
    let dtcs = parse_dtc_response(&lines).unwrap();
    // 0x0102 → P0102, 0x0000 → skipped
    assert_eq!(dtcs.len(), 1);
    assert_eq!(dtcs[0].code, "P0102");
}

#[test]
fn parse_multiple_dtcs() {
    // 43 + 0300 + 0171  → P0300 + P0171
    let lines = vec!["4303000171".to_string()];
    let dtcs = parse_dtc_response(&lines).unwrap();
    assert_eq!(dtcs.len(), 2);
    assert_eq!(dtcs[0].code, "P0300");
    assert_eq!(dtcs[1].code, "P0171");
}

#[test]
fn zero_zero_is_err() {
    assert!(decode_dtc_bytes(0x00, 0x00).is_err());
}

// ---------------------------------------------------------------------------

/// The codes as `format!("{}{}{:X}{:X}{:X}", ...)` writes them from the bit fields.
fn reference_code(high: u8, low: u8) -> String {
    let system = ['P', 'C', 'B', 'U'][((high >> 6) & 0x03) as usize];
    format!("{}{}{:X}{:X}{:X}", system, (high >> 4) & 0x03, high & 0x0F, (low >> 4) & 0x0F, low & 0x0F)
}

#[test]
fn every_byte_pair_decodes_to_its_code() {
    for high in 0..=255u8 {
        for low in 0..=255u8 {
            let r = decode_dtc_bytes(high, low);
            if high == 0 && low == 0 {
                assert!(r.is_err());
            } else {
                let d = r.unwrap();
                assert_eq!(d.code, reference_code(high, low));
                assert_eq!(d.description, lookup_dtc(&d.code));
            }
        }
    }
}

#[test]
fn padding_error_message() {
    match decode_dtc_bytes(0, 0) {
        Err(ObdError::ParseError(m)) => assert_eq!(m, "padding byte 0x0000 is not a DTC"),
        other => panic!("unexpected {:?}", other),
    }
}

#[test]
fn chassis_code_and_unknown_description() {
    let d = decode_dtc_bytes(0x42, 0x34).unwrap();
    assert_eq!(d.code, "C0234");
    assert_eq!(d.description, None);
    assert_eq!(d.to_string(), "C0234 – (unknown/manufacturer-specific)");
}

#[test]
fn known_code_text() {
    let d = decode_dtc_bytes(0x04, 0x20).unwrap();
    assert_eq!(d.code, "P0420");
    assert_eq!(d.to_string(), "P0420 – Catalyst efficiency below threshold B1");
}

#[test]
fn lookup_fiat_codes() {
    assert_eq!(lookup_dtc("P1655"), Some("Fiat: throttle actuator control – limp home mode active"));
    assert_eq!(lookup_dtc("P1780"), Some("Fiat: drive-by-wire throttle motor open circuit"));
    assert_eq!(lookup_dtc("P0100"), Some("Mass Air Flow sensor – circuit malfunction"));
    assert_eq!(lookup_dtc("P9999"), None);
    assert_eq!(lookup_dtc(""), None);
}

#[test]
fn pending_and_permanent_mode_bytes_are_stripped() {
    let lines = vec!["470300".to_string(), "4A0171".to_string()];
    let dtcs = parse_dtc_response(&lines).unwrap();
    let codes: Vec<&str> = dtcs.iter().map(|d| d.code.as_str()).collect();
    assert_eq!(codes, vec!["P0300", "P0171"]);
}

#[test]
fn line_without_mode_byte_is_read_whole() {
    let lines = vec!["0301".to_string()];
    let dtcs = parse_dtc_response(&lines).unwrap();
    assert_eq!(dtcs.len(), 1);
    assert_eq!(dtcs[0].code, "P0301");
}

#[test]
fn odd_length_is_an_error() {
    let lines = vec!["43010".to_string()];
    match parse_dtc_response(&lines) {
        Err(ObdError::ParseError(m)) => assert_eq!(m, "odd DTC hex length: 010"),
        other => panic!("unexpected {:?}", other),
    }
}

#[test]
fn bad_hex_group_is_reported() {
    let lines = vec!["430300ZZ01".to_string()];
    match parse_dtc_response(&lines) {
        Err(ObdError::InvalidHex(m)) => assert_eq!(m, "ZZ01"),
        other => panic!("unexpected {:?}", other),
    }
}

#[test]
fn plus_sign_is_not_hex() {
    let lines = vec!["+300".to_string()];
    match parse_dtc_response(&lines) {
        Err(ObdError::InvalidHex(g)) => assert_eq!(g, "+300"),
        other => panic!("unexpected: {:?}", other),
    }
}

#[test]
fn signed_pairs_are_not_hex() {
    let lines = vec!["+1+1".to_string()];
    match parse_dtc_response(&lines) {
        Err(ObdError::InvalidHex(g)) => assert_eq!(g, "+1+1"),
        other => panic!("unexpected: {:?}", other),
    }
}

#[test]
fn lower_case_hex_is_read() {
    let lines = vec!["01ab".to_string()];
    let dtcs = parse_dtc_response(&lines).unwrap();
    assert_eq!(dtcs[0].code, "P01AB");
}

#[test]
fn non_ascii_group_is_bad_hex_not_a_panic() {
    // "é" takes two bytes: "é00" is one four-byte group.
    let lines = vec!["é00".to_string()];
    assert!(!dtc_response_splits_char(&lines));
    match parse_dtc_response(&lines) {
        Err(ObdError::InvalidHex(m)) => assert_eq!(m, "é00"),
        other => panic!("unexpected {:?}", other),
    }
}

#[test]
fn splitting_a_char_is_detected() {
    // "0é0": byte 2 falls inside "é", where slicing panics.
    let lines = vec!["0é0".to_string()];
    assert!(dtc_response_splits_char(&lines));
}

#[test]
fn first_failing_line_decides() {
    let lines = vec!["430100".to_string(), "43GG00".to_string(), "431".to_string()];
    match parse_dtc_response(&lines) {
        Err(ObdError::InvalidHex(m)) => assert_eq!(m, "GG00"),
        other => panic!("unexpected {:?}", other),
    }
}

#[test]
fn empty_response_has_no_dtcs() {
    let lines: Vec<String> = vec![];
    assert_eq!(parse_dtc_response(&lines).unwrap(), Vec::<Dtc>::new());
    let lines = vec!["43".to_string(), "".to_string()];
    assert_eq!(parse_dtc_response(&lines).unwrap().len(), 0);
}

#[test]
fn law_concat_lines_on_values() {
    let a = vec!["430300".to_string()];
    let b = vec!["470171".to_string()];
    let both: Vec<String> = a.iter().chain(b.iter()).cloned().collect();
    let mut expected = parse_dtc_response(&a).unwrap();
    expected.extend(parse_dtc_response(&b).unwrap());
    assert_eq!(parse_dtc_response(&both).unwrap(), expected);
}

#[test]
fn law_read_back_pairs_on_values() {
    let pairs = [(0x01u8, 0x71u8), (0, 0), (0xC1, 0x00), (0x81, 0x01)];
    let mut line = String::from("43");
    for (h, l) in pairs {
        line.push_str(&format!("{:02X}{:02X}", h, l));
    }
    let dtcs = parse_dtc_response(&[line]).unwrap();
    let codes: Vec<String> = dtcs.into_iter().map(|d| d.code).collect();
    assert_eq!(codes, vec!["P0171", "U0100", "B0101"]);
}

#[test]
fn law_code_is_injective_on_values() {
    let mut seen = std::collections::HashSet::new();
    for high in 0..=255u8 {
        for low in 0..=255u8 {
            if high == 0 && low == 0 {
                continue;
            }
            assert!(seen.insert(decode_dtc_bytes(high, low).unwrap().code));
        }
    }
}
