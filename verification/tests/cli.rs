use obd_core::cli::parse_pid;

/// The same parsing done with std (`str::trim`, `u8::from_str_radix`, `str::parse`).
fn reference(s: &str) -> Result<u8, String> {
    let s = s.trim();
    if let Some(hex) = s.strip_prefix("0x").or_else(|| s.strip_prefix("0X")) {
        u8::from_str_radix(hex, 16).map_err(|e| e.to_string())
    } else {
        s.parse::<u8>().map_err(|e| e.to_string())
    }
}

#[test]
fn decimal_and_hex() {
    assert_eq!(parse_pid("12"), Ok(12));
    assert_eq!(parse_pid("0x0C"), Ok(12));
    assert_eq!(parse_pid("0X0c"), Ok(12));
    assert_eq!(parse_pid("  255\n"), Ok(255));
    assert_eq!(parse_pid("+7"), Ok(7));
    assert_eq!(parse_pid("0x+f"), Ok(15));
}

#[test]
fn errors_carry_std_messages() {
    assert_eq!(parse_pid("").unwrap_err(), "cannot parse integer from empty string");
    assert_eq!(parse_pid("0x").unwrap_err(), "cannot parse integer from empty string");
    assert_eq!(parse_pid("12a").unwrap_err(), "invalid digit found in string");
    assert_eq!(parse_pid("-1").unwrap_err(), "invalid digit found in string");
    assert_eq!(parse_pid("+").unwrap_err(), "invalid digit found in string");
    assert_eq!(parse_pid("256").unwrap_err(), "number too large to fit in target type");
    assert_eq!(parse_pid("0x100").unwrap_err(), "number too large to fit in target type");
}

#[test]
fn agrees_with_std_parsing() {
    let samples = [
        "", " ", "0", "00", "007", "99", "255", "256", "2561x", "25x6", "1000", "0x", "0xff", "0XFF",
        "0xFg", "0x0100", "0x00ff", "+", "-", "+0", "-0", "++1", "é", "1é", "\u{2003}42\u{3000}",
        "0x 1", "x12", "0", "12 3", "0b1", "+0x1", "0x+", "0x-1", "١٢",
    ];
    for s in samples {
        assert_eq!(parse_pid(s), reference(s), "input {:?}", s);
    }
    for n in 0..=300u32 {
        let d = n.to_string();
        assert_eq!(parse_pid(&d), reference(&d));
        let h = format!("0x{:X}", n);
        assert_eq!(parse_pid(&h), reference(&h));
    }
}

#[test]
fn laws_decimal_and_hex_roundtrip_on_values() {
    for n in 0..=255u8 {
        assert_eq!(parse_pid(&n.to_string()), Ok(n));
        assert_eq!(parse_pid(&format!("0x{:02X}", n)), Ok(n));
    }
}

#[test]
fn white_space_set_matches_std() {
    for u in 0..=0x3000u32 {
        if let Some(c) = char::from_u32(u) {
            let s = format!("{}7{}", c, c);
            assert_eq!(parse_pid(&s), reference(&s), "char U+{:04X}", u);
        }
    }
}
