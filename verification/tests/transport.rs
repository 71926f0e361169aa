use obd_core::transport::{command_line, PromptReader};

fn reply(bytes: &[u8]) -> Vec<String> {
    let mut r = PromptReader::new();
    for &b in bytes {
        if r.feed(b) {
            break;
        }
    }
    r.lines()
}

#[test]
fn prompt_ends_the_reply() {
    let mut r = PromptReader::new();
    assert!(!r.feed(b'O'));
    assert!(!r.feed(b'K'));
    assert!(r.feed(b'>'));
    assert_eq!(r.lines(), vec!["OK".to_string()]);
}

#[test]
fn lines_are_split_trimmed_and_upper_cased() {
    assert_eq!(reply(b"410c1af8\r\n\r\n>"), vec!["410C1AF8".to_string()]);
    assert_eq!(
        reply(b"ATZ\r\r  elm327 v1.5 \n\nsearching...\r41 00 BE\r>"),
        vec!["ATZ", "ELM327 V1.5", "SEARCHING...", "41 00 BE"]
    );
    assert_eq!(reply(b">"), Vec::<String>::new());
    assert_eq!(reply(b" \t \r\n"), Vec::<String>::new());
}

#[test]
fn invalid_utf8_is_replaced() {
    assert_eq!(reply(&[b'a', 0xFF, b'b', b'>']), vec!["A\u{FFFD}B".to_string()]);
}

#[test]
fn unicode_upper_case_and_white_space() {
    assert_eq!(reply("\u{3000}straße\u{A0}\r".as_bytes()), vec!["STRASSE".to_string()]);
}

#[test]
fn law_lines_nonempty_on_values() {
    for l in reply(b"\r\n a \r\n\r b\r\r\n") {
        assert!(!l.is_empty());
    }
}

#[test]
fn command_has_carriage_return() {
    assert_eq!(command_line("ATZ"), "ATZ\r");
    assert_eq!(command_line("0100"), "0100\r");
}
