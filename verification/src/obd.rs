use vstd::prelude::*;

use crate::dtc::{dtc_result_matches, parse_dtc_response, scan_lines, texts, Dtc};
use crate::error::{is_fault, Fault, ObdError};
use crate::pid::{decode_pid, pid_text};
use crate::text::{
    boundary_from, byte_boundary, chars_in_bytes, chars_in_bytes_from, chars_of, contains,
    contains_text,
    find_from, find_text, hex_byte, hex_value, hex_value_of, lemma_chars_in_bytes_bound,
    lemma_find_from, push_hex_byte, push_str, utf8_len, utf8_len_from,
};

verus! {

// ---------------------------------------------------------------------------
// Hex parsing helpers
// ---------------------------------------------------------------------------

/// What `strip_mode_byte` gives: the text after the first occurrence of the
/// mode byte in upper-case hex, or the error naming the missing mode byte.
pub open spec fn strip_mode_text(line: Seq<char>, mode: u8) -> Result<Seq<char>, Fault> {
    match find_from(line, hex_byte(mode), 0) {
        Some(p) => Ok(line.skip(p + 2)),
        None => Err(
            Fault::Parse("Expected mode byte "@ + hex_byte(mode) + " in '"@ + line + "'"@),
        ),
    }
}

/// The hex digit chars of `s`, in order (`is_ascii_hexdigit`).
pub open spec fn hex_digits_of(s: Seq<char>) -> Seq<char>
    decreases s.len(),
{
    if s.len() == 0 {
        seq![]
    } else if hex_value(s.last()) is Some {
        hex_digits_of(s.drop_last()).push(s.last())
    } else {
        hex_digits_of(s.drop_last())
    }
}

/// The bytes that consecutive pairs of hex digits spell.
pub open spec fn hex_pairs(d: Seq<char>) -> Seq<u8> {
    Seq::new(
        d.len() / 2,
        |i: int| (16 * hex_value(d[2 * i])->0 + hex_value(d[2 * i + 1])->0) as u8,
    )
}

/// What `parse_hex_bytes` gives: the bytes spelled by the hex digits of the
/// text (other chars are ignored), or an error when their number is odd.
pub open spec fn hex_bytes_text(hex: Seq<char>) -> Result<Seq<u8>, Fault> {
    let d = hex_digits_of(hex);
    if d.len() % 2 != 0 {
        Err(Fault::InvalidHex(hex))
    } else {
        Ok(hex_pairs(d))
    }
}

/// A text result is `t`'s text, or `t`'s error.
pub open spec fn text_result_is(r: Result<String, ObdError>, t: Result<Seq<char>, Fault>) -> bool {
    match t {
        Ok(s) => r matches Ok(v) && v@ == s,
        Err(f) => r matches Err(e) && is_fault(e, f),
    }
}

/// A byte-list result is `t`'s bytes, or `t`'s error.
pub open spec fn bytes_result_is(r: Result<Vec<u8>, ObdError>, t: Result<Seq<u8>, Fault>) -> bool {
    match t {
        Ok(s) => r matches Ok(v) && v@ == s,
        Err(f) => r matches Err(e) && is_fault(e, f),
    }
}

/// Every char that `hex_digits_of` keeps is a hex digit.
proof fn lemma_hex_digits_are_hex(s: Seq<char>)
    ensures
        forall|k: int|
            0 <= k < hex_digits_of(s).len() ==> #[trigger] hex_value(hex_digits_of(s)[k]) is Some,
    decreases s.len(),
{
    if s.len() > 0 {
        lemma_hex_digits_are_hex(s.drop_last());
    }
}

/// Drops everything up to and including the expected mode byte (in hex).
///
/// Adapters may send the whole frame, so the mode byte is searched for when
/// the line does not start with it.
pub fn strip_mode_byte(line: &str, expected_mode: u8) -> (r: Result<String, ObdError>)
    ensures
        text_result_is(r, strip_mode_text(line@, expected_mode)),
{
    let mut mode_hex = String::new();
    push_hex_byte(&mut mode_hex, expected_mode);
    assert(mode_hex@ =~= hex_byte(expected_mode));
    proof {
        lemma_find_from(line@, mode_hex@, 0);
    }
    match find_text(line, mode_hex.as_str()) {
        Some(pos) => {
            let n = line.unicode_len();
            let rest = line.substring_char(pos + 2, n);
            assert(rest@ =~= line@.skip(pos + 2));
            Ok(rest.to_owned())
        },
        None => {
            let mut m = String::from_str("Expected mode byte ");
            push_str(&mut m, mode_hex.as_str());
            push_str(&mut m, " in '");
            push_str(&mut m, line);
            push_str(&mut m, "'");
            Err(ObdError::ParseError(m))
        },
    }
}

/// Reads the bytes spelled by the hex digits of `hex`, ignoring every other
/// char; an odd number of hex digits is an error.
pub fn parse_hex_bytes(hex: &str) -> (r: Result<Vec<u8>, ObdError>)
    ensures
        bytes_result_is(r, hex_bytes_text(hex@)),
{
    let chars = chars_of(hex);
    let n = chars.len();
    let mut digits: Vec<char> = Vec::new();
    let mut i: usize = 0;
    while i < n
        invariant
            n == chars@.len(),
            chars@ == hex@,
            i <= n,
            digits@ == hex_digits_of(chars@.take(i as int)),
        decreases n - i,
    {
        let c = chars[i];
        assert(chars@.take(i + 1).drop_last() =~= chars@.take(i as int));
        if hex_value_of(c).is_some() {
            digits.push(c);
        }
        i = i + 1;
    }
    assert(chars@.take(n as int) =~= hex@);
    if digits.len() % 2 != 0 {
        return Err(ObdError::InvalidHex(String::from_str(hex)));
    }
    proof {
        lemma_hex_digits_are_hex(hex@);
    }
    let dl = digits.len();
    let half = dl / 2;
    let mut out: Vec<u8> = Vec::new();
    let mut j: usize = 0;
    while j < half
        invariant
            half == digits@.len() / 2,
            2 * half <= dl,
            dl == digits@.len(),
            digits@ == hex_digits_of(hex@),
            forall|k: int| 0 <= k < digits@.len() ==> #[trigger] hex_value(digits@[k]) is Some,
            j <= half,
            out@ == hex_pairs(digits@).take(j as int),
        decreases half - j,
    {
        let a = hex_value_of(digits[2 * j]);
        let b = hex_value_of(digits[2 * j + 1]);
        match (a, b) {
            (Some(x), Some(y)) => {
                out.push(16 * x + y);
            },
            _ => {
                assert(false);
            },
        }
        j = j + 1;
        assert(out@ =~= hex_pairs(digits@).take(j as int));
    }
    assert(out@ =~= hex_pairs(digits@));
    Ok(out)
}

// ---------------------------------------------------------------------------
// Mode 01: read one PID
// ---------------------------------------------------------------------------

/// The Mode 01 request for a PID: `01` and the PID in upper-case hex.
pub open spec fn pid_request_text(pid: u8) -> Seq<char> {
    "01"@ + hex_byte(pid)
}

/// What a Mode 01 reply `41XX<data bytes>` decodes to: the first line, after
/// the mode response byte `41` and the PID echo `XX`, read as the data bytes
/// and decoded for `pid`.
pub open spec fn pid_reply_text(pid: u8, lines: Seq<Seq<char>>) -> Result<Seq<char>, Fault> {
    if lines.len() == 0 {
        Err(Fault::NoData)
    } else {
        match strip_mode_text(lines[0], 0x41) {
            Err(f) => Err(f),
            Ok(hex) => match hex_bytes_text(skip_echo(hex)) {
                Err(f) => Err(f),
                Ok(data) => match pid_text(pid, data) {
                    Some(t) => Ok(t),
                    None => Err(Fault::UnsupportedPid(pid)),
                },
            },
        }
    }
}

/// The command that asks the ECU for one Mode 01 PID.
pub fn pid_request(pid: u8) -> (r: String)
    ensures
        r@ == pid_request_text(pid),
{
    let mut s = String::from_str("01");
    push_hex_byte(&mut s, pid);
    s
}

/// Decodes the adapter's reply to a Mode 01 request for `pid`: the data
/// bytes after the mode byte `41` and the PID echo.
pub fn pid_reply(pid: u8, lines: &[String]) -> (r: Result<String, ObdError>)
    ensures
        text_result_is(r, pid_reply_text(pid, texts(lines@))),
{
    if lines.len() == 0 {
        return Err(ObdError::NoData);
    }
    let line = &lines[0];
    assert(texts(lines@)[0] == line@);
    let hex = match strip_mode_byte(line.as_str(), 0x41) {
        Ok(h) => h,
        Err(e) => {
            return Err(e);
        },
    };
    let data = match parse_hex_bytes(skip_echo_chars(hex.as_str())) {
        Ok(d) => d,
        Err(e) => {
            return Err(e);
        },
    };
    match decode_pid(pid, data.as_slice()) {
        Some(t) => Ok(t),
        None => Err(ObdError::UnsupportedPid(pid)),
    }
}

// ---------------------------------------------------------------------------
// Mode 01 PID 00: supported PIDs
// ---------------------------------------------------------------------------

/// The value of bit `bit` of a byte, counting from the most significant bit.
pub open spec fn bit_weight(bit: int) -> int {
    if bit == 0 {
        128
    } else if bit == 1 {
        64
    } else if bit == 2 {
        32
    } else if bit == 3 {
        16
    } else if bit == 4 {
        8
    } else if bit == 5 {
        4
    } else if bit == 6 {
        2
    } else {
        1
    }
}

/// Bit `bit` of `b` (0 = most significant) is set.
pub open spec fn bit_set(b: u8, bit: int) -> bool {
    ((b as int) / bit_weight(bit)) % 2 == 1
}

/// The PID that bit `bit` of byte `idx` announces: `idx * 8 + bit + 1`, with
/// the byte index taken as a `u8`, as the PID list is built.
pub open spec fn announced_pid(idx: int, bit: int) -> int {
    (idx % 256) * 8 + bit + 1
}

/// The PIDs announced by the first `nbits` bits of byte `b` at index `idx`.
pub open spec fn byte_pids(b: u8, idx: int, nbits: int) -> Seq<u8>
    decreases nbits,
{
    if nbits <= 0 {
        seq![]
    } else {
        byte_pids(b, idx, nbits - 1) + if bit_set(b, nbits - 1) {
            seq![announced_pid(idx, nbits - 1) as u8]
        } else {
            seq![]
        }
    }
}

/// The PIDs a support bitmap announces, byte by byte, most significant bit first.
pub open spec fn bitmap_pids(bytes: Seq<u8>) -> Seq<u8>
    decreases bytes.len(),
{
    if bytes.len() == 0 {
        seq![]
    } else {
        bitmap_pids(bytes.drop_last()) + byte_pids(bytes.last(), bytes.len() - 1, 8)
    }
}

/// Every announced PID fits in a byte (the PID arithmetic is on `u8` and
/// would overflow otherwise).
pub open spec fn bitmap_fits(bytes: Seq<u8>) -> bool {
    forall|idx: int, bit: int|
        0 <= idx < bytes.len() && 0 <= bit < 8 && #[trigger] bit_set(bytes[idx], bit)
            ==> announced_pid(idx, bit) <= 255
}

/// Skips the PID echo byte: the first two bytes of the text, when it has them.
pub open spec fn skip_echo(hex: Seq<char>) -> Seq<char> {
    if utf8_len(hex) >= 2 {
        hex.skip(chars_in_bytes(hex, 2))
    } else {
        hex
    }
}

/// What a reply to `0100` decodes to: the PIDs announced by the bytes after
/// the mode response byte `41` and the PID echo.
pub open spec fn supported_reply_text(lines: Seq<Seq<char>>) -> Result<Seq<u8>, Fault> {
    if lines.len() == 0 {
        Err(Fault::NoData)
    } else {
        match strip_mode_text(lines[0], 0x41) {
            Err(f) => Err(f),
            Ok(hex) => match hex_bytes_text(skip_echo(hex)) {
                Err(f) => Err(f),
                Ok(bytes) => Ok(bitmap_pids(bytes)),
            },
        }
    }
}

/// Replies on which decoding the support bitmap would panic: skipping the echo
/// byte would cut a multi-byte char, or an announced PID overflows a byte.
pub open spec fn supported_reply_panics(lines: Seq<Seq<char>>) -> bool {
    &&& lines.len() > 0
    &&& match strip_mode_text(lines[0], 0x41) {
        Err(_) => false,
        Ok(hex) => {
            ||| (utf8_len(hex) >= 2 && !byte_boundary(hex, 2))
            ||| (hex_bytes_text(skip_echo(hex)) matches Ok(bytes) && !bitmap_fits(bytes))
        },
    }
}

/// The PIDs announced by a support bitmap.
pub fn pids_of_bitmap(bytes: &[u8]) -> (r: Vec<u8>)
    requires
        bitmap_fits(bytes@),
    ensures
        r@ == bitmap_pids(bytes@),
{
    let mut pids: Vec<u8> = Vec::new();
    let mut idx: usize = 0;
    assert(bytes@.take(0) =~= Seq::<u8>::empty());
    while idx < bytes.len()
        invariant
            idx <= bytes@.len(),
            bitmap_fits(bytes@),
            pids@ == bitmap_pids(bytes@.take(idx as int)),
        decreases bytes@.len() - idx,
    {
        let b = bytes[idx];
        let base: u32 = (idx % 256) as u32 * 8;
        let ghost start = pids@;
        let mut bit: u32 = 0;
        let mut weight: u8 = 128;
        while bit < 8
            invariant
                idx < bytes@.len(),
                b == bytes@[idx as int],
                base == (idx % 256) * 8,
                bit <= 8,
                bit < 8 ==> weight == bit_weight(bit as int),
                bit < 8 ==> weight > 0,
                bitmap_fits(bytes@),
                pids@ == start + byte_pids(b, idx as int, bit as int),
            decreases 8 - bit,
        {
            if (b / weight) % 2 == 1 {
                assert(bit_set(bytes@[idx as int], bit as int));
                let p = base + bit + 1;
                pids.push(p as u8);
            }
            bit = bit + 1;
            weight = weight / 2;
            assert(pids@ =~= start + byte_pids(b, idx as int, bit as int));
        }
        assert(bytes@.take(idx + 1).drop_last() =~= bytes@.take(idx as int));
        idx = idx + 1;
    }
    assert(bytes@.take(idx as int) =~= bytes@);
    pids
}

/// The text after the PID echo byte; `None` when cutting there would split a
/// multi-byte char.
fn skip_echo_text(hex: &str) -> (r: Option<&str>)
    ensures
        match r {
            None => utf8_len(hex@) >= 2 && !byte_boundary(hex@, 2),
            Some(t) => !(utf8_len(hex@) >= 2 && !byte_boundary(hex@, 2)) && t@ == skip_echo(hex@),
        },
{
    let chars = chars_of(hex);
    assert(chars@.skip(0) =~= hex@);
    if utf8_len_from(&chars, 0) >= 2 && !boundary_from(&chars, 0, 2) {
        return None;
    }
    Some(skip_echo_chars(hex))
}

/// The text after the PID echo byte: the chars that make up the first two
/// bytes are dropped (all of them when the text is shorter).
fn skip_echo_chars(hex: &str) -> (r: &str)
    ensures
        r@ == skip_echo(hex@),
{
    let chars = chars_of(hex);
    assert(chars@.skip(0) =~= hex@);
    let n = chars.len();
    let from = if utf8_len_from(&chars, 0) >= 2 {
        let c = chars_in_bytes_from(&chars, 0, 2);
        proof {
            lemma_chars_in_bytes_bound(hex@, 2);
        }
        c
    } else {
        0
    };
    let rest = hex.substring_char(from, n);
    assert(rest@ =~= skip_echo(hex@));
    rest
}

/// Whether every PID announced by a support bitmap fits in a byte.
pub fn bitmap_fits_check(bytes: &[u8]) -> (r: bool)
    ensures
        r == bitmap_fits(bytes@),
{
    let mut idx: usize = 0;
    while idx < bytes.len()
        invariant
            idx <= bytes@.len(),
            forall|i: int, bit: int|
                0 <= i < idx && 0 <= bit < 8 && #[trigger] bit_set(bytes@[i], bit)
                    ==> announced_pid(i, bit) <= 255,
        decreases bytes@.len() - idx,
    {
        let b = bytes[idx];
        let base: u32 = (idx % 256) as u32 * 8;
        let mut bit: u32 = 0;
        let mut weight: u8 = 128;
        while bit < 8
            invariant
                idx < bytes@.len(),
                b == bytes@[idx as int],
                base == (idx % 256) * 8,
                bit <= 8,
                bit < 8 ==> weight == bit_weight(bit as int),
                bit < 8 ==> weight > 0,
                forall|i: int, x: int|
                    0 <= i < idx && 0 <= x < 8 && #[trigger] bit_set(bytes@[i], x)
                        ==> announced_pid(i, x) <= 255,
                forall|x: int|
                    0 <= x < bit && #[trigger] bit_set(b, x) ==> announced_pid(idx as int, x)
                        <= 255,
            decreases 8 - bit,
        {
            if (b / weight) % 2 == 1 && base + bit + 1 > 255 {
                assert(bit_set(bytes@[idx as int], bit as int));
                return false;
            }
            bit = bit + 1;
            weight = weight / 2;
        }
        idx = idx + 1;
    }
    true
}

/// Whether decoding this reply to `0100` would panic (where
/// `supported_pids_reply` may not be called).
pub fn supported_pids_reply_panics(lines: &[String]) -> (r: bool)
    ensures
        r == supported_reply_panics(texts(lines@)),
{
    if lines.len() == 0 {
        return false;
    }
    let line = &lines[0];
    assert(texts(lines@)[0] == line@);
    let hex = match strip_mode_byte(line.as_str(), 0x41) {
        Ok(h) => h,
        Err(_) => {
            return false;
        },
    };
    let rest = match skip_echo_text(hex.as_str()) {
        Some(t) => t,
        None => {
            return true;
        },
    };
    match parse_hex_bytes(rest) {
        Ok(bytes) => !bitmap_fits_check(bytes.as_slice()),
        Err(_) => false,
    }
}

/// Decodes the adapter's reply to `0100` into the supported PIDs.
pub fn supported_pids_reply(lines: &[String]) -> (r: Result<Vec<u8>, ObdError>)
    requires
        !supported_reply_panics(texts(lines@)),
    ensures
        bytes_result_is(r, supported_reply_text(texts(lines@))),
{
    if lines.len() == 0 {
        return Err(ObdError::NoData);
    }
    let line = &lines[0];
    assert(texts(lines@)[0] == line@);
    let hex = match strip_mode_byte(line.as_str(), 0x41) {
        Ok(h) => h,
        Err(e) => {
            return Err(e);
        },
    };
    let rest = match skip_echo_text(hex.as_str()) {
        Some(t) => t,
        None => {
            return vstd::pervasive::unreached();
        },
    };
    let bytes = match parse_hex_bytes(rest) {
        Ok(b) => b,
        Err(e) => {
            return Err(e);
        },
    };
    Ok(pids_of_bitmap(bytes.as_slice()))
}

// ---------------------------------------------------------------------------
// Modes 03 / 07: stored and pending DTCs
// ---------------------------------------------------------------------------

/// The DTCs of a Mode 03 or 07 exchange: the reply's DTCs; none when the ECU
/// had no data; any other error passed on.
pub fn dtcs_from_reply(reply: Result<Vec<String>, ObdError>) -> (r: Result<Vec<Dtc>, ObdError>)
    requires
        reply matches Ok(lines) ==> !(scan_lines(texts(lines@)) is SplitsChar),
    ensures
        match reply {
            Ok(lines) => dtc_result_matches(r, scan_lines(texts(lines@))),
            Err(e) => if e is NoData {
                r matches Ok(v) && v@.len() == 0
            } else {
                r matches Err(e2) && e2 == e
            },
        },
{
    match reply {
        Ok(lines) => parse_dtc_response(lines.as_slice()),
        Err(ObdError::NoData) => Ok(Vec::new()),
        Err(e) => Err(e),
    }
}

// ---------------------------------------------------------------------------
// Mode 04: clear DTCs
// ---------------------------------------------------------------------------

/// What a Mode 04 reply means: acknowledged when the first line holds `44`
/// or is empty.
pub open spec fn clear_reply_text(lines: Seq<Seq<char>>) -> Result<(), Fault> {
    if lines.len() == 0 {
        Err(Fault::NoData)
    } else if contains(lines[0], "44"@) || lines[0].len() == 0 {
        Ok(())
    } else {
        Err(Fault::Parse("Unexpected Mode 04 response: "@ + lines[0]))
    }
}

/// Checks the adapter's reply to a Mode 04 request.
pub fn clear_reply(lines: &[String]) -> (r: Result<(), ObdError>)
    ensures
        match clear_reply_text(texts(lines@)) {
            Ok(()) => r is Ok,
            Err(f) => r matches Err(e) && is_fault(e, f),
        },
{
    if lines.len() == 0 {
        return Err(ObdError::NoData);
    }
    let line = &lines[0];
    assert(texts(lines@)[0] == line@);
    if contains_text(line.as_str(), "44") || line.as_str().unicode_len() == 0 {
        Ok(())
    } else {
        let mut m = String::from_str("Unexpected Mode 04 response: ");
        push_str(&mut m, line.as_str());
        Err(ObdError::ParseError(m))
    }
}

} // verus!
