use vstd::prelude::*;

use crate::error::ObdError;
use crate::text::{
    boundary_from, byte_boundary, chars_in_bytes, chars_in_bytes_from, chars_of, digit, digit_char,
    hex_char, hex_digit, hex_value, hex_value_of, lemma_chars_in_bytes_bound, push_char, push_str,
    text_eq, utf8_len, utf8_len_from,
};

verus! {

/// A decoded Diagnostic Trouble Code.
#[derive(Debug, Clone, PartialEq, Eq)]
pub struct Dtc {
    pub code: String,
    pub description: Option<&'static str>,
}

/// Mapping an optional static text to its chars.
pub open spec fn opt_str(o: Option<&'static str>) -> Option<Seq<char>> {
    match o {
        Some(s) => Some(s@),
        None => None,
    }
}

/// The system letter held in the top two bits of the high byte:
/// 0 = P (powertrain), 1 = C (chassis), 2 = B (body), 3 = U (network).
pub open spec fn system_letter(top: int) -> char {
    if top == 0 {
        'P'
    } else if top == 1 {
        'C'
    } else if top == 2 {
        'B'
    } else {
        'U'
    }
}

/// The five-char code of a DTC encoded in two bytes (ISO 15031-6):
/// bits 15-14 the system, bits 13-12 the first digit (0-3), then three hex digits.
pub open spec fn dtc_code(high: u8, low: u8) -> Seq<char> {
    seq![
        system_letter((high / 64) as int),
        digit_char(((high / 16) % 4) as int),
        hex_char((high % 16) as int),
        hex_char((low / 16) as int),
        hex_char((low % 16) as int),
    ]
}

/// The description this library knows for a code.
pub open spec fn dtc_description(code: Seq<char>) -> Option<Seq<char>> {
    if code == "P0100"@ {
        Some("Mass Air Flow sensor – circuit malfunction"@)
    } else if code == "P0101"@ {
        Some("Mass Air Flow sensor – range/performance"@)
    } else if code == "P0102"@ {
        Some("Mass Air Flow sensor – low input"@)
    } else if code == "P0103"@ {
        Some("Mass Air Flow sensor – high input"@)
    } else if code == "P0105"@ {
        Some("MAP sensor – circuit malfunction"@)
    } else if code == "P0106"@ {
        Some("MAP sensor – range/performance"@)
    } else if code == "P0107"@ {
        Some("MAP sensor – low input"@)
    } else if code == "P0108"@ {
        Some("MAP sensor – high input"@)
    } else if code == "P0110"@ {
        Some("Intake Air Temperature sensor – circuit malfunction"@)
    } else if code == "P0112"@ {
        Some("Intake Air Temperature sensor – low input"@)
    } else if code == "P0113"@ {
        Some("Intake Air Temperature sensor – high input"@)
    } else if code == "P0115"@ {
        Some("Engine Coolant Temperature sensor – circuit malfunction"@)
    } else if code == "P0116"@ {
        Some("Engine Coolant Temperature sensor – range/performance"@)
    } else if code == "P0117"@ {
        Some("Engine Coolant Temperature sensor – low input"@)
    } else if code == "P0118"@ {
        Some("Engine Coolant Temperature sensor – high input"@)
    } else if code == "P0120"@ {
        Some("Throttle position sensor A – circuit malfunction"@)
    } else if code == "P0121"@ {
        Some("Throttle position sensor A – range/performance"@)
    } else if code == "P0122"@ {
        Some("Throttle position sensor A – low input"@)
    } else if code == "P0123"@ {
        Some("Throttle position sensor A – high input"@)
    } else if code == "P0130"@ {
        Some("O2 sensor B1S1 – circuit malfunction"@)
    } else if code == "P0131"@ {
        Some("O2 sensor B1S1 – low voltage"@)
    } else if code == "P0132"@ {
        Some("O2 sensor B1S1 – high voltage"@)
    } else if code == "P0133"@ {
        Some("O2 sensor B1S1 – slow response"@)
    } else if code == "P0134"@ {
        Some("O2 sensor B1S1 – no activity"@)
    } else if code == "P0135"@ {
        Some("O2 sensor heater B1S1 – circuit malfunction"@)
    } else if code == "P0136"@ {
        Some("O2 sensor B1S2 – circuit malfunction"@)
    } else if code == "P0137"@ {
        Some("O2 sensor B1S2 – low voltage"@)
    } else if code == "P0138"@ {
        Some("O2 sensor B1S2 – high voltage"@)
    } else if code == "P0141"@ {
        Some("O2 sensor heater B1S2 – circuit malfunction"@)
    } else if code == "P0170"@ {
        Some("Fuel trim B1 – malfunction"@)
    } else if code == "P0171"@ {
        Some("Fuel trim B1 – system too lean"@)
    } else if code == "P0172"@ {
        Some("Fuel trim B1 – system too rich"@)
    } else if code == "P0300"@ {
        Some("Random/multiple cylinder misfire"@)
    } else if code == "P0301"@ {
        Some("Cylinder 1 misfire"@)
    } else if code == "P0302"@ {
        Some("Cylinder 2 misfire"@)
    } else if code == "P0303"@ {
        Some("Cylinder 3 misfire"@)
    } else if code == "P0304"@ {
        Some("Cylinder 4 misfire"@)
    } else if code == "P0420"@ {
        Some("Catalyst efficiency below threshold B1"@)
    } else if code == "P0400"@ {
        Some("EGR flow malfunction"@)
    } else if code == "P0401"@ {
        Some("EGR flow insufficient"@)
    } else if code == "P0402"@ {
        Some("EGR flow excessive"@)
    } else if code == "P0403"@ {
        Some("EGR control circuit malfunction"@)
    } else if code == "P0404"@ {
        Some("EGR control circuit range/performance"@)
    } else if code == "P0405"@ {
        Some("EGR sensor A – low input"@)
    } else if code == "P0406"@ {
        Some("EGR sensor A – high input"@)
    } else if code == "P0440"@ {
        Some("EVAP system malfunction"@)
    } else if code == "P0441"@ {
        Some("EVAP purge flow incorrect"@)
    } else if code == "P0442"@ {
        Some("EVAP small leak"@)
    } else if code == "P0443"@ {
        Some("EVAP purge control valve – circuit malfunction"@)
    } else if code == "P0446"@ {
        Some("EVAP vent control circuit malfunction"@)
    } else if code == "P0455"@ {
        Some("EVAP large leak"@)
    } else if code == "P0456"@ {
        Some("EVAP very small leak"@)
    } else if code == "P0505"@ {
        Some("Idle control system malfunction"@)
    } else if code == "P0506"@ {
        Some("Idle speed too low"@)
    } else if code == "P0507"@ {
        Some("Idle speed too high"@)
    } else if code == "P0500"@ {
        Some("Vehicle speed sensor malfunction"@)
    } else if code == "P0501"@ {
        Some("Vehicle speed sensor range/performance"@)
    } else if code == "P0600"@ {
        Some("Serial communication link malfunction"@)
    } else if code == "P1210"@ {
        Some("Fiat: injector circuit – low side short to battery"@)
    } else if code == "P1215"@ {
        Some("Fiat: fuel pressure regulator – circuit malfunction"@)
    } else if code == "P1351"@ {
        Some("Fiat: ignition coil primary circuit malfunction"@)
    } else if code == "P1352"@ {
        Some("Fiat: ignition coil secondary circuit malfunction"@)
    } else if code == "P1600"@ {
        Some("Fiat: ECU power supply – low voltage"@)
    } else if code == "P1655"@ {
        Some("Fiat: throttle actuator control – limp home mode active"@)
    } else if code == "P1780"@ {
        Some("Fiat: drive-by-wire throttle motor open circuit"@)
    } else {
        None
    }
}

/// `d` is the DTC encoded by the byte pair `pair`, with the description of its code.
pub open spec fn is_dtc_of(d: Dtc, pair: (u8, u8)) -> bool {
    &&& d.code@ == dtc_code(pair.0, pair.1)
    &&& opt_str(d.description) == dtc_description(d.code@)
}

/// The text that `Dtc::to_string` gives: the code, a dash, and the description.
pub open spec fn dtc_text(code: Seq<char>, description: Option<Seq<char>>) -> Seq<char> {
    match description {
        Some(desc) => code + " – "@ + desc,
        None => code + " – (unknown/manufacturer-specific)"@,
    }
}

impl Dtc {
    /// The code followed by its description, or a note that it is unknown.
    pub fn to_string(&self) -> (r: String)
        ensures
            r@ == dtc_text(self.code@, opt_str(self.description)),
    {
        let mut s = self.code.clone();
        match self.description {
            Some(desc) => {
                push_str(&mut s, " – ");
                push_str(&mut s, desc);
            },
            None => {
                push_str(&mut s, " – (unknown/manufacturer-specific)");
            },
        }
        s
    }
}

/// Decode two raw bytes from a Mode 03/07/0A response into a DTC.
///
/// The pair `0x00 0x00` is padding, not a DTC, and is refused.
pub fn decode_dtc_bytes(high: u8, low: u8) -> (r: Result<Dtc, ObdError>)
    ensures
        (high == 0 && low == 0) ==> (r matches Err(ObdError::ParseError(m))
            && m@ == "padding byte 0x0000 is not a DTC"@),
        !(high == 0 && low == 0) ==> (r matches Ok(d) && is_dtc_of(d, (high, low))),
{
    if high == 0x00 && low == 0x00 {
        return Err(ObdError::ParseError(String::from_str("padding byte 0x0000 is not a DTC")));
    }
    let top = high / 64;
    let system = if top == 0 {
        'P'
    } else if top == 1 {
        'C'
    } else if top == 2 {
        'B'
    } else {
        'U'
    };
    let mut code = String::new();
    push_char(&mut code, system);
    push_char(&mut code, digit((high / 16) % 4));
    push_char(&mut code, hex_digit(high % 16));
    push_char(&mut code, hex_digit(low / 16));
    push_char(&mut code, hex_digit(low % 16));
    assert(code@ =~= dtc_code(high, low));
    let description = lookup_dtc(code.as_str());
    Ok(Dtc { code, description })
}

/// The description of a code, for common EOBD/ISO powertrain codes and a few
/// Fiat Grande Punto specific ones.
pub fn lookup_dtc(code: &str) -> (r: Option<&'static str>)
    ensures
        opt_str(r) == dtc_description(code@),
{
    if text_eq(code, "P0100") {
        return Some("Mass Air Flow sensor – circuit malfunction");
    }
    if text_eq(code, "P0101") {
        return Some("Mass Air Flow sensor – range/performance");
    }
    if text_eq(code, "P0102") {
        return Some("Mass Air Flow sensor – low input");
    }
    if text_eq(code, "P0103") {
        return Some("Mass Air Flow sensor – high input");
    }
    if text_eq(code, "P0105") {
        return Some("MAP sensor – circuit malfunction");
    }
    if text_eq(code, "P0106") {
        return Some("MAP sensor – range/performance");
    }
    if text_eq(code, "P0107") {
        return Some("MAP sensor – low input");
    }
    if text_eq(code, "P0108") {
        return Some("MAP sensor – high input");
    }
    if text_eq(code, "P0110") {
        return Some("Intake Air Temperature sensor – circuit malfunction");
    }
    if text_eq(code, "P0112") {
        return Some("Intake Air Temperature sensor – low input");
    }
    if text_eq(code, "P0113") {
        return Some("Intake Air Temperature sensor – high input");
    }
    if text_eq(code, "P0115") {
        return Some("Engine Coolant Temperature sensor – circuit malfunction");
    }
    if text_eq(code, "P0116") {
        return Some("Engine Coolant Temperature sensor – range/performance");
    }
    if text_eq(code, "P0117") {
        return Some("Engine Coolant Temperature sensor – low input");
    }
    if text_eq(code, "P0118") {
        return Some("Engine Coolant Temperature sensor – high input");
    }
    if text_eq(code, "P0120") {
        return Some("Throttle position sensor A – circuit malfunction");
    }
    if text_eq(code, "P0121") {
        return Some("Throttle position sensor A – range/performance");
    }
    if text_eq(code, "P0122") {
        return Some("Throttle position sensor A – low input");
    }
    if text_eq(code, "P0123") {
        return Some("Throttle position sensor A – high input");
    }
    if text_eq(code, "P0130") {
        return Some("O2 sensor B1S1 – circuit malfunction");
    }
    if text_eq(code, "P0131") {
        return Some("O2 sensor B1S1 – low voltage");
    }
    if text_eq(code, "P0132") {
        return Some("O2 sensor B1S1 – high voltage");
    }
    if text_eq(code, "P0133") {
        return Some("O2 sensor B1S1 – slow response");
    }
    if text_eq(code, "P0134") {
        return Some("O2 sensor B1S1 – no activity");
    }
    if text_eq(code, "P0135") {
        return Some("O2 sensor heater B1S1 – circuit malfunction");
    }
    if text_eq(code, "P0136") {
        return Some("O2 sensor B1S2 – circuit malfunction");
    }
    if text_eq(code, "P0137") {
        return Some("O2 sensor B1S2 – low voltage");
    }
    if text_eq(code, "P0138") {
        return Some("O2 sensor B1S2 – high voltage");
    }
    if text_eq(code, "P0141") {
        return Some("O2 sensor heater B1S2 – circuit malfunction");
    }
    if text_eq(code, "P0170") {
        return Some("Fuel trim B1 – malfunction");
    }
    if text_eq(code, "P0171") {
        return Some("Fuel trim B1 – system too lean");
    }
    if text_eq(code, "P0172") {
        return Some("Fuel trim B1 – system too rich");
    }
    if text_eq(code, "P0300") {
        return Some("Random/multiple cylinder misfire");
    }
    if text_eq(code, "P0301") {
        return Some("Cylinder 1 misfire");
    }
    if text_eq(code, "P0302") {
        return Some("Cylinder 2 misfire");
    }
    if text_eq(code, "P0303") {
        return Some("Cylinder 3 misfire");
    }
    if text_eq(code, "P0304") {
        return Some("Cylinder 4 misfire");
    }
    if text_eq(code, "P0420") {
        return Some("Catalyst efficiency below threshold B1");
    }
    if text_eq(code, "P0400") {
        return Some("EGR flow malfunction");
    }
    if text_eq(code, "P0401") {
        return Some("EGR flow insufficient");
    }
    if text_eq(code, "P0402") {
        return Some("EGR flow excessive");
    }
    if text_eq(code, "P0403") {
        return Some("EGR control circuit malfunction");
    }
    if text_eq(code, "P0404") {
        return Some("EGR control circuit range/performance");
    }
    if text_eq(code, "P0405") {
        return Some("EGR sensor A – low input");
    }
    if text_eq(code, "P0406") {
        return Some("EGR sensor A – high input");
    }
    if text_eq(code, "P0440") {
        return Some("EVAP system malfunction");
    }
    if text_eq(code, "P0441") {
        return Some("EVAP purge flow incorrect");
    }
    if text_eq(code, "P0442") {
        return Some("EVAP small leak");
    }
    if text_eq(code, "P0443") {
        return Some("EVAP purge control valve – circuit malfunction");
    }
    if text_eq(code, "P0446") {
        return Some("EVAP vent control circuit malfunction");
    }
    if text_eq(code, "P0455") {
        return Some("EVAP large leak");
    }
    if text_eq(code, "P0456") {
        return Some("EVAP very small leak");
    }
    if text_eq(code, "P0505") {
        return Some("Idle control system malfunction");
    }
    if text_eq(code, "P0506") {
        return Some("Idle speed too low");
    }
    if text_eq(code, "P0507") {
        return Some("Idle speed too high");
    }
    if text_eq(code, "P0500") {
        return Some("Vehicle speed sensor malfunction");
    }
    if text_eq(code, "P0501") {
        return Some("Vehicle speed sensor range/performance");
    }
    if text_eq(code, "P0600") {
        return Some("Serial communication link malfunction");
    }
    if text_eq(code, "P1210") {
        return Some("Fiat: injector circuit – low side short to battery");
    }
    if text_eq(code, "P1215") {
        return Some("Fiat: fuel pressure regulator – circuit malfunction");
    }
    if text_eq(code, "P1351") {
        return Some("Fiat: ignition coil primary circuit malfunction");
    }
    if text_eq(code, "P1352") {
        return Some("Fiat: ignition coil secondary circuit malfunction");
    }
    if text_eq(code, "P1600") {
        return Some("Fiat: ECU power supply – low voltage");
    }
    if text_eq(code, "P1655") {
        return Some("Fiat: throttle actuator control – limp home mode active");
    }
    if text_eq(code, "P1780") {
        return Some("Fiat: drive-by-wire throttle motor open circuit");
    }
    None
}

// ---------------------------------------------------------------------------
// Mode 03 / 07 / 0A responses
// ---------------------------------------------------------------------------

/// What scanning the lines of a DTC response gives.
pub enum DtcScan {
    /// The byte pairs of the DTCs found, in order, with padding pairs left out.
    Codes(Seq<(u8, u8)>),
    /// The hex part of a line (held here) has a UTF-8 length that is not a
    /// multiple of four.
    OddLength(Seq<char>),
    /// A four-byte group (held here) does not read as two hex bytes.
    BadHex(Seq<char>),
    /// A four-byte group would cut a multi-byte char in two; `str` slicing
    /// panics there, so no caller may pass such text.
    SplitsChar,
}

/// The line starts with a mode response byte: `43`, `47` or `4A`.
pub open spec fn has_mode_prefix(line: Seq<char>) -> bool {
    &&& line.len() >= 2
    &&& line[0] == '4'
    &&& (line[1] == '3' || line[1] == '7' || line[1] == 'A')
}

/// The hex part of a line: the line without its mode response byte, if any.
pub open spec fn dtc_hex_part(line: Seq<char>) -> Seq<char> {
    if has_mode_prefix(line) {
        line.skip(2)
    } else {
        line
    }
}

/// A two-char text read as a hex byte: two hex digits, high digit first.
pub open spec fn hex_pair_value(c0: char, c1: char) -> Option<u8> {
    match (hex_value(c0), hex_value(c1)) {
        (Some(a), Some(b)) => Some((16 * a + b) as u8),
        _ => None,
    }
}

/// The codes `a` found before the scan `s` of the rest.
pub open spec fn prepend_codes(a: Seq<(u8, u8)>, s: DtcScan) -> DtcScan {
    match s {
        DtcScan::Codes(b) => DtcScan::Codes(a + b),
        other => other,
    }
}

/// Scans hex text in groups of four bytes, each group a high and a low byte
/// of one DTC. A group that holds a multi-byte char can never read as hex,
/// which is why fewer than four chars in a four-byte group give `BadHex`.
pub open spec fn scan_groups(rest: Seq<char>) -> DtcScan
    decreases rest.len(),
{
    if utf8_len(rest) < 4 {
        DtcScan::Codes(seq![])
    } else if !(byte_boundary(rest, 2) && byte_boundary(rest, 4)) {
        DtcScan::SplitsChar
    } else if rest.len() < 4 {
        DtcScan::BadHex(rest.take(chars_in_bytes(rest, 4)))
    } else {
        match (hex_pair_value(rest[0], rest[1]), hex_pair_value(rest[2], rest[3])) {
            (Some(high), Some(low)) => if high == 0 && low == 0 {
                scan_groups(rest.skip(4))
            } else {
                prepend_codes(seq![(high, low)], scan_groups(rest.skip(4)))
            },
            _ => DtcScan::BadHex(rest.take(chars_in_bytes(rest, 4))),
        }
    }
}

/// Scans one response line.
pub open spec fn scan_line(line: Seq<char>) -> DtcScan {
    let hex = dtc_hex_part(line);
    if utf8_len(hex) % 4 != 0 {
        DtcScan::OddLength(hex)
    } else {
        scan_groups(hex)
    }
}

/// Scans the lines in order; the first line that fails decides the outcome.
pub open spec fn scan_lines(lines: Seq<Seq<char>>) -> DtcScan
    decreases lines.len(),
{
    if lines.len() == 0 {
        DtcScan::Codes(seq![])
    } else {
        match scan_line(lines[0]) {
            DtcScan::Codes(a) => prepend_codes(a, scan_lines(lines.drop_first())),
            other => other,
        }
    }
}

/// The chars of each line.
pub open spec fn texts(lines: Seq<String>) -> Seq<Seq<char>> {
    lines.map_values(|s: String| s@)
}

/// The result of `parse_dtc_response` that a scan outcome calls for.
pub open spec fn dtc_result_matches(r: Result<Vec<Dtc>, ObdError>, s: DtcScan) -> bool {
    match s {
        DtcScan::Codes(pairs) => r matches Ok(v) && v@.len() == pairs.len() && forall|j: int|
            0 <= j < pairs.len() ==> is_dtc_of(#[trigger] v@[j], pairs[j]),
        DtcScan::OddLength(hex) => r matches Err(ObdError::ParseError(m)) && m@
            == "odd DTC hex length: "@ + hex,
        DtcScan::BadHex(group) => r matches Err(ObdError::InvalidHex(m)) && m@ == group,
        DtcScan::SplitsChar => false,
    }
}

/// Codes prepended in two steps are the codes prepended at once.
proof fn lemma_prepend_twice(a: Seq<(u8, u8)>, b: Seq<(u8, u8)>, s: DtcScan)
    ensures
        prepend_codes(a, prepend_codes(b, s)) == prepend_codes(a + b, s),
{
    if let DtcScan::Codes(c) = s {
        assert((a + b) + c =~= a + (b + c));
    }
}

/// Scanning never yields the padding pair `0000` as a code.
proof fn lemma_scan_groups_no_padding(rest: Seq<char>)
    ensures
        scan_groups(rest) matches DtcScan::Codes(ps) ==> forall|x: int|
            0 <= x < ps.len() ==> !(#[trigger] ps[x].0 == 0 && ps[x].1 == 0),
    decreases rest.len(),
{
    if utf8_len(rest) >= 4 && byte_boundary(rest, 2) && byte_boundary(rest, 4) && rest.len() >= 4 {
        lemma_scan_groups_no_padding(rest.skip(4));
        if let (Some(high), Some(low)) = (hex_pair_value(rest[0], rest[1]), hex_pair_value(rest[2], rest[3])) {
            if !(high == 0 && low == 0) {
                if let DtcScan::Codes(ps) = scan_groups(rest.skip(4)) {
                    let all = seq![(high, low)] + ps;
                    assert forall|x: int| 0 <= x < all.len() implies !(#[trigger] all[x].0 == 0 && all[x].1 == 0) by {
                        if x > 0 {
                            assert(all[x] == ps[x - 1]);
                        }
                    }
                }
            }
        }
    }
}

/// Reads two chars as a hex byte; `None` unless both are hex digits.
fn hex_pair(c0: char, c1: char) -> (r: Option<u8>)
    ensures
        r == hex_pair_value(c0, c1),
{
    match (hex_value_of(c0), hex_value_of(c1)) {
        (Some(a), Some(b)) => Some(16 * a + b),
        _ => None,
    }
}

/// Reads the DTC byte pairs of one response line.
fn scan_dtc_line(line: &str) -> (r: Option<Result<Vec<(u8, u8)>, ObdError>>)
    ensures
        match scan_line(line@) {
            DtcScan::Codes(pairs) => r matches Some(Ok(v)) && v@ == pairs,
            DtcScan::OddLength(hex) => r matches Some(Err(ObdError::ParseError(m))) && m@
                == "odd DTC hex length: "@ + hex,
            DtcScan::BadHex(group) => r matches Some(Err(ObdError::InvalidHex(m))) && m@ == group,
            DtcScan::SplitsChar => r is None,
        },
{
    let chars = chars_of(line);
    let n = chars.len();
    let start: usize = if n >= 2 && chars[0] == '4' && (chars[1] == '3' || chars[1] == '7'
        || chars[1] == 'A') {
        2
    } else {
        0
    };
    assert(chars@.skip(start as int) =~= dtc_hex_part(line@));
    let total = utf8_len_from(&chars, start);
    if total % 4 != 0 {
        let mut m = String::from_str("odd DTC hex length: ");
        push_str(&mut m, line.substring_char(start, n));
        assert(line@.subrange(start as int, n as int) =~= dtc_hex_part(line@));
        return Some(Err(ObdError::ParseError(m)));
    }
    let mut pairs: Vec<(u8, u8)> = Vec::new();
    let mut k: usize = start;
    loop
        invariant
            n == chars@.len(),
            chars@ == line@,
            start <= k <= n,
            scan_line(line@) == prepend_codes(pairs@, scan_groups(chars@.skip(k as int))),
        decreases n - k,
    {
        let ghost rest = chars@.skip(k as int);
        if utf8_len_from(&chars, k) < 4 {
            assert(pairs@ + seq![] =~= pairs@);
            return Some(Ok(pairs));
        }
        if !(boundary_from(&chars, k, 2) && boundary_from(&chars, k, 4)) {
            return None;
        }
        let whole = k < n && n - k > 3;
        let high = if whole {
            hex_pair(chars[k], chars[k + 1])
        } else {
            None
        };
        let low = if whole {
            hex_pair(chars[k + 2], chars[k + 3])
        } else {
            None
        };
        match (high, low) {
            (Some(h), Some(l)) => {
                assert(rest.skip(4) =~= chars@.skip(k + 4));
                assert(rest.len() >= 4 && rest[0] == chars@[k as int] && rest[1] == chars@[k + 1]
                    && rest[2] == chars@[k + 2] && rest[3] == chars@[k + 3]);
                assert(scan_groups(rest) == if h == 0 && l == 0 {
                    scan_groups(rest.skip(4))
                } else {
                    prepend_codes(seq![(h, l)], scan_groups(rest.skip(4)))
                });
                if h == 0 && l == 0 {
                    assert(pairs@ + seq![] =~= pairs@);
                }
                if !(h == 0 && l == 0) {
                    proof {
                        lemma_prepend_twice(pairs@, seq![(h, l)], scan_groups(rest.skip(4)));
                    }
                    let ghost before = pairs@;
                    pairs.push((h, l));
                    assert(pairs@ =~= before + seq![(h, l)]);
                }
                k = k + 4;
            },
            _ => {
                let c = chars_in_bytes_from(&chars, k, 4);
                proof {
                    lemma_chars_in_bytes_bound(rest, 4);
                }
                let group = line.substring_char(k, k + c);
                assert(group@ =~= rest.take(c as int));
                return Some(Err(ObdError::InvalidHex(group.to_owned())));
            },
        }
    }
}

/// Parse a full Mode 03 / 07 / 0A response into the DTCs it lists.
///
/// Each line may start with its mode response byte (`43`, `47` or `4A`), which
/// is dropped; the rest is read as pairs of hex bytes, one pair per DTC, with
/// the pair `0000` taken as padding and skipped.
pub fn parse_dtc_response(lines: &[String]) -> (r: Result<Vec<Dtc>, ObdError>)
    requires
        !(scan_lines(texts(lines@)) is SplitsChar),
    ensures
        dtc_result_matches(r, scan_lines(texts(lines@))),
{
    let ghost all = texts(lines@);
    let mut dtcs: Vec<Dtc> = Vec::new();
    let ghost mut found: Seq<(u8, u8)> = seq![];
    let mut i: usize = 0;
    assert(all.skip(0) =~= all);
    assert(found + seq![] =~= found);
    proof {
        lemma_prepend_twice(seq![], seq![], scan_lines(all));
        if let DtcScan::Codes(c) = scan_lines(all) {
            assert(seq![] + c =~= c);
        }
    }
    while i < lines.len()
        invariant
            all == texts(lines@),
            all.len() == lines@.len(),
            i <= lines@.len(),
            scan_lines(all) == prepend_codes(found, scan_lines(all.skip(i as int))),
            !(scan_lines(all) is SplitsChar),
            dtcs@.len() == found.len(),
            forall|j: int| 0 <= j < found.len() ==> is_dtc_of(#[trigger] dtcs@[j], found[j]),
        decreases lines@.len() - i,
    {
        let line = &lines[i];
        assert(all.skip(i as int)[0] == line@);
        assert(all.skip(i as int).drop_first() =~= all.skip(i + 1));
        let ghost tail = scan_lines(all.skip(i + 1));
        match scan_dtc_line(line.as_str()) {
            None => {
                return vstd::pervasive::unreached();
            },
            Some(Ok(pairs)) => {
                proof {
                    lemma_prepend_twice(found, pairs@, tail);
                    lemma_scan_groups_no_padding(dtc_hex_part(line@));
                }
                let mut j: usize = 0;
                while j < pairs.len()
                    invariant
                        j <= pairs@.len(),
                        dtcs@.len() == found.len() + j,
                        forall|x: int| 0 <= x < found.len() ==> is_dtc_of(#[trigger] dtcs@[x], found[x]),
                        forall|x: int|
                            found.len() <= x < found.len() + j ==> is_dtc_of(
                                #[trigger] dtcs@[x],
                                pairs@[x - found.len()],
                            ),
                        forall|x: int| 0 <= x < pairs@.len() ==> !(#[trigger] pairs@[x].0 == 0 && pairs@[x].1 == 0),
                    decreases pairs@.len() - j,
                {
                    let (h, l) = pairs[j];
                    match decode_dtc_bytes(h, l) {
                        Ok(d) => dtcs.push(d),
                        Err(_) => {
                            return vstd::pervasive::unreached();
                        },
                    }
                    j = j + 1;
                }
                proof {
                    let old_found = found;
                    found = found + pairs@;
                    assert forall|x: int| 0 <= x < found.len() implies is_dtc_of(
                        #[trigger] dtcs@[x],
                        found[x],
                    ) by {
                        if x >= old_found.len() {
                            assert(found[x] == pairs@[x - old_found.len()]);
                        }
                    }
                }
            },
            Some(Err(e)) => {
                return Err(e);
            },
        }
        i = i + 1;
    }
    assert(all.skip(i as int) =~= Seq::<Seq<char>>::empty());
    assert(found + seq![] =~= found);
    Ok(dtcs)
}

/// Whether parsing these lines would cut a multi-byte char in two (where
/// `parse_dtc_response` may not be called).
pub fn dtc_response_splits_char(lines: &[String]) -> (r: bool)
    ensures
        r == (scan_lines(texts(lines@)) is SplitsChar),
{
    let ghost all = texts(lines@);
    let mut i: usize = 0;
    assert(all.skip(0) =~= all);
    while i < lines.len()
        invariant
            all == texts(lines@),
            all.len() == lines@.len(),
            i <= lines@.len(),
            (scan_lines(all) is SplitsChar) == (scan_lines(all.skip(i as int)) is SplitsChar),
        decreases lines@.len() - i,
    {
        assert(all.skip(i as int)[0] == lines@[i as int]@);
        assert(all.skip(i as int).drop_first() =~= all.skip(i + 1));
        match scan_dtc_line(lines[i].as_str()) {
            None => {
                return true;
            },
            Some(Err(_)) => {
                return false;
            },
            Some(Ok(_)) => {},
        }
        i = i + 1;
    }
    assert(all.skip(i as int) =~= Seq::<Seq<char>>::empty());
    false
}

} // verus!
