use vstd::prelude::*;

use crate::text::{
    debug_byte_items, debug_bytes, decimal, fixed, hex_byte, push_char, push_decimal,
    push_hex_byte, push_signed_decimal, push_signed_fixed, push_str, round_half_even,
    signed_decimal, signed_fixed,
};

verus! {

/// Standard EOBD/OBD-II Mode 01 PIDs relevant for the Grande Punto 1.4 16v / 1.3 JTD.
#[derive(Debug, Clone, Copy, PartialEq, Eq)]
pub enum Pid {
    SupportedPids01_20,
    MonitorStatus,
    EngineLoad,
    CoolantTemp,
    ShortFuelTrimBank1,
    LongFuelTrimBank1,
    IntakePressure,
    EngineRpm,
    VehicleSpeed,
    TimingAdvance,
    IntakeAirTemp,
    MafAirFlow,
    ThrottlePosition,
    OxygenSensors,
    RuntimeSinceStart,
    DistanceWithMil,
    FuelRailPressure,
    CommandedEgr,
    EgrError,
    BarometricPressure,
    ControlModuleVoltage,
    AbsoluteLoad,
    AmbientAirTemp,
    FuelType,
    OilTemp,
}

/// The PID number of each named PID.
pub open spec fn pid_number(p: Pid) -> u8 {
    match p {
        Pid::SupportedPids01_20 => 0x00,
        Pid::MonitorStatus => 0x01,
        Pid::EngineLoad => 0x04,
        Pid::CoolantTemp => 0x05,
        Pid::ShortFuelTrimBank1 => 0x06,
        Pid::LongFuelTrimBank1 => 0x07,
        Pid::IntakePressure => 0x0B,
        Pid::EngineRpm => 0x0C,
        Pid::VehicleSpeed => 0x0D,
        Pid::TimingAdvance => 0x0E,
        Pid::IntakeAirTemp => 0x0F,
        Pid::MafAirFlow => 0x10,
        Pid::ThrottlePosition => 0x11,
        Pid::OxygenSensors => 0x13,
        Pid::RuntimeSinceStart => 0x1F,
        Pid::DistanceWithMil => 0x21,
        Pid::FuelRailPressure => 0x23,
        Pid::CommandedEgr => 0x2C,
        Pid::EgrError => 0x2D,
        Pid::BarometricPressure => 0x33,
        Pid::ControlModuleVoltage => 0x42,
        Pid::AbsoluteLoad => 0x43,
        Pid::AmbientAirTemp => 0x46,
        Pid::FuelType => 0x51,
        Pid::OilTemp => 0x5C,
    }
}

impl Pid {
    /// The PID number sent in a Mode 01 request.
    pub fn code(&self) -> (c: u8)
        ensures
            c == pid_number(*self),
    {
        match self {
            Pid::SupportedPids01_20 => 0x00,
            Pid::MonitorStatus => 0x01,
            Pid::EngineLoad => 0x04,
            Pid::CoolantTemp => 0x05,
            Pid::ShortFuelTrimBank1 => 0x06,
            Pid::LongFuelTrimBank1 => 0x07,
            Pid::IntakePressure => 0x0B,
            Pid::EngineRpm => 0x0C,
            Pid::VehicleSpeed => 0x0D,
            Pid::TimingAdvance => 0x0E,
            Pid::IntakeAirTemp => 0x0F,
            Pid::MafAirFlow => 0x10,
            Pid::ThrottlePosition => 0x11,
            Pid::OxygenSensors => 0x13,
            Pid::RuntimeSinceStart => 0x1F,
            Pid::DistanceWithMil => 0x21,
            Pid::FuelRailPressure => 0x23,
            Pid::CommandedEgr => 0x2C,
            Pid::EgrError => 0x2D,
            Pid::BarometricPressure => 0x33,
            Pid::ControlModuleVoltage => 0x42,
            Pid::AbsoluteLoad => 0x43,
            Pid::AmbientAirTemp => 0x46,
            Pid::FuelType => 0x51,
            Pid::OilTemp => 0x5C,
        }
    }
}

/// A percentage `a * 100 / 255` in tenths, rounded as `{:.1}` rounds it.
pub open spec fn percent_tenths(a: u8) -> nat {
    round_half_even(1000 * a as nat, 255)
}

/// A fuel trim `(a - 128) * 100 / 128` percent: whether it is negative, and
/// its magnitude in hundredths, rounded as `{:.2}` rounds it.
pub open spec fn trim_negative(a: u8) -> bool {
    a < 128
}

pub open spec fn trim_hundredths(a: u8) -> nat {
    let m: nat = if a < 128 { (128 - a) as nat } else { (a - 128) as nat };
    round_half_even(625 * m, 8)
}

/// A timing advance `a / 2 - 64` degrees, magnitude in tenths (exact).
pub open spec fn advance_tenths(a: u8) -> nat {
    if a < 128 { (5 * (128 - a)) as nat } else { (5 * (a - 128)) as nat }
}

/// The 16-bit word `A * 256 + B` of the first two data bytes.
pub open spec fn word(data: Seq<u8>) -> nat {
    (data[0] * 256 + data[1]) as nat
}

/// The text `decode_pid` gives for a PID and its data bytes A, B, ...;
/// `None` when a PID that it decodes has too few bytes.
pub open spec fn pid_text(pid: u8, data: Seq<u8>) -> Option<Seq<char>> {
    if pid == 0x04 {
        if data.len() == 0 { None } else {
            Some("Engine load: "@ + fixed(percent_tenths(data[0]), 1) + "%"@)
        }
    } else if pid == 0x05 {
        if data.len() == 0 { None } else {
            Some("Coolant temp: "@ + signed_decimal(data[0] - 40) + " °C"@)
        }
    } else if pid == 0x06 || pid == 0x07 {
        if data.len() == 0 { None } else {
            Some((if pid == 0x06 { "Short fuel trim"@ } else { "Long fuel trim"@ }) + " bank1: "@
                + signed_fixed(trim_negative(data[0]), trim_hundredths(data[0]), 2) + "%"@)
        }
    } else if pid == 0x0B {
        if data.len() == 0 { None } else {
            Some("Intake MAP: "@ + decimal(data[0] as nat) + " kPa"@)
        }
    } else if pid == 0x0C {
        if data.len() < 2 { None } else {
            Some("Engine RPM: "@ + decimal(word(data) / 4))
        }
    } else if pid == 0x0D {
        if data.len() == 0 { None } else {
            Some("Vehicle speed: "@ + decimal(data[0] as nat) + " km/h"@)
        }
    } else if pid == 0x0E {
        if data.len() == 0 { None } else {
            Some("Timing advance: "@ + signed_fixed(data[0] < 128, advance_tenths(data[0]), 1)
                + "°"@)
        }
    } else if pid == 0x0F {
        if data.len() == 0 { None } else {
            Some("Intake air temp: "@ + signed_decimal(data[0] - 40) + " °C"@)
        }
    } else if pid == 0x10 {
        if data.len() < 2 { None } else {
            Some("MAF: "@ + fixed(word(data), 2) + " g/s"@)
        }
    } else if pid == 0x11 {
        if data.len() == 0 { None } else {
            Some("Throttle: "@ + fixed(percent_tenths(data[0]), 1) + "%"@)
        }
    } else if pid == 0x1F {
        if data.len() < 2 { None } else {
            Some("Run time: "@ + decimal(word(data)) + "s"@)
        }
    } else if pid == 0x21 {
        if data.len() < 2 { None } else {
            Some("Distance with MIL: "@ + decimal(word(data)) + " km"@)
        }
    } else if pid == 0x42 {
        if data.len() < 2 { None } else {
            Some("Module voltage: "@ + fixed(word(data), 3) + " V"@)
        }
    } else if pid == 0x46 {
        if data.len() == 0 { None } else {
            Some("Ambient air temp: "@ + signed_decimal(data[0] - 40) + " °C"@)
        }
    } else if pid == 0x5C {
        if data.len() == 0 { None } else {
            Some("Oil temp: "@ + signed_decimal(data[0] - 40) + " °C"@)
        }
    } else {
        Some("PID 0x"@ + hex_byte(pid) + ": "@ + debug_bytes(data))
    }
}

/// `num / den` rounded to nearest, ties to even.
fn round_even(num: u64, den: u64) -> (r: u64)
    requires
        0 < den <= 1000,
        num <= 1_000_000,
    ensures
        r == round_half_even(num as nat, den as nat),
{
    let q = num / den;
    let rem = num % den;
    if 2 * rem > den {
        q + 1
    } else if 2 * rem < den {
        q
    } else if q % 2 == 0 {
        q
    } else {
        q + 1
    }
}

/// `prefix`, a decimal number, `suffix`.
fn with_decimal(prefix: &str, n: u64, suffix: &str) -> (r: String)
    ensures
        r@ == prefix@ + decimal(n as nat) + suffix@,
{
    let mut s = String::from_str(prefix);
    push_decimal(&mut s, n);
    push_str(&mut s, suffix);
    s
}

/// `prefix`, a signed decimal number, `suffix`.
fn with_signed(prefix: &str, v: i64, suffix: &str) -> (r: String)
    requires
        v > i64::MIN,
    ensures
        r@ == prefix@ + signed_decimal(v as int) + suffix@,
{
    let mut s = String::from_str(prefix);
    push_signed_decimal(&mut s, v);
    push_str(&mut s, suffix);
    s
}

/// `prefix`, a signed fixed-point number, `suffix`.
fn with_fixed(prefix: &str, negative: bool, units: u64, places: u32, suffix: &str) -> (r: String)
    requires
        places <= 6,
    ensures
        r@ == prefix@ + signed_fixed(negative, units as nat, places as nat) + suffix@,
{
    let mut s = String::from_str(prefix);
    push_signed_fixed(&mut s, negative, units, places);
    push_str(&mut s, suffix);
    s
}

/// Appends the `Debug` text of a byte slice.
fn push_debug_bytes(s: &mut String, data: &[u8])
    ensures
        final(s)@ == old(s)@ + debug_bytes(data@),
{
    push_char(s, '[');
    let mut j: usize = 0;
    assert(data@.take(0) =~= Seq::<u8>::empty());
    while j < data.len()
        invariant
            j <= data@.len(),
            s@ == old(s)@ + seq!['['] + debug_byte_items(data@.take(j as int)),
        decreases data@.len() - j,
    {
        let ghost before = s@;
        if j > 0 {
            push_char(s, ',');
            push_char(s, ' ');
        }
        push_decimal(s, data[j] as u64);
        j = j + 1;
        assert(data@.take(j as int).drop_last() =~= data@.take(j - 1));
        assert(s@ =~= old(s)@ + seq!['['] + debug_byte_items(data@.take(j as int)));
    }
    push_char(s, ']');
    assert(data@.take(j as int) =~= data@);
    assert(s@ =~= old(s)@ + debug_bytes(data@));
}

/// Decode a Mode 01 PID response (bytes A, B, C, D as applicable) into a
/// human-readable text with units. PIDs it does not decode are shown with
/// their raw bytes; `None` means the PID needs more bytes than were given.
pub fn decode_pid(pid: u8, data: &[u8]) -> (r: Option<String>)
    ensures
        crate::text::opt_text(r) == pid_text(pid, data@),
{
    let n = data.len();
    if pid == 0x04 {
        if n == 0 {
            return None;
        }
        let t = round_even(1000 * data[0] as u64, 255);
        Some(with_fixed("Engine load: ", false, t, 1, "%"))
    } else if pid == 0x05 {
        if n == 0 {
            return None;
        }
        Some(with_signed("Coolant temp: ", data[0] as i64 - 40, " °C"))
    } else if pid == 0x06 || pid == 0x07 {
        if n == 0 {
            return None;
        }
        let a = data[0];
        let m: u64 = if a < 128 { (128 - a) as u64 } else { (a - 128) as u64 };
        let h = round_even(625 * m, 8);
        let label = if pid == 0x06 { "Short fuel trim" } else { "Long fuel trim" };
        let mut s = String::from_str(label);
        push_str(&mut s, " bank1: ");
        push_signed_fixed(&mut s, a < 128, h, 2);
        push_str(&mut s, "%");
        assert(s@ =~= label@ + " bank1: "@ + signed_fixed(a < 128, h as nat, 2) + "%"@);
        Some(s)
    } else if pid == 0x0B {
        if n == 0 {
            return None;
        }
        Some(with_decimal("Intake MAP: ", data[0] as u64, " kPa"))
    } else if pid == 0x0C {
        if n < 2 {
            return None;
        }
        let w = data[0] as u64 * 256 + data[1] as u64;
        let mut s = String::from_str("Engine RPM: ");
        push_decimal(&mut s, w / 4);
        Some(s)
    } else if pid == 0x0D {
        if n == 0 {
            return None;
        }
        Some(with_decimal("Vehicle speed: ", data[0] as u64, " km/h"))
    } else if pid == 0x0E {
        if n == 0 {
            return None;
        }
        let a = data[0];
        let t: u64 = if a < 128 { 5 * (128 - a) as u64 } else { 5 * (a - 128) as u64 };
        Some(with_fixed("Timing advance: ", a < 128, t, 1, "°"))
    } else if pid == 0x0F {
        if n == 0 {
            return None;
        }
        Some(with_signed("Intake air temp: ", data[0] as i64 - 40, " °C"))
    } else if pid == 0x10 {
        if n < 2 {
            return None;
        }
        let w = data[0] as u64 * 256 + data[1] as u64;
        Some(with_fixed("MAF: ", false, w, 2, " g/s"))
    } else if pid == 0x11 {
        if n == 0 {
            return None;
        }
        let t = round_even(1000 * data[0] as u64, 255);
        Some(with_fixed("Throttle: ", false, t, 1, "%"))
    } else if pid == 0x1F {
        if n < 2 {
            return None;
        }
        let w = data[0] as u64 * 256 + data[1] as u64;
        Some(with_decimal("Run time: ", w, "s"))
    } else if pid == 0x21 {
        if n < 2 {
            return None;
        }
        let w = data[0] as u64 * 256 + data[1] as u64;
        Some(with_decimal("Distance with MIL: ", w, " km"))
    } else if pid == 0x42 {
        if n < 2 {
            return None;
        }
        let w = data[0] as u64 * 256 + data[1] as u64;
        Some(with_fixed("Module voltage: ", false, w, 3, " V"))
    } else if pid == 0x46 {
        if n == 0 {
            return None;
        }
        Some(with_signed("Ambient air temp: ", data[0] as i64 - 40, " °C"))
    } else if pid == 0x5C {
        if n == 0 {
            return None;
        }
        Some(with_signed("Oil temp: ", data[0] as i64 - 40, " °C"))
    } else {
        let mut s = String::from_str("PID 0x");
        push_hex_byte(&mut s, pid);
        push_str(&mut s, ": ");
        push_debug_bytes(&mut s, data);
        assert(s@ =~= "PID 0x"@ + hex_byte(pid) + ": "@ + debug_bytes(data@));
        Some(s)
    }
}

} // verus!
