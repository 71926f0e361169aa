use obd_core::pid::{decode_pid, Pid};

/// The same decoding done with floating-point arithmetic and `format!`.
fn reference(pid: u8, data: &[u8]) -> Option<String> {
    match pid {
        0x04 => {
            let val = data.first()?;
            Some(format!("Engine load: {:.1}%", *val as f64 * 100.0 / 255.0))
        }
        0x05 => {
            let val = data.first()?;
            Some(format!("Coolant temp: {} °C", *val as i32 - 40))
        }
        0x06 | 0x07 => {
            let val = data.first()?;
            let trim = (*val as f64 - 128.0) * 100.0 / 128.0;
            let label = if pid == 0x06 { "Short fuel trim" } else { "Long fuel trim" };
            Some(format!("{} bank1: {:.2}%", label, trim))
        }
        0x0B => Some(format!("Intake MAP: {} kPa", data.first()?)),
        0x0C => {
            if data.len() < 2 {
                return None;
            }
            Some(format!("Engine RPM: {}", ((data[0] as u32) * 256 + data[1] as u32) / 4))
        }
        0x0D => Some(format!("Vehicle speed: {} km/h", data.first()?)),
        0x0E => {
            let val = data.first()?;
            Some(format!("Timing advance: {:.1}°", *val as f64 / 2.0 - 64.0))
        }
        0x0F => Some(format!("Intake air temp: {} °C", *data.first()? as i32 - 40)),
        0x10 => {
            if data.len() < 2 {
                return None;
            }
            let maf = ((data[0] as u32) * 256 + data[1] as u32) as f64 / 100.0;
            Some(format!("MAF: {:.2} g/s", maf))
        }
        0x11 => Some(format!("Throttle: {:.1}%", *data.first()? as f64 * 100.0 / 255.0)),
        0x1F => {
            if data.len() < 2 {
                return None;
            }
            Some(format!("Run time: {}s", (data[0] as u32) * 256 + data[1] as u32))
        }
        0x21 => {
            if data.len() < 2 {
                return None;
            }
            Some(format!("Distance with MIL: {} km", (data[0] as u32) * 256 + data[1] as u32))
        }
        0x42 => {
            if data.len() < 2 {
                return None;
            }
            let v = ((data[0] as u32) * 256 + data[1] as u32) as f64 / 1000.0;
            Some(format!("Module voltage: {:.3} V", v))
        }
        0x46 => Some(format!("Ambient air temp: {} °C", *data.first()? as i32 - 40)),
        0x5C => Some(format!("Oil temp: {} °C", *data.first()? as i32 - 40)),
        _ => Some(format!("PID 0x{:02X}: {:?}", pid, data)),
    }
}

#[test]
fn one_byte_pids_match_float_formatting() {
    for pid in 0..=255u8 {
        assert_eq!(decode_pid(pid, &[]), reference(pid, &[]), "pid {:02X} without data", pid);
        for a in 0..=255u8 {
            assert_eq!(decode_pid(pid, &[a]), reference(pid, &[a]), "pid {:02X} data {}", pid, a);
        }
    }
}

#[test]
fn two_byte_pids_match_float_formatting() {
    for pid in [0x0Cu8, 0x10, 0x1F, 0x21, 0x42] {
        for a in 0..=255u8 {
            for b in 0..=255u8 {
                assert_eq!(decode_pid(pid, &[a, b]), reference(pid, &[a, b]));
            }
        }
    }
}

#[test]
fn extra_bytes_and_raw_pids() {
    assert_eq!(decode_pid(0x0D, &[0x32, 0x99, 0x01]).unwrap(), "Vehicle speed: 50 km/h");
    assert_eq!(decode_pid(0x13, &[1, 2, 3]).unwrap(), "PID 0x13: [1, 2, 3]");
    assert_eq!(decode_pid(0x00, &[]).unwrap(), "PID 0x00: []");
    assert_eq!(decode_pid(0xAB, &[255]).unwrap(), "PID 0xAB: [255]");
}

#[test]
fn exact_values() {
    assert_eq!(decode_pid(0x0C, &[0x1A, 0xF8]).unwrap(), "Engine RPM: 1726");
    assert_eq!(decode_pid(0x05, &[0]).unwrap(), "Coolant temp: -40 °C");
    assert_eq!(decode_pid(0x04, &[255]).unwrap(), "Engine load: 100.0%");
    assert_eq!(decode_pid(0x06, &[124]).unwrap(), "Short fuel trim bank1: -3.12%");
    assert_eq!(decode_pid(0x07, &[132]).unwrap(), "Long fuel trim bank1: 3.12%");
    assert_eq!(decode_pid(0x0E, &[127]).unwrap(), "Timing advance: -0.5°");
    assert_eq!(decode_pid(0x10, &[0x01, 0x05]).unwrap(), "MAF: 2.61 g/s");
    assert_eq!(decode_pid(0x42, &[0x30, 0x39]).unwrap(), "Module voltage: 12.345 V");
    assert_eq!(decode_pid(0x0C, &[0x1A]), None);
    assert_eq!(decode_pid(0x05, &[]), None);
}

#[test]
fn law_defined_with_two_bytes_on_values() {
    for pid in 0..=255u8 {
        assert!(decode_pid(pid, &[1, 2]).is_some());
    }
}

#[test]
fn pid_codes() {
    assert_eq!(Pid::EngineRpm.code(), 0x0C);
    assert_eq!(Pid::SupportedPids01_20.code(), 0x00);
    assert_eq!(Pid::OilTemp.code(), 0x5C);
    assert_eq!(Pid::ControlModuleVoltage.code(), 0x42);
}
