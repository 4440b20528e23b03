use depth_logger::convert::{convert, Reading};

fn as_units(billionths: i64) -> f64 {
    billionths as f64 / 1_000_000_000.0
}

#[test]
fn lowest_code_maps_to_zero() {
    assert_eq!(convert(-2048), Reading { voltage_nv: 0, pressure_npsi: 0, depth_nm: 0 });
}

#[test]
fn highest_code_maps_to_full_scale() {
    let r = convert(2047);
    assert_eq!(r.voltage_nv, 3_300_000_000);
    assert_eq!(r.pressure_npsi, 100_000_000_000);
    assert_eq!(r.depth_nm, 6_868_596_916);
    assert!((as_units(r.voltage_nv) - 3.3).abs() < 1e-6);
}

#[test]
fn midpoint_code_is_half_scale() {
    let r = convert(0);
    assert_eq!(r.voltage_nv, 1_650_402_930);
    assert_eq!(r.pressure_npsi, 50_012_210_012);
    assert_eq!(r.depth_nm, 3_435_137_114);
    assert!((as_units(r.voltage_nv) - 1.65).abs() < 0.001);
    assert!((as_units(r.pressure_npsi) - 50.0).abs() < 0.05);
}

#[test]
fn every_stage_is_monotonic_over_the_code_range() {
    let mut prev = convert(-2048);
    for code in -2047i16..=2047 {
        let r = convert(code);
        assert!(r.voltage_nv >= prev.voltage_nv);
        assert!(r.pressure_npsi >= prev.pressure_npsi);
        assert!(r.depth_nm >= prev.depth_nm);
        prev = r;
    }
}

#[test]
fn codes_outside_the_range_are_converted_too() {
    let low = convert(i16::MIN);
    assert_eq!(low, Reading { voltage_nv: -24_756_043_957, pressure_npsi: -750_183_150_184, depth_nm: -51_527_056_719 });
    let high = convert(i16::MAX);
    assert_eq!(high, Reading { voltage_nv: 28_056_043_956, pressure_npsi: 850_183_150_183, depth_nm: 58_395_653_634 });
    let below = convert(-2049);
    assert!(below.voltage_nv < 0 && below.pressure_npsi < 0 && below.depth_nm < 0);
}

#[test]
fn depth_follows_the_hydrostatic_formula() {
    for code in [-2048i16, -2047, -1000, 0, 1234, 2047] {
        let r = convert(code);
        let volts = (code as f64 + 2048.0) * 3.3 / 4095.0;
        let psi = volts * 100.0 / 3.3;
        let metres = psi * 689.47573 / (1023.6 * 9.80665);
        assert!((as_units(r.voltage_nv) - volts).abs() < 1e-8);
        assert!((as_units(r.pressure_npsi) - psi).abs() < 1e-8);
        assert!((as_units(r.depth_nm) - metres).abs() < 1e-8);
    }
}

#[test]
fn lowest_step_is_within_relative_precision() {
    let r = convert(-2047);
    assert_eq!(r, Reading { voltage_nv: 805_860, pressure_npsi: 24_420_024, depth_nm: 1_677_313 });
    let volts = 3.3 / 4095.0;
    let psi = 100.0 / 4095.0;
    let metres = psi * 689.47573 / (1023.6 * 9.80665);
    assert!(((as_units(r.voltage_nv) - volts) / volts).abs() < 1e-5);
    assert!(((as_units(r.pressure_npsi) - psi) / psi).abs() < 1e-5);
    assert!(((as_units(r.depth_nm) - metres) / metres).abs() < 1e-5);
}
