//! The fixed physical pipeline from a raw ADC code to voltage, pressure and
//! depth, in exact fixed-point arithmetic.
//!
//! Every stage is an affine map with a positive slope, so each quantity is
//! stated as the floor of an exact rational function of the raw code: no
//! rounding error accumulates from one stage to the next.
use vstd::prelude::*;
use vstd::arithmetic::div_mod::{
    lemma_div_is_ordered, lemma_fundamental_div_mod, lemma_fundamental_div_mod_converse,
};

verus! {

/// Lowest code of the ADC's 12-bit signed range.
pub const ADC_MIN: i32 = -2048;

/// Highest code of the ADC's 12-bit signed range.
pub const ADC_MAX: i32 = 2047;

/// Width of the code range, `ADC_MAX - ADC_MIN`.
pub const ADC_SPAN: u128 = 4095;

/// Supply voltage that the highest code stands for, in nanovolts.
pub const VOLTAGE_FULL_SCALE_NV: u128 = 3_300_000_000;

/// Full scale of the pressure sensor, in PSI.
pub const PRESSURE_FULL_SCALE_PSI: u128 = 100;

/// Pascal per PSI, times 10^5 (689.47573 Pa).
pub const PA_PER_PSI_E5: u128 = 68_947_573;

/// Density of saltwater in kg/m^3, times 10 (1023.6).
pub const DENSITY_E1: u128 = 10_236;

/// Standard gravity in m/s^2, times 10^5 (9.80665).
pub const GRAVITY_E5: u128 = 980_665;

/// Numerator of the code-to-pressure map: nano-PSI at full scale.
pub const PRESSURE_NUM: u128 = PRESSURE_FULL_SCALE_PSI * 1_000_000_000;

/// Numerator of the code-to-depth map: `h = P / (rho * g)` in nanometres, with
/// `P` the pressure in Pascal, scaled so that numerator and denominator are whole.
pub const DEPTH_NUM: u128 = PRESSURE_FULL_SCALE_PSI * PA_PER_PSI_E5 * 10 * 1_000_000_000;

/// Denominator of the code-to-depth map.
pub const DEPTH_DEN: u128 = ADC_SPAN * DENSITY_E1 * GRAVITY_E5;

/// One sample converted to physical units, each in billionths:
/// nanovolts, nano-PSI and nanometres.
#[derive(Clone, Copy, Debug, PartialEq, Eq, Structural)]
pub struct Reading {
    pub voltage_nv: i64,
    pub pressure_npsi: i64,
    pub depth_nm: i64,
}

/// Offset of a code from the bottom of the ADC range.
pub open spec fn code_offset(raw: int) -> int {
    raw - ADC_MIN
}

/// Voltage in nanovolts: `[-2048, 2047]` mapped onto `[0, 3.3]` V, floored.
pub open spec fn voltage_nv_of(raw: int) -> int {
    code_offset(raw) * VOLTAGE_FULL_SCALE_NV / (ADC_SPAN as int)
}

/// Pressure in nano-PSI: `[0, 3.3]` V mapped onto `[0, 100]` PSI, taken
/// from the exact voltage, floored.
pub open spec fn pressure_npsi_of(raw: int) -> int {
    code_offset(raw) * PRESSURE_NUM / (ADC_SPAN as int)
}

/// Depth in nanometres: `h = P / (rho * g)` with the exact pressure in Pascal
/// (PSI times 689.47573), `rho` = 1023.6 kg/m^3 and `g` = 9.80665 m/s^2, floored.
pub open spec fn depth_nm_of(raw: int) -> int {
    code_offset(raw) * DEPTH_NUM / (DEPTH_DEN as int)
}

/// The reading that a raw code stands for.
pub open spec fn reading_of(raw: int) -> Reading {
    Reading {
        voltage_nv: voltage_nv_of(raw) as i64,
        pressure_npsi: pressure_npsi_of(raw) as i64,
        depth_nm: depth_nm_of(raw) as i64,
    }
}

/// Floor of `n * num / (den as int)` for a signed `n`.
fn scaled_floor(n: i32, num: u128, den: u128) -> (r: i64)
    requires
        0 < den,
        -40_000 <= n <= 40_000,
        num <= 100_000_000_000_000_000_000,
        den <= 100_000_000_000_000_000_000,
        n * num / (den as int) <= i64::MAX,
        i64::MIN < n * num / (den as int),
    ensures
        r == n * num / (den as int),
{
    if n >= 0 {
        let m: u128 = n as u128;
        assert(m * num <= 40_000 * 100_000_000_000_000_000_000) by (nonlinear_arith)
            requires m <= 40_000, num <= 100_000_000_000_000_000_000;
        let q: u128 = (m * num) / den;
        q as i64
    } else {
        let m: u128 = (-n) as u128;
        assert(m * num <= 40_000 * 100_000_000_000_000_000_000) by (nonlinear_arith)
            requires m <= 40_000, num <= 100_000_000_000_000_000_000;
        let q: u128 = (m * num + den - 1) / den;
        proof {
            let x: int = m * num + den - 1;
            let rr: int = x % (den as int);
            lemma_fundamental_div_mod(x, den as int);
            assert(n * num == -(m * num)) by (nonlinear_arith)
                requires m == -n;
            assert(n * num == (-(q as int)) * den + (den - 1 - rr)) by (nonlinear_arith)
                requires
                    n * num == -(m * num),
                    x == m * num + den - 1,
                    x == den * (q as int) + rr;
            lemma_fundamental_div_mod_converse(n * num, den as int, -(q as int), den - 1 - rr);
        }
        -(q as i64)
    }
}

/// Converts a raw ADC code into voltage, pressure and depth.
///
/// Total over every `i16`: codes outside the calibrated range give values
/// outside the physical ranges (negative below `ADC_MIN`) rather than an error.
pub fn convert(raw_code: i16) -> (r: Reading)
    ensures
        r.voltage_nv == voltage_nv_of(raw_code as int),
        r.pressure_npsi == pressure_npsi_of(raw_code as int),
        r.depth_nm == depth_nm_of(raw_code as int),
        r == reading_of(raw_code as int),
{
    let n: i32 = raw_code as i32 - ADC_MIN;
    proof {
        lemma_quantities_bounded(raw_code as int);
    }
    let voltage_nv = scaled_floor(n, VOLTAGE_FULL_SCALE_NV, ADC_SPAN);
    let pressure_npsi = scaled_floor(n, PRESSURE_NUM, ADC_SPAN);
    let depth_nm = scaled_floor(n, DEPTH_NUM, DEPTH_DEN);
    Reading { voltage_nv, pressure_npsi, depth_nm }
}

/// Over the whole `i16` range every quantity stays within `i64`.
proof fn lemma_quantities_bounded(raw: int)
    requires
        i16::MIN <= raw <= i16::MAX,
    ensures
        i64::MIN < voltage_nv_of(raw) <= i64::MAX,
        i64::MIN < pressure_npsi_of(raw) <= i64::MAX,
        i64::MIN < depth_nm_of(raw) <= i64::MAX,
{
    let n = code_offset(raw);
    assert(-30720 <= n <= 34815);
    let dn: int = DEPTH_NUM as int;
    let dd: int = DEPTH_DEN as int;
    assert(DEPTH_DEN == 41_105_966_019_300);
    assert(DEPTH_NUM == 68_947_573_000_000_000_000);
    lemma_fundamental_div_mod(n * 3_300_000_000, 4095);
    lemma_fundamental_div_mod(n * 100_000_000_000, 4095);
    lemma_fundamental_div_mod(n * dn, dd);
}

/// Each stage of the conversion is monotonically non-decreasing in the raw
/// code: a larger code never gives a lower voltage, pressure or depth.
pub proof fn lemma_convert_monotonic(a: int, b: int)
    requires
        ADC_MIN <= a <= b <= ADC_MAX,
    ensures
        voltage_nv_of(a) <= voltage_nv_of(b),
        pressure_npsi_of(a) <= pressure_npsi_of(b),
        depth_nm_of(a) <= depth_nm_of(b),
{
    let na = code_offset(a);
    let nb = code_offset(b);
    assert(na * 3_300_000_000 <= nb * 3_300_000_000);
    assert(na * 100_000_000_000 <= nb * 100_000_000_000);
    assert(PRESSURE_NUM == 100_000_000_000);
    let dn: int = DEPTH_NUM as int;
    assert(na * dn <= nb * dn) by (nonlinear_arith)
        requires na <= nb, dn > 0;
    lemma_div_is_ordered(na * 3_300_000_000, nb * 3_300_000_000, 4095int);
    lemma_div_is_ordered(na * 100_000_000_000, nb * 100_000_000_000, 4095int);
    lemma_div_is_ordered(na * dn, nb * dn, DEPTH_DEN as int);
}

/// Each quantity is its exact value rounded down to a whole billionth: the
/// exact value times `10^9` lies in `[q, q + 1)` for the quantity `q`.
pub proof fn lemma_convert_precision(raw: int)
    ensures
        voltage_nv_of(raw) * ADC_SPAN <= code_offset(raw) * VOLTAGE_FULL_SCALE_NV
            < (voltage_nv_of(raw) + 1) * ADC_SPAN,
        pressure_npsi_of(raw) * ADC_SPAN <= code_offset(raw) * PRESSURE_NUM
            < (pressure_npsi_of(raw) + 1) * ADC_SPAN,
        depth_nm_of(raw) * DEPTH_DEN <= code_offset(raw) * DEPTH_NUM
            < (depth_nm_of(raw) + 1) * DEPTH_DEN,
{
    assert(DEPTH_DEN == 41_105_966_019_300);
    assert(DEPTH_NUM == 68_947_573_000_000_000_000);
    assert(PRESSURE_NUM == 100_000_000_000);
    lemma_fundamental_div_mod(code_offset(raw) * VOLTAGE_FULL_SCALE_NV, ADC_SPAN as int);
    lemma_fundamental_div_mod(code_offset(raw) * PRESSURE_NUM, ADC_SPAN as int);
    lemma_fundamental_div_mod(code_offset(raw) * DEPTH_NUM, DEPTH_DEN as int);
}

/// The ends of the code range map exactly onto the ends of the voltage and
/// pressure ranges: the lowest code gives 0 V, 0 PSI and depth 0; the highest
/// gives 3.3 V and 100 PSI.
pub proof fn lemma_convert_bounds()
    ensures
        reading_of(ADC_MIN as int) == (Reading { voltage_nv: 0, pressure_npsi: 0, depth_nm: 0 }),
        voltage_nv_of(ADC_MAX as int) == VOLTAGE_FULL_SCALE_NV,
        pressure_npsi_of(ADC_MAX as int) == PRESSURE_NUM,
{
}

} // verus!
