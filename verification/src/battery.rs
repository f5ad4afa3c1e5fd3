use vstd::prelude::*;

verus! {

/// Quadratic fit of the battery charge curve, in hundredths of a percent,
/// for a battery voltage of `mv` millivolts.
pub open spec fn charge_curve(mv: int) -> int {
    -mv * mv + 9016 * mv - 19_189_000
}

/// The charge percentage that a battery voltage maps to: the curve divided by
/// 10 000 and clamped to `0..=100`; a reading of zero counts as empty.
pub open spec fn battery_percent_spec(mv: int) -> int {
    if mv == 0 {
        0
    } else if charge_curve(mv) < 0 {
        0
    } else if charge_curve(mv) / 10_000 > 100 {
        100
    } else {
        charge_curve(mv) / 10_000
    }
}

/// The largest voltage whose curve value fits the signed 32-bit arithmetic
/// of the conversion.
pub const MAX_CURVE_MV: u32 = 46_340;

/// Converts a battery voltage in millivolts to a charge percentage.
pub fn battery_percent_from_mv(voltage_mv: u32) -> (percent: u8)
    requires
        voltage_mv <= MAX_CURVE_MV,
    ensures
        percent == battery_percent_spec(voltage_mv as int),
        percent <= 100,
        voltage_mv == 0 ==> percent == 0,
        voltage_mv > 0 && -(voltage_mv * voltage_mv) + 9016 * voltage_mv - 19_189_000 < 0
            ==> percent == 0,
        voltage_mv > 0 && -(voltage_mv * voltage_mv) + 9016 * voltage_mv - 19_189_000 >= 0
            ==> percent == (if (-(voltage_mv * voltage_mv) + 9016 * voltage_mv - 19_189_000)
            / 10_000 > 100 {
            100
        } else {
            (-(voltage_mv * voltage_mv) + 9016 * voltage_mv - 19_189_000) / 10_000
        }),
{
    assert(-(voltage_mv * voltage_mv) + 9016 * voltage_mv - 19_189_000 == charge_curve(
        voltage_mv as int,
    )) by (nonlinear_arith);
    if voltage_mv == 0 {
        return 0;
    }
    let mv: i32 = voltage_mv as i32;
    assert(-46_340 * 46_340 <= (-mv) * mv <= 0) by (nonlinear_arith)
        requires
            0 <= mv <= 46_340,
    ;
    assert(0 <= 9016 * mv <= 9016 * 46_340) by (nonlinear_arith)
        requires
            0 <= mv <= 46_340,
    ;
    assert((-mv) * mv + 9016 * mv >= -1_729_594_160) by (nonlinear_arith)
        requires
            0 <= mv <= 46_340,
    ;
    let curve: i32 = -mv * mv + 9016 * mv - 19_189_000;
    if curve < 0 {
        0
    } else {
        let scaled: i32 = curve / 10_000;
        if scaled > 100 {
            100
        } else {
            scaled as u8
        }
    }
}

/// The charge percentage never decreases as the voltage rises over the
/// working range of the cell, up to the top of the curve at 4508 mV.
pub proof fn lemma_battery_percent_monotone(a: int, b: int)
    requires
        0 < a <= b <= 4508,
    ensures
        battery_percent_spec(a) <= battery_percent_spec(b),
{
    assert(charge_curve(a) <= charge_curve(b)) by (nonlinear_arith)
        requires
            0 < a <= b <= 4508,
            charge_curve(a) == -a * a + 9016 * a - 19_189_000,
            charge_curve(b) == -b * b + 9016 * b - 19_189_000,
    ;
    if charge_curve(a) >= 0 {
        vstd::arithmetic::div_mod::lemma_div_is_ordered(charge_curve(a), charge_curve(b), 10_000);
    }
}

} // verus!
