//! Sample arithmetic shared by every mixing pass: saturating addition
//! and fixed-point scaling by volume and pan.

use vstd::prelude::*;

verus! {

/// The value of `v` limited to the range of a 16-bit sample.
pub open spec fn clamp_i16(v: int) -> int {
    if v > i16::MAX as int {
        i16::MAX as int
    } else if v < i16::MIN as int {
        i16::MIN as int
    } else {
        v
    }
}

/// Adds two samples, clamping at the ends of the 16-bit range instead of
/// wrapping.
pub fn sat_add_i16(a: i16, b: i16) -> (r: i16)
    ensures
        r as int == clamp_i16(a as int + b as int),
{
    let s: i32 = a as i32 + b as i32;
    if s > i16::MAX as i32 {
        i16::MAX
    } else if s < i16::MIN as i32 {
        i16::MIN
    } else {
        s as i16
    }
}

/// The pan value at which a side is silent; a side's gain is counted in
/// parts of this.
pub const PAN_UNITY: i64 = 32768;

/// The divisor that takes a sample times a Q8.8 volume times a pan gain
/// back to a sample.
pub const GAIN_UNITY: u128 = 8388608;

/// The quotient of `a` by a positive `b`, rounded towards zero.
pub open spec fn div_toward_zero(a: int, b: int) -> int {
    if a >= 0 {
        a / b
    } else {
        -((-a) / b)
    }
}

/// The gain of the left side for a pan, in parts of 32768: full for a
/// pan at the centre or to the left, less the farther right the pan is.
pub open spec fn left_gain(pan: int) -> int {
    if pan <= 0 {
        PAN_UNITY as int
    } else {
        PAN_UNITY - pan
    }
}

/// The gain of the right side for a pan, in parts of 32768: full for a
/// pan at the centre or to the right, less the farther left the pan is.
pub open spec fn right_gain(pan: int) -> int {
    if pan >= 0 {
        PAN_UNITY as int
    } else {
        PAN_UNITY + pan
    }
}

/// A sample scaled by a Q8.8 volume and a pan gain, rounded towards zero
/// and limited to the 16-bit range.
pub open spec fn scaled_sample(sample: int, volume: int, gain: int) -> int {
    clamp_i16(div_toward_zero(sample * volume * gain, GAIN_UNITY as int))
}

/// Computes [`left_gain`].
pub fn pan_left(pan: i32) -> (g: i64)
    ensures
        g == left_gain(pan as int),
{
    if pan <= 0 {
        PAN_UNITY
    } else {
        PAN_UNITY - pan as i64
    }
}

/// Computes [`right_gain`].
pub fn pan_right(pan: i32) -> (g: i64)
    ensures
        g == right_gain(pan as int),
{
    if pan >= 0 {
        PAN_UNITY
    } else {
        PAN_UNITY + pan as i64
    }
}

/// Scales a sample by a Q8.8 volume and a pan gain.
pub fn scale_sample(sample: i16, volume: u32, gain: i64) -> (r: i16)
    requires
        -0x1_0000_0000 <= gain <= 0x1_0000_0000,
    ensures
        r as int == scaled_sample(sample as int, volume as int, gain as int),
{
    let negative = (sample < 0) != (gain < 0);
    let s: u128 = if sample < 0 {
        (-(sample as i32)) as u128
    } else {
        sample as u128
    };
    let g: u128 = if gain < 0 {
        (-gain) as u128
    } else {
        gain as u128
    };
    let v: u128 = volume as u128;
    assert(s * v <= 0x8000 * 0xFFFF_FFFF) by (nonlinear_arith)
        requires
            s <= 0x8000,
            v <= 0xFFFF_FFFF,
    ;
    let sv: u128 = s * v;
    assert(sv * g <= 0x8000 * 0xFFFF_FFFF * 0x1_0000_0000) by (nonlinear_arith)
        requires
            sv <= 0x8000 * 0xFFFF_FFFF,
            g <= 0x1_0000_0000,
    ;
    let magnitude: u128 = sv * g;
    let q: u128 = magnitude / GAIN_UNITY;
    proof {
        let product = sample as int * volume as int * gain as int;
        let sg = sample as int * gain as int;
        assert(product == sg * (volume as int)) by (nonlinear_arith)
            requires
                product == sample as int * volume as int * gain as int,
                sg == sample as int * gain as int,
        ;
        assert(magnitude == (s as int * g as int) * (v as int)) by (nonlinear_arith)
            requires
                magnitude == (s * v) * g,
        ;
        if negative {
            assert(s as int * g as int == -sg) by (nonlinear_arith)
                requires
                    sg == sample as int * gain as int,
                    (s == -sample && g == gain) || (s == sample && g == -gain),
            ;
            assert(magnitude == -product) by (nonlinear_arith)
                requires
                    magnitude == (s as int * g as int) * (v as int),
                    s as int * g as int == -sg,
                    product == sg * (volume as int),
                    v == volume,
            ;
        } else {
            assert(s as int * g as int == sg) by (nonlinear_arith)
                requires
                    sg == sample as int * gain as int,
                    (s == -sample && g == -gain) || (s == sample && g == gain),
            ;
            assert(magnitude == product) by (nonlinear_arith)
                requires
                    magnitude == (s as int * g as int) * (v as int),
                    s as int * g as int == sg,
                    product == sg * (volume as int),
                    v == volume,
            ;
        }
    }
    if negative {
        if q >= 32768 {
            i16::MIN
        } else {
            -(q as i32) as i16
        }
    } else {
        if q > 32767 {
            i16::MAX
        } else {
            q as i16
        }
    }
}

} // verus!
