//! Normalized samples and conversion to and from the wire representation.
//!
//! The canonical unit of exchange between the capture and render paths is a
//! normalized sample: a fixed-point value counted in steps of `1 / UNIT_STEPS`
//! of full scale.  `UNIT_STEPS` is `32767 * 512`, so every 16-bit wire sample
//! lands exactly on a step and the conversion in and out of the normalized
//! domain is exact integer arithmetic.  A floating-point wire sample is scaled
//! onto the same grid by the unverified device layer before it reaches this
//! crate, and handed back to it unchanged on the way out.

use vstd::prelude::*;

verus! {

/// Number of fixed-point steps that stand for the full-scale value 1.0.
pub const UNIT_STEPS: i32 = 32767 * 512;

/// Steps per unit of a 16-bit wire sample: `UNIT_STEPS / 32767`.
pub const INT16_STEP: i32 = 512;

/// Wire sample representation negotiated with a device.
#[derive(Clone, Copy, PartialEq, Eq, Structural, Debug)]
pub enum SampleKind {
    Int16,
    Float32,
}

/// A normalized audio sample, nominally in [-1.0, 1.0]: `steps` counts
/// fixed-point steps of `1 / UNIT_STEPS`, so `steps == UNIT_STEPS` is the
/// nominal full-scale value 1.0.  Values outside the nominal range are
/// representable and are only clipped when leaving through a 16-bit wire
/// format.
#[derive(Clone, Copy, PartialEq, Eq, Structural, Debug)]
pub struct Sample {
    pub steps: i32,
}

impl Sample {
    /// The silent sample: the normalized value 0.0.
    pub open spec fn spec_silence() -> Sample {
        Sample { steps: 0 }
    }

    /// The silent sample, substituted by the render path on underrun.
    pub fn silence() -> (r: Sample)
        ensures
            r == Sample::spec_silence(),
    {
        Sample { steps: 0 }
    }
}

/// Integer division rounding toward zero, as the wire conversion truncates.
pub open spec fn div_toward_zero(a: int, b: int) -> int
    recommends
        b > 0,
{
    if a >= 0 {
        a / b
    } else {
        -((-a) / b)
    }
}

/// `v` forced into the closed interval `[lo, hi]`.
pub open spec fn clamp_int(v: int, lo: int, hi: int) -> int {
    if v < lo {
        lo
    } else if v > hi {
        hi
    } else {
        v
    }
}

/// The normalized steps that a wire sample converts to.  A 16-bit wire sample
/// is divided by the maximum representable magnitude, which on the fixed-point
/// grid is a multiplication by `INT16_STEP`; a floating-point wire sample is
/// already on the grid and passes through unchanged.
pub open spec fn norm_steps_of(raw: int, kind: SampleKind) -> int {
    match kind {
        SampleKind::Int16 => raw * (INT16_STEP as int),
        SampleKind::Float32 => raw,
    }
}

/// The wire sample that a normalized sample converts to.  Toward a 16-bit
/// wire format the normalized value is multiplied by the maximum magnitude
/// (a truncating division by `INT16_STEP` on the grid) and clipped at the
/// destination width; toward a floating-point wire format it passes through.
pub open spec fn raw_of_norm(steps: int, kind: SampleKind) -> int {
    match kind {
        SampleKind::Int16 => clamp_int(
            div_toward_zero(steps, INT16_STEP as int),
            -0x8000,
            0x7fff,
        ),
        SampleKind::Float32 => steps,
    }
}

/// Convert a wire sample into the normalized domain.
pub fn to_normalized(raw: i32, kind: SampleKind) -> (r: Sample)
    requires
        kind == SampleKind::Int16 ==> -0x8000 <= raw <= 0x7fff,
    ensures
        r.steps == norm_steps_of(raw as int, kind),
{
    match kind {
        SampleKind::Int16 => Sample { steps: raw * INT16_STEP },
        SampleKind::Float32 => Sample { steps: raw },
    }
}

/// Convert a normalized sample back into a wire sample.
pub fn from_normalized(s: Sample, kind: SampleKind) -> (raw: i32)
    ensures
        raw == raw_of_norm(s.steps as int, kind),
{
    match kind {
        SampleKind::Int16 => {
            let lo: i32 = -0x8000 * INT16_STEP;
            let hi: i32 = 0x7fff * INT16_STEP;
            let c: i32 = if s.steps < lo {
                lo
            } else if s.steps > hi {
                hi
            } else {
                s.steps
            };
            let q: i32 = if c >= 0 {
                ((c as u32) / (INT16_STEP as u32)) as i32
            } else {
                -((((-c) as u32) / (INT16_STEP as u32)) as i32)
            };
            proof {
                lemma_clamped_division(s.steps as int, c as int);
            }
            q
        },
        SampleKind::Float32 => s.steps,
    }
}

/// Clipping the steps to the grid images of the 16-bit extremes before the
/// truncating division yields the same wire sample as dividing first and
/// clipping the quotient at the 16-bit width.
proof fn lemma_clamped_division(steps: int, c: int)
    requires
        c == clamp_int(steps, -0x8000 * (INT16_STEP as int), 0x7fff * (INT16_STEP as int)),
    ensures
        div_toward_zero(c, INT16_STEP as int) == clamp_int(
            div_toward_zero(steps, INT16_STEP as int),
            -0x8000,
            0x7fff,
        ),
{
    let d = INT16_STEP as int;
    if steps > 0x7fff * d {
        vstd::arithmetic::div_mod::lemma_div_is_ordered(0x7fff * d, steps, d);
        vstd::arithmetic::div_mod::lemma_div_by_multiple(0x7fff, d);
        assert(c == 0x7fff * d);
        assert(c / d == 0x7fff) by {
            vstd::arithmetic::div_mod::lemma_div_by_multiple(0x7fff, d);
        }
    } else if steps < -0x8000 * d {
        vstd::arithmetic::div_mod::lemma_div_is_ordered(0x8000 * d, -steps, d);
        vstd::arithmetic::div_mod::lemma_div_by_multiple(0x8000, d);
    } else if steps >= 0 {
        vstd::arithmetic::div_mod::lemma_div_is_ordered(steps, 0x7fff * d, d);
        vstd::arithmetic::div_mod::lemma_div_by_multiple(0x7fff, d);
        vstd::arithmetic::div_mod::lemma_div_pos_is_pos(steps, d);
    } else {
        vstd::arithmetic::div_mod::lemma_div_is_ordered(-steps, 0x8000 * d, d);
        vstd::arithmetic::div_mod::lemma_div_by_multiple(0x8000, d);
        vstd::arithmetic::div_mod::lemma_div_pos_is_pos(-steps, d);
    }
}

/// Round-trip law: a 16-bit wire sample survives conversion into the
/// normalized domain and back unchanged.
pub proof fn lemma_int16_round_trip(raw: int)
    requires
        -0x8000 <= raw <= 0x7fff,
    ensures
        raw_of_norm(norm_steps_of(raw, SampleKind::Int16), SampleKind::Int16) == raw,
{
    let d = INT16_STEP as int;
    if raw >= 0 {
        vstd::arithmetic::div_mod::lemma_div_by_multiple(raw, d);
    } else {
        vstd::arithmetic::div_mod::lemma_div_by_multiple(-raw, d);
        assert(-(raw * d) == (-raw) * d) by (nonlinear_arith);
    }
}

/// Round-trip law: through a floating-point wire format the conversion is the
/// identity in both directions.
pub proof fn lemma_float32_round_trip(v: int)
    ensures
        raw_of_norm(norm_steps_of(v, SampleKind::Float32), SampleKind::Float32) == v,
        norm_steps_of(raw_of_norm(v, SampleKind::Float32), SampleKind::Float32) == v,
{
}

} // verus!
