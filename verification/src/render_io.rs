//! The image of an accumulation buffer, as a compute backend fills it.

use vstd::prelude::*;
use crate::scalar::{Scalar, zero, zero_spec, one, one_spec, whole, whole_spec, max, max_spec};
use crate::color::{
    decimal_spec, pixels_text_spec, push_decimal, push_pixel, quantize, quantize_spec,
};

verus! {

/// The factor by which the sums of a pixel are brought to a mean: one over
/// the number of samples, and zero where there are none.
pub open spec fn accum_scale_spec<S: Scalar>(samples_per_pixel: u32) -> S {
    if samples_per_pixel > 0 {
        one_spec::<S>().over_spec(whole_spec::<S>(samples_per_pixel as i64))
    } else {
        zero_spec::<S>()
    }
}

/// The byte of one channel of a pixel whose samples sum to `sum`: the mean,
/// zero where it is not finite, brought to gamma space by the square root of
/// what of it is above zero, and scaled to a byte.
pub open spec fn accum_byte_spec<S: Scalar>(sum: S, scale: S) -> u8 {
    let mean = sum.times_spec(scale);
    let finite = if mean.is_finite_spec() {
        mean
    } else {
        zero_spec::<S>()
    };
    quantize_spec(max_spec(finite, zero_spec::<S>()).sqrt_spec())
}

pub fn accum_byte<S: Scalar>(sum: S, scale: S) -> (r: u8)
    ensures
        r == accum_byte_spec(sum, scale),
{
    let mut mean = sum.times(scale);
    if !mean.is_finite() {
        mean = zero::<S>();
    }
    quantize(max(mean, zero::<S>()).sqrt())
}

/// The head of a plain-text image whose extent is given without sign.
pub open spec fn accum_header_spec(width: nat, height: nat) -> Seq<u8> {
    seq![80u8, 51u8, 10u8] + decimal_spec(width) + seq![32u8] + decimal_spec(height) + seq![
        10u8,
        50u8,
        53u8,
        53u8,
        10u8,
    ]
}

/// The pixels of an accumulation buffer of `count` pixels: each pixel
/// takes four places of the buffer, the sums of red, green and blue and the
/// number of samples, of which the first three are read.
pub open spec fn accum_pixels_spec<S: Scalar>(accum: Seq<S>, scale: S, count: nat) -> Seq<
    (u8, u8, u8),
>
    decreases count,
{
    if count == 0 {
        Seq::empty()
    } else {
        let idx = (count - 1) * 4;
        accum_pixels_spec(accum, scale, (count - 1) as nat).push(
            (
                accum_byte_spec(accum[idx], scale),
                accum_byte_spec(accum[idx + 1], scale),
                accum_byte_spec(accum[idx + 2], scale),
            ),
        )
    }
}

/// Appends to `out` the plain-text image of an accumulation buffer, as a
/// compute backend fills it: for each pixel, row by row, the sums of its
/// samples. Each sum is divided by the number of samples and then brought to
/// a byte as the colours of the renderer are.
pub fn write_ppm_from_accum<S: Scalar>(
    out: &mut Vec<u8>,
    width: usize,
    height: usize,
    accum: &Vec<S>,
    samples_per_pixel: u32,
)
    requires
        width * height * 4 <= accum@.len(),
    ensures
        final(out)@ == old(out)@ + accum_header_spec(width as nat, height as nat)
            + pixels_text_spec(
            accum_pixels_spec(accum@, accum_scale_spec::<S>(samples_per_pixel), (width * height) as nat),
        ),
{
    out.push(80);
    out.push(51);
    out.push(10);
    push_decimal(out, width as u64);
    out.push(32);
    push_decimal(out, height as u64);
    out.push(10);
    out.push(50);
    out.push(53);
    out.push(53);
    out.push(10);
    let ghost head = out@;
    proof {
        assert(head =~= old(out)@ + accum_header_spec(width as nat, height as nat));
    }
    let scale = if samples_per_pixel > 0 {
        one::<S>().over(whole::<S>(samples_per_pixel as i64))
    } else {
        zero::<S>()
    };
    let len = accum.len();
    assert(0 <= width * height <= len) by (nonlinear_arith)
        requires
            width >= 0,
            height >= 0,
            width * height * 4 <= len,
    ;
    let count: usize = width * height;
    let mut k: usize = 0;
    while k < count
        invariant
            k <= count,
            count * 4 <= accum@.len(),
            accum@.len() == len,
            scale == accum_scale_spec::<S>(samples_per_pixel),
            out@ == head + pixels_text_spec(accum_pixels_spec(accum@, scale, k as nat)),
        decreases count - k,
    {
        assert(k * 4 + 3 < count * 4) by (nonlinear_arith)
            requires
                0 <= k < count,
        ;
        let idx = k * 4;
        let pixel = (
            accum_byte(accum[idx], scale),
            accum_byte(accum[idx + 1], scale),
            accum_byte(accum[idx + 2], scale),
        );
        let ghost before = accum_pixels_spec(accum@, scale, k as nat);
        push_pixel(out, pixel);
        proof {
            let after = accum_pixels_spec(accum@, scale, (k + 1) as nat);
            assert(after == before.push(pixel));
            assert(after.drop_last() =~= before);
            assert(out@ =~= head + pixels_text_spec(after));
        }
        k += 1;
    }
}

} // verus!
