//! From colours to the bytes and the text of an image.

use vstd::prelude::*;
use crate::scalar::{Scalar, zero, zero_spec};
use crate::interval::Interval;
use crate::vec3::Vec3;

verus! {

/// The gamma-2 transform of a linear colour component: its square root, and
/// zero for a component that is not above zero.
pub open spec fn linear_to_gamma_spec<S: Scalar>(linear_component: S) -> S {
    if linear_component.key() > zero_spec::<S>().key() {
        linear_component.sqrt_spec()
    } else {
        zero_spec::<S>()
    }
}

pub fn linear_to_gamma<S: Scalar>(linear_component: S) -> (r: S)
    ensures
        r == linear_to_gamma_spec(linear_component),
{
    if zero::<S>().lt(linear_component) {
        linear_component.sqrt()
    } else {
        zero::<S>()
    }
}

/// The range of intensities that a byte can show: from 0 to 0.999.
pub open spec fn intensity_spec<S: Scalar>() -> Interval<S> {
    Interval { min: zero_spec::<S>(), max: S::from_ratio_spec(999, 1000) }
}

/// An integer held within the range of a byte.
pub open spec fn byte_of_spec(n: i64) -> u8 {
    if n < 0 {
        0u8
    } else if n > 255 {
        255u8
    } else {
        n as u8
    }
}

/// The byte of a colour component after the gamma transform: the component,
/// held within the intensities, times 256, cut to a whole number.
pub open spec fn quantize_spec<S: Scalar>(gamma_component: S) -> u8 {
    byte_of_spec(
        S::from_ratio_spec(256, 1).times_spec(intensity_spec::<S>().clamp_spec(gamma_component))
            .truncate_spec(),
    )
}

pub fn quantize<S: Scalar>(gamma_component: S) -> (r: u8)
    ensures
        r == quantize_spec(gamma_component),
{
    let intensity = Interval::new(zero::<S>(), S::from_ratio(999, 1000));
    let n = S::from_ratio(256, 1).times(intensity.clamp(gamma_component)).truncate();
    if n < 0 {
        0
    } else if n > 255 {
        255
    } else {
        n as u8
    }
}

/// The byte of a linear colour component.
pub open spec fn channel_byte_spec<S: Scalar>(linear_component: S) -> u8 {
    quantize_spec(linear_to_gamma_spec(linear_component))
}

/// The three bytes of a colour.
pub open spec fn pixel_bytes_spec<S: Scalar>(pixel_color: Vec3<S>) -> (u8, u8, u8) {
    (
        channel_byte_spec(pixel_color.e0),
        channel_byte_spec(pixel_color.e1),
        channel_byte_spec(pixel_color.e2),
    )
}

pub fn pixel_bytes<S: Scalar>(pixel_color: Vec3<S>) -> (r: (u8, u8, u8))
    ensures
        r == pixel_bytes_spec(pixel_color),
{
    (
        quantize(linear_to_gamma(pixel_color.e0)),
        quantize(linear_to_gamma(pixel_color.e1)),
        quantize(linear_to_gamma(pixel_color.e2)),
    )
}

/// The decimal digits of a number, as text.
pub open spec fn decimal_spec(n: nat) -> Seq<u8>
    decreases n,
{
    if n < 10 {
        seq![(48 + n) as u8]
    } else {
        decimal_spec(n / 10).push((48 + n % 10) as u8)
    }
}

/// Appends the decimal digits of `n`.
pub fn push_decimal(out: &mut Vec<u8>, n: u64)
    ensures
        final(out)@ == old(out)@ + decimal_spec(n as nat),
    decreases n,
{
    if n >= 10 {
        push_decimal(out, n / 10);
    }
    let digit: u8 = (n % 10) as u8;
    out.push(48 + digit);
    proof {
        if n < 10 {
            assert(final(out)@ =~= old(out)@ + decimal_spec(n as nat));
        } else {
            assert(final(out)@ =~= old(out)@ + decimal_spec(n as nat));
        }
    }
}

/// The text of a whole number: its digits, after a minus sign where it is
/// negative.
pub open spec fn integer_spec(n: int) -> Seq<u8> {
    if n < 0 {
        seq![45u8] + decimal_spec((-n) as nat)
    } else {
        decimal_spec(n as nat)
    }
}

/// Appends the text of a whole number.
pub fn push_integer(out: &mut Vec<u8>, n: i32)
    ensures
        final(out)@ == old(out)@ + integer_spec(n as int),
{
    if n < 0 {
        out.push(45);
        let ghost mid = out@;
        push_decimal(out, (-(n as i64)) as u64);
        proof {
            assert(final(out)@ =~= old(out)@ + integer_spec(n as int));
        }
    } else {
        push_decimal(out, n as u64);
    }
}

/// The line of a pixel in the output: the three bytes in decimal, parted by
/// blanks and ended by a line feed.
pub open spec fn pixel_line_spec(pixel: (u8, u8, u8)) -> Seq<u8> {
    decimal_spec(pixel.0 as nat) + seq![32u8] + decimal_spec(pixel.1 as nat) + seq![32u8]
        + decimal_spec(pixel.2 as nat) + seq![10u8]
}

/// Appends the line of a pixel.
pub fn push_pixel(out: &mut Vec<u8>, pixel: (u8, u8, u8))
    ensures
        final(out)@ == old(out)@ + pixel_line_spec(pixel),
{
    push_decimal(out, pixel.0 as u64);
    out.push(32);
    push_decimal(out, pixel.1 as u64);
    out.push(32);
    push_decimal(out, pixel.2 as u64);
    out.push(10);
    proof {
        assert(final(out)@ =~= old(out)@ + pixel_line_spec(pixel));
    }
}

/// Appends the line of a colour to the output: each component is brought
/// from linear to gamma space, held within the intensities from 0 to 0.999,
/// and scaled to a byte.
pub fn write_color<S: Scalar>(out: &mut Vec<u8>, pixel_color: Vec3<S>)
    ensures
        final(out)@ == old(out)@ + pixel_line_spec(pixel_bytes_spec(pixel_color)),
{
    push_pixel(out, pixel_bytes(pixel_color));
}

/// The lines of a number of pixels, one after the other.
pub open spec fn pixels_text_spec(pixels: Seq<(u8, u8, u8)>) -> Seq<u8>
    decreases pixels.len(),
{
    if pixels.len() == 0 {
        Seq::empty()
    } else {
        pixels_text_spec(pixels.drop_last()) + pixel_line_spec(pixels.last())
    }
}

/// The text of the pixels of two parts of an image, one after the other,
/// is the text of the first part and then that of the second.
pub proof fn lemma_pixels_text_concat(a: Seq<(u8, u8, u8)>, b: Seq<(u8, u8, u8)>)
    ensures
        pixels_text_spec(a + b) == pixels_text_spec(a) + pixels_text_spec(b),
    decreases b.len(),
{
    if b.len() == 0 {
        assert(a + b =~= a);
        assert(pixels_text_spec(a) + pixels_text_spec(b) =~= pixels_text_spec(a));
    } else {
        lemma_pixels_text_concat(a, b.drop_last());
        assert((a + b).drop_last() =~= a + b.drop_last());
        assert((a + b).last() == b.last());
        assert(pixels_text_spec(a + b) =~= pixels_text_spec(a) + pixels_text_spec(b));
    }
}

/// The head of a plain-text image: the line `P3`, the line of the width
/// and the height, and the line `255`.
pub open spec fn ppm_header_spec(width: int, height: int) -> Seq<u8> {
    seq![80u8, 51u8, 10u8] + integer_spec(width) + seq![32u8] + integer_spec(height) + seq![
        10u8,
        50u8,
        53u8,
        53u8,
        10u8,
    ]
}

/// Appends the head of a plain-text image of the given extent.
pub fn push_ppm_header(out: &mut Vec<u8>, width: i32, height: i32)
    ensures
        final(out)@ == old(out)@ + ppm_header_spec(width as int, height as int),
{
    out.push(80);
    out.push(51);
    out.push(10);
    push_integer(out, width);
    out.push(32);
    push_integer(out, height);
    out.push(10);
    out.push(50);
    out.push(53);
    out.push(53);
    out.push(10);
    proof {
        assert(final(out)@ =~= old(out)@ + ppm_header_spec(width as int, height as int));
    }
}

} // verus!
