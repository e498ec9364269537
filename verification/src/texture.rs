//! Textures: a colour for each point of a surface.

use vstd::prelude::*;
use crate::scalar::{Scalar, zero, zero_spec, one, one_spec, whole, whole_spec};
use crate::interval::Interval;
use crate::rtw_image::RtwImage;
use crate::vec3::Vec3;
use std::sync::Arc;

verus! {

/// A colour for each point of a surface.
pub enum Texture<S: Scalar> {
    /// One colour everywhere.
    SolidColor(Vec3<S>),
    /// The colours of a picture, laid over the surface coordinates.
    Image(RtwImage),
}

pub type TextureRef<S> = Arc<Texture<S>>;

/// A shared texture.
pub fn make_tex<S: Scalar>(texture: Texture<S>) -> (r: TextureRef<S>)
    ensures
        *r == texture,
{
    Arc::new(texture)
}

/// An integer held within the range of `i32`.
pub open spec fn narrow_spec(n: i64) -> i32 {
    if n < i32::MIN {
        i32::MIN
    } else if n > i32::MAX {
        i32::MAX
    } else {
        n as i32
    }
}

pub fn narrow(n: i64) -> (r: i32)
    ensures
        r == narrow_spec(n),
{
    if n < i32::MIN as i64 {
        i32::MIN
    } else if n > i32::MAX as i64 {
        i32::MAX
    } else {
        n as i32
    }
}

/// The colour of three bytes: each byte over 255.
pub open spec fn color_of_bytes_spec<S: Scalar>(pixel: [u8; 3]) -> Vec3<S> {
    let color_scale = one_spec::<S>().over_spec(whole_spec::<S>(255));
    Vec3 {
        e0: color_scale.times_spec(whole_spec::<S>(pixel[0] as i64)),
        e1: color_scale.times_spec(whole_spec::<S>(pixel[1] as i64)),
        e2: color_scale.times_spec(whole_spec::<S>(pixel[2] as i64)),
    }
}

pub fn color_of_bytes<S: Scalar>(pixel: [u8; 3]) -> (r: Vec3<S>)
    ensures
        r == color_of_bytes_spec::<S>(pixel),
{
    let color_scale = one::<S>().over(whole::<S>(255));
    Vec3 {
        e0: color_scale.times(whole::<S>(pixel[0] as i64)),
        e1: color_scale.times(whole::<S>(pixel[1] as i64)),
        e2: color_scale.times(whole::<S>(pixel[2] as i64)),
    }
}

/// The unit interval `[0, 1]`.
pub open spec fn unit_interval_spec<S: Scalar>() -> Interval<S> {
    Interval { min: zero_spec::<S>(), max: one_spec::<S>() }
}

impl<S: Scalar> Texture<S> {
    /// The texture of one colour.
    pub fn solid(albedo: Vec3<S>) -> (r: Self)
        ensures
            r == Texture::SolidColor(albedo),
    {
        Texture::SolidColor(albedo)
    }

    /// The column of a picture of the given width under the surface
    /// coordinate `u`, held within `[0, 1]`.
    pub open spec fn column_spec(u: S, width: int) -> i32 {
        narrow_spec(
            unit_interval_spec::<S>().clamp_spec(u).times_spec(whole_spec::<S>(width as i64))
                .truncate_spec(),
        )
    }

    /// The row of a picture of the given height under the surface coordinate
    /// `v`, held within `[0, 1]` and counted from the bottom.
    pub open spec fn row_spec(v: S, height: int) -> i32 {
        narrow_spec(
            one_spec::<S>().minus_spec(unit_interval_spec::<S>().clamp_spec(v)).times_spec(
                whole_spec::<S>(height as i64),
            ).truncate_spec(),
        )
    }

    /// The colour at the surface coordinates `(u, v)` and the point `p`. A
    /// picture without pixels is cyan.
    pub open spec fn value_spec(&self, u: S, v: S, p: Vec3<S>) -> Vec3<S> {
        match self {
            Texture::SolidColor(albedo) => *albedo,
            Texture::Image(image) => {
                if image.height_spec() <= 0 {
                    Vec3 { e0: zero_spec::<S>(), e1: one_spec::<S>(), e2: one_spec::<S>() }
                } else {
                    color_of_bytes_spec::<S>(
                        image.pixel_data_spec(
                            Self::column_spec(u, image.width_spec()) as int,
                            Self::row_spec(v, image.height_spec()) as int,
                        ),
                    )
                }
            },
        }
    }

    pub fn value(&self, u: S, v: S, p: Vec3<S>) -> (r: Vec3<S>)
        ensures
            r == self.value_spec(u, v, p),
    {
        match self {
            Texture::SolidColor(albedo) => *albedo,
            Texture::Image(image) => {
                if image.height() <= 0 {
                    return Vec3 { e0: zero::<S>(), e1: one::<S>(), e2: one::<S>() };
                }
                let unit = Interval { min: zero::<S>(), max: one::<S>() };
                let u = unit.clamp(u);
                let v = one::<S>().minus(unit.clamp(v));
                let i = narrow(u.times(whole::<S>(image.width() as i64)).truncate());
                let j = narrow(v.times(whole::<S>(image.height() as i64)).truncate());
                color_of_bytes(image.pixel_data(i, j))
            },
        }
    }
}

} // verus!
