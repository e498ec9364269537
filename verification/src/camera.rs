//! The camera, the path integrator and the render of an image.

use vstd::prelude::*;
use crate::scalar::{Scalar, zero, zero_spec, one, one_spec, whole, whole_spec, max, max_spec};
use crate::fixed::{
    Fixed, lemma_zero_absorbs, lemma_zero_is_no_step, ratio_raw_spec, saturate_spec,
};
use crate::color::{
    intensity_spec, linear_to_gamma_spec, quantize_spec,
    lemma_pixels_text_concat, pixel_bytes, pixel_bytes_spec, pixels_text_spec, ppm_header_spec,
    push_pixel, push_ppm_header,
};
use crate::hittable::{HitRecord, HittableObject, HittableRef};
use crate::interval::Interval;
use crate::material::ScatterRecord;
use crate::pdf::{HittablePdf, MixturePdf, PdfObject, PdfRef, make_pdf};
use crate::ray::Ray;
use crate::rtweekend::{
    degrees_to_radians, degrees_to_radians_spec, next_bits, unit_from_bits, unit_from_bits_spec,
};
use crate::shared::share;
use crate::sphere::{forward_window, forward_window_spec};
use crate::texture::{narrow, narrow_spec};
use crate::vec3::{Vec3, cross, cross_spec, random_in_unit_disk, unit_vector, unit_vector_spec};
use rand::rngs::SmallRng;

verus! {

/// What a ray sees that strikes nothing.
pub enum Background<S: Scalar> {
    /// One radiance in every direction.
    Color(Vec3<S>),
    /// A sky that runs from white at the horizon to blue at the zenith.
    Sky,
}

/// The settings of a render.
pub struct Camera<S: Scalar> {
    /// Width over height of the image.
    pub aspect_ratio: S,
    /// The width of the image in pixels.
    pub image_width: i32,
    /// The number of samples for each pixel.
    pub samples_per_pixel: i32,
    /// The number of bounces after which a path is given up.
    pub max_depth: i32,
    pub background: Background<S>,
    /// The vertical field of view, in degrees.
    pub vfov: S,
    pub lookfrom: Vec3<S>,
    pub lookat: Vec3<S>,
    pub vup: Vec3<S>,
    /// The angle of the cone of rays through each pixel, in degrees.
    pub defocus_angle: S,
    /// The distance from `lookfrom` to the plane that is in focus.
    pub focus_dist: S,
}

/// What a render derives from its settings, once.
pub struct CameraInternals<S: Scalar> {
    pub image_height: i32,
    /// One over the number of samples that are taken for a pixel.
    pub pixel_samples_scale: S,
    /// The number of strata along each side of a pixel.
    pub sqrt_spp: i32,
    pub recip_sqrt_spp: S,
    pub center: Vec3<S>,
    /// The middle of the upper left pixel.
    pub pixel00_loc: Vec3<S>,
    pub pixel_delta_u: Vec3<S>,
    pub pixel_delta_v: Vec3<S>,
    pub defocus_disk_u: Vec3<S>,
    pub defocus_disk_v: Vec3<S>,
}

/// What becomes of a path at a hit.
pub enum Bounce<S: Scalar> {
    /// The path ends, and brings this radiance.
    Ends(Vec3<S>),
    /// The path follows the ray that a specular material chose. Where it had
    /// to survive, `survival` is the probability with which it did.
    Follows { emitted: Vec3<S>, attenuation: Vec3<S>, ray: Ray<S>, survival: Option<S> },
    /// The path goes on in a direction that is drawn from an even mixture of
    /// the lights and of `pdf`. It survived with the probability `rr_prob`.
    Samples { emitted: Vec3<S>, attenuation: Vec3<S>, pdf: PdfRef<S>, rr_prob: S },
}

/// The number of bounces after which paths are ended at random.
pub const ROULETTE_BOUNCES: i64 = 5;

/// The colour white.
pub open spec fn white_spec<S: Scalar>() -> Vec3<S> {
    Vec3 { e0: one_spec::<S>(), e1: one_spec::<S>(), e2: one_spec::<S>() }
}

/// The colour of the sky at the zenith: `(0.5, 0.7, 1.0)`.
pub open spec fn zenith_spec<S: Scalar>() -> Vec3<S> {
    Vec3 { e0: S::from_ratio_spec(1, 2), e1: S::from_ratio_spec(7, 10), e2: one_spec::<S>() }
}

/// The colour of the sky in a direction: white and the zenith colour,
/// blended by the height of the unit direction.
pub open spec fn sky_spec<S: Scalar>(direction: Vec3<S>) -> Vec3<S> {
    let a = S::from_ratio_spec(1, 2).times_spec(
        unit_vector_spec(direction).e1.plus_spec(one_spec::<S>()),
    );
    white_spec::<S>().scale_spec(one_spec::<S>().minus_spec(a)).plus_spec(
        zenith_spec::<S>().scale_spec(a),
    )
}

pub fn sky<S: Scalar>(direction: Vec3<S>) -> (r: Vec3<S>)
    ensures
        r == sky_spec(direction),
{
    let a = S::from_ratio(1, 2).times(unit_vector(direction).e1.plus(one::<S>()));
    let white = Vec3 { e0: one::<S>(), e1: one::<S>(), e2: one::<S>() };
    let zenith = Vec3 { e0: S::from_ratio(1, 2), e1: S::from_ratio(7, 10), e2: one::<S>() };
    white.scale(one::<S>().minus(a)).plus(zenith.scale(a))
}

/// The largest channel of a colour, held within `[0.05, 0.95]`.
pub open spec fn survival_spec<S: Scalar>(attenuation: Vec3<S>) -> S {
    (Interval { min: S::from_ratio_spec(1, 20), max: S::from_ratio_spec(19, 20) }).clamp_spec(
        max_spec(max_spec(attenuation.e0, attenuation.e1), attenuation.e2),
    )
}

/// The radiance along a ray whose bounce chose its next ray itself: the
/// light given off, and the radiance `sample` along the next ray, weakened by
/// the attenuation and, where the path had to survive with the probability
/// `p`, divided by `p`.
pub open spec fn specular_spec<S: Scalar>(
    emitted: Vec3<S>,
    attenuation: Vec3<S>,
    sample: Vec3<S>,
    p: Option<S>,
) -> Vec3<S> {
    match p {
        Some(p) => emitted.plus_spec(attenuation.times_spec(sample).over_spec(p)),
        None => emitted.plus_spec(attenuation.times_spec(sample)),
    }
}

pub fn specular<S: Scalar>(emitted: Vec3<S>, attenuation: Vec3<S>, sample: Vec3<S>, p: Option<S>)
    -> (r: Vec3<S>)
    ensures
        r == specular_spec(emitted, attenuation, sample, p),
{
    match p {
        Some(p) => emitted.plus(attenuation.times(sample).over(p)),
        None => emitted.plus(attenuation.times(sample)),
    }
}

/// The radiance along a ray whose next direction was drawn from a mixture:
/// the light given off, and the radiance `sample` along the next ray, weighted
/// by the attenuation and the scattering density, over the density of the
/// mixture times the probability of survival.
pub open spec fn weigh_spec<S: Scalar>(
    emitted: Vec3<S>,
    attenuation: Vec3<S>,
    scattering_pdf: S,
    sample: Vec3<S>,
    pdf_value: S,
    rr_prob: S,
) -> Vec3<S> {
    emitted.plus_spec(
        attenuation.scale_spec(scattering_pdf).times_spec(sample).over_spec(
            pdf_value.times_spec(rr_prob),
        ),
    )
}

pub fn weigh<S: Scalar>(
    emitted: Vec3<S>,
    attenuation: Vec3<S>,
    scattering_pdf: S,
    sample: Vec3<S>,
    pdf_value: S,
    rr_prob: S,
) -> (r: Vec3<S>)
    ensures
        r == weigh_spec(emitted, attenuation, scattering_pdf, sample, pdf_value, rr_prob),
{
    emitted.plus(attenuation.scale(scattering_pdf).times(sample).over(pdf_value.times(rr_prob)))
}

/// The sum of `n` samples that are all black.
pub open spec fn black_sum_spec<S: Scalar>(n: nat) -> Vec3<S>
    decreases n,
{
    if n == 0 {
        Vec3::<S>::zeros_spec()
    } else {
        black_sum_spec::<S>((n - 1) as nat).plus_spec(Vec3::<S>::zeros_spec())
    }
}

/// The sum of a number of samples, added to black one after the other.
pub open spec fn sum_spec<S: Scalar>(samples: Seq<Vec3<S>>) -> Vec3<S>
    decreases samples.len(),
{
    if samples.len() == 0 {
        Vec3::<S>::zeros_spec()
    } else {
        sum_spec(samples.drop_last()).plus_spec(samples.last())
    }
}

/// The mean of a number of samples: their sum, scaled by `scale`, which is
/// one over their number.
pub open spec fn mean_spec<S: Scalar>(samples: Seq<Vec3<S>>, scale: S) -> Vec3<S> {
    sum_spec(samples).scale_spec(scale)
}

/// The mean of the samples of a pixel.
pub fn mean_of<S: Scalar>(samples: &Vec<Vec3<S>>, scale: S) -> (c: Vec3<S>)
    ensures
        c == mean_spec(samples@, scale),
{
    let mut sum = Vec3::<S>::zeros();
    let mut k: usize = 0;
    while k < samples.len()
        invariant
            k <= samples@.len(),
            sum == sum_spec(samples@.take(k as int)),
        decreases samples.len() - k,
    {
        proof {
            assert(samples@.take(k + 1).drop_last() =~= samples@.take(k as int));
        }
        sum = sum.plus(samples[k]);
        k += 1;
    }
    proof {
        assert(samples@.take(samples@.len() as int) =~= samples@);
    }
    sum.scale(scale)
}

/// The sum of samples that are all black is the sum of as many black
/// samples.
pub proof fn lemma_sum_of_black<S: Scalar>(samples: Seq<Vec3<S>>)
    requires
        forall|k: int| 0 <= k < samples.len() ==> #[trigger] samples[k] == Vec3::<S>::zeros_spec(),
    ensures
        sum_spec(samples) == black_sum_spec::<S>(samples.len()),
    decreases samples.len(),
{
    if samples.len() > 0 {
        lemma_sum_of_black(samples.drop_last());
    }
}

impl<S: Scalar> Default for Camera<S> {
    /// A square image of a hundred pixels' width, ten samples for a pixel
    /// and ten bounces, seen from the origin along the negative third axis
    /// with a field of view of ninety degrees, sharp everywhere, before a black
    /// background.
    fn default() -> (r: Self)
        ensures
            r.aspect_ratio == one_spec::<S>(),
            r.image_width == 100,
            r.samples_per_pixel == 10,
            r.max_depth == 10,
            r.background == Background::Color(Vec3::<S>::zeros_spec()),
            r.vfov == whole_spec::<S>(90),
            r.lookfrom == Vec3::<S>::zeros_spec(),
            r.lookat == (Vec3 {
                e0: zero_spec::<S>(),
                e1: zero_spec::<S>(),
                e2: whole_spec::<S>(-1i64),
            }),
            r.vup == (Vec3 { e0: zero_spec::<S>(), e1: one_spec::<S>(), e2: zero_spec::<S>() }),
            r.defocus_angle == zero_spec::<S>(),
            r.focus_dist == whole_spec::<S>(10),
    {
        Camera {
            aspect_ratio: one::<S>(),
            image_width: 100,
            samples_per_pixel: 10,
            max_depth: 10,
            background: Background::Color(Vec3::zeros()),
            vfov: whole::<S>(90),
            lookfrom: Vec3::zeros(),
            lookat: Vec3 { e0: zero::<S>(), e1: zero::<S>(), e2: whole::<S>(-1) },
            vup: Vec3 { e0: zero::<S>(), e1: one::<S>(), e2: zero::<S>() },
            defocus_angle: zero::<S>(),
            focus_dist: whole::<S>(10),
        }
    }
}

impl<S: Scalar> Camera<S> {
    /// The height of the image: the width over the aspect ratio, cut to a
    /// whole number, and at least one.
    pub open spec fn image_height_spec(&self) -> i32 {
        let h = narrow_spec(
            whole_spec::<S>(self.image_width as i64).over_spec(self.aspect_ratio).truncate_spec(),
        );
        if h < 1 {
            1
        } else {
            h
        }
    }

    /// The number of strata along each side of a pixel: the square root of
    /// the samples for a pixel, cut to a whole number.
    pub open spec fn sqrt_spp_spec(&self) -> i32 {
        narrow_spec(whole_spec::<S>(self.samples_per_pixel as i64).sqrt_spec().truncate_spec())
    }

    /// The number of samples that are taken for a pixel: the square of the
    /// number of strata along a side.
    pub open spec fn samples_spec(sqrt_spp: i32) -> int {
        if sqrt_spp <= 0 {
            0
        } else {
            sqrt_spp * sqrt_spp
        }
    }

    pub open spec fn initialize_spec(&self) -> CameraInternals<S> {
        let image_height = self.image_height_spec();
        let sqrt_spp = self.sqrt_spp_spec();
        let theta = degrees_to_radians_spec(self.vfov);
        let h = theta.over_spec(whole_spec::<S>(2)).tan_spec();
        let viewport_height = whole_spec::<S>(2).times_spec(h).times_spec(self.focus_dist);
        let viewport_width = viewport_height.times_spec(
            whole_spec::<S>(self.image_width as i64).over_spec(whole_spec::<S>(image_height as i64)),
        );
        let w = unit_vector_spec(self.lookfrom.minus_spec(self.lookat));
        let u = unit_vector_spec(cross_spec(self.vup, w));
        let v = cross_spec(w, u);
        let viewport_u = u.scale_spec(viewport_width);
        let viewport_v = v.negate_spec().scale_spec(viewport_height);
        let pixel_delta_u = viewport_u.over_spec(whole_spec::<S>(self.image_width as i64));
        let pixel_delta_v = viewport_v.over_spec(whole_spec::<S>(image_height as i64));
        let viewport_upper_left = self.lookfrom.minus_spec(w.scale_spec(self.focus_dist)).minus_spec(
            viewport_u.over_spec(whole_spec::<S>(2)),
        ).minus_spec(viewport_v.over_spec(whole_spec::<S>(2)));
        let defocus_radius = self.focus_dist.times_spec(
            degrees_to_radians_spec(self.defocus_angle.over_spec(whole_spec::<S>(2))).tan_spec(),
        );
        CameraInternals {
            image_height,
            pixel_samples_scale: one_spec::<S>().over_spec(
                whole_spec::<S>((sqrt_spp as i64 * sqrt_spp as i64) as i64),
            ),
            sqrt_spp,
            recip_sqrt_spp: one_spec::<S>().over_spec(whole_spec::<S>(sqrt_spp as i64)),
            center: self.lookfrom,
            pixel00_loc: viewport_upper_left.plus_spec(
                pixel_delta_u.plus_spec(pixel_delta_v).scale_spec(S::from_ratio_spec(1, 2)),
            ),
            pixel_delta_u,
            pixel_delta_v,
            defocus_disk_u: u.scale_spec(defocus_radius),
            defocus_disk_v: v.scale_spec(defocus_radius),
        }
    }

    /// Derives the extent of the image, the basis of the viewport, the steps
    /// from pixel to pixel, the basis of the lens and the strata of a pixel.
    pub fn initialize(&self) -> (data: CameraInternals<S>)
        ensures
            data == self.initialize_spec(),
            data.image_height >= 1,
    {
        let mut image_height = narrow(
            whole::<S>(self.image_width as i64).over(self.aspect_ratio).truncate(),
        );
        if image_height < 1 {
            image_height = 1;
        }
        let sqrt_spp = narrow(whole::<S>(self.samples_per_pixel as i64).sqrt().truncate());
        assert(-0x8000_0000 * 0x8000_0000 <= (sqrt_spp as i64) * (sqrt_spp as i64) <= 0x8000_0000
            * 0x8000_0000) by (nonlinear_arith)
            requires
                -0x8000_0000 <= sqrt_spp as i64 <= 0x7fff_ffff,
        ;
        let pixel_samples_scale = one::<S>().over(
            whole::<S>((sqrt_spp as i64) * (sqrt_spp as i64)),
        );
        let recip_sqrt_spp = one::<S>().over(whole::<S>(sqrt_spp as i64));
        let center = self.lookfrom;
        let theta = degrees_to_radians(self.vfov);
        let h = theta.over(whole::<S>(2)).tan();
        let viewport_height = whole::<S>(2).times(h).times(self.focus_dist);
        let viewport_width = viewport_height.times(
            whole::<S>(self.image_width as i64).over(whole::<S>(image_height as i64)),
        );
        let w = unit_vector(self.lookfrom.minus(self.lookat));
        let u = unit_vector(cross(self.vup, w));
        let v = cross(w, u);
        let viewport_u = u.scale(viewport_width);
        let viewport_v = v.negate().scale(viewport_height);
        let pixel_delta_u = viewport_u.over(whole::<S>(self.image_width as i64));
        let pixel_delta_v = viewport_v.over(whole::<S>(image_height as i64));
        let viewport_upper_left = center.minus(w.scale(self.focus_dist)).minus(
            viewport_u.over(whole::<S>(2)),
        ).minus(viewport_v.over(whole::<S>(2)));
        let pixel00_loc = viewport_upper_left.plus(
            pixel_delta_u.plus(pixel_delta_v).scale(S::from_ratio(1, 2)),
        );
        let defocus_radius = self.focus_dist.times(
            degrees_to_radians(self.defocus_angle.over(whole::<S>(2))).tan(),
        );
        CameraInternals {
            image_height,
            pixel_samples_scale,
            sqrt_spp,
            recip_sqrt_spp,
            center,
            pixel00_loc,
            pixel_delta_u,
            pixel_delta_v,
            defocus_disk_u: u.scale(defocus_radius),
            defocus_disk_v: v.scale(defocus_radius),
        }
    }

    /// The point of the unit square around a pixel, from `-0.5` to `0.5` on
    /// both axes, that lies in the stratum `(s_i, s_j)` at the place that the
    /// unit scalars `ux` and `uy` select.
    pub open spec fn stratified_spec(s_i: i32, s_j: i32, recip_sqrt_spp: S, ux: S, uy: S) -> Vec3<
        S,
    > {
        Vec3 {
            e0: whole_spec::<S>(s_i as i64).plus_spec(ux).times_spec(recip_sqrt_spp).minus_spec(
                S::from_ratio_spec(1, 2),
            ),
            e1: whole_spec::<S>(s_j as i64).plus_spec(uy).times_spec(recip_sqrt_spp).minus_spec(
                S::from_ratio_spec(1, 2),
            ),
            e2: zero_spec::<S>(),
        }
    }

    pub fn stratified(s_i: i32, s_j: i32, recip_sqrt_spp: S, ux: S, uy: S) -> (r: Vec3<S>)
        ensures
            r == Self::stratified_spec(s_i, s_j, recip_sqrt_spp, ux, uy),
    {
        Vec3 {
            e0: whole::<S>(s_i as i64).plus(ux).times(recip_sqrt_spp).minus(S::from_ratio(1, 2)),
            e1: whole::<S>(s_j as i64).plus(uy).times(recip_sqrt_spp).minus(S::from_ratio(1, 2)),
            e2: zero::<S>(),
        }
    }

    /// A random point of the stratum `(s_i, s_j)` of the unit square around
    /// a pixel.
    pub fn sample_square_stratified(
        &self,
        s_i: i32,
        s_j: i32,
        recip_sqrt_spp: S,
        rng: &mut SmallRng,
    ) -> (r: Vec3<S>)
        ensures
            exists|bx: u64, by: u64|
                r == Self::stratified_spec(
                    s_i,
                    s_j,
                    recip_sqrt_spp,
                    unit_from_bits_spec::<S>(bx),
                    unit_from_bits_spec::<S>(by),
                ),
    {
        let bx = next_bits(rng);
        let by = next_bits(rng);
        Self::stratified(s_i, s_j, recip_sqrt_spp, unit_from_bits(bx), unit_from_bits(by))
    }

    /// The point of the lens with the coordinates `p` in the basis of the
    /// lens.
    pub open spec fn lens_point_spec(data: CameraInternals<S>, p: Vec3<S>) -> Vec3<S> {
        data.center.plus_spec(data.defocus_disk_u.scale_spec(p.e0)).plus_spec(
            data.defocus_disk_v.scale_spec(p.e1),
        )
    }

    pub fn lens_point(data: &CameraInternals<S>, p: Vec3<S>) -> (r: Vec3<S>)
        ensures
            r == Self::lens_point_spec(*data, p),
    {
        data.center.plus(data.defocus_disk_u.scale(p.e0)).plus(data.defocus_disk_v.scale(p.e1))
    }

    /// A random point of the lens.
    pub fn defocus_disk_sample(&self, data: &CameraInternals<S>, rng: &mut SmallRng) -> (r: Vec3<S>)
        ensures
            exists|p: Vec3<S>| r == Self::lens_point_spec(*data, p),
    {
        let p = random_in_unit_disk(rng);
        Self::lens_point(data, p)
    }

    /// The camera is sharp everywhere: rays start at its centre.
    pub open spec fn is_pinhole(&self) -> bool {
        self.defocus_angle.key() <= zero_spec::<S>().key()
    }

    /// The ray from `origin` through the point `offset` of the unit square
    /// around the pixel in column `i` of row `j`, cast at `time`.
    pub open spec fn ray_through_spec(
        data: CameraInternals<S>,
        i: i32,
        j: i32,
        offset: Vec3<S>,
        origin: Vec3<S>,
        time: S,
    ) -> Ray<S> {
        let pixel_sample = data.pixel00_loc.plus_spec(
            data.pixel_delta_u.scale_spec(whole_spec::<S>(i as i64).plus_spec(offset.e0)),
        ).plus_spec(data.pixel_delta_v.scale_spec(whole_spec::<S>(j as i64).plus_spec(offset.e1)));
        Ray { orig: origin, dir: pixel_sample.minus_spec(origin), tm: time }
    }

    pub fn ray_through(
        data: &CameraInternals<S>,
        i: i32,
        j: i32,
        offset: Vec3<S>,
        origin: Vec3<S>,
        time: S,
    ) -> (r: Ray<S>)
        ensures
            r == Self::ray_through_spec(*data, i, j, offset, origin, time),
    {
        let pixel_sample = data.pixel00_loc.plus(
            data.pixel_delta_u.scale(whole::<S>(i as i64).plus(offset.e0)),
        ).plus(data.pixel_delta_v.scale(whole::<S>(j as i64).plus(offset.e1)));
        Ray::new_with_time(origin, pixel_sample.minus(origin), time)
    }

    /// The ray through the stratum `(s_i, s_j)` of a pixel that three draws
    /// and an origin select.
    pub open spec fn sample_ray_spec(
        data: CameraInternals<S>,
        i: i32,
        j: i32,
        s_i: i32,
        s_j: i32,
        bx: u64,
        by: u64,
        origin: Vec3<S>,
        bt: u64,
    ) -> Ray<S> {
        Self::ray_through_spec(
            data,
            i,
            j,
            Self::stratified_spec(
                s_i,
                s_j,
                data.recip_sqrt_spp,
                unit_from_bits_spec::<S>(bx),
                unit_from_bits_spec::<S>(by),
            ),
            origin,
            unit_from_bits_spec::<S>(bt),
        )
    }

    /// The ray `r` is one that the camera can cast through the stratum
    /// `(s_i, s_j)` of the pixel in column `i` of row `j`: the ray of
    /// `sample_ray_spec` for three draws and an origin, which is the centre of
    /// a camera that is sharp everywhere, and else a point of the lens.
    pub open spec fn is_sample_ray(
        &self,
        data: CameraInternals<S>,
        i: i32,
        j: i32,
        s_i: i32,
        s_j: i32,
        r: Ray<S>,
    ) -> bool {
        exists|bx: u64, by: u64, origin: Vec3<S>, bt: u64|
            r == #[trigger] Self::sample_ray_spec(data, i, j, s_i, s_j, bx, by, origin, bt) && (
            self.is_pinhole() ==> origin == data.center) && (!self.is_pinhole() ==> exists|
                p: Vec3<S>,
            |
                origin == Self::lens_point_spec(data, p))
    }

    /// A random ray through the stratum `(s_i, s_j)` of the pixel in column
    /// `i` of row `j`: through a random point of the stratum, from the centre of
    /// the camera or, where the lens is open, from a random point of the lens,
    /// at a random time in `[0, 1)`.
    pub fn get_ray(
        &self,
        i: i32,
        j: i32,
        s_i: i32,
        s_j: i32,
        data: &CameraInternals<S>,
        rng: &mut SmallRng,
    ) -> (r: Ray<S>)
        ensures
            self.is_sample_ray(*data, i, j, s_i, s_j, r),
    {
        let bx = next_bits(rng);
        let by = next_bits(rng);
        let offset = Self::stratified(
            s_i,
            s_j,
            data.recip_sqrt_spp,
            unit_from_bits(bx),
            unit_from_bits(by),
        );
        let ray_origin = if self.defocus_angle.le(zero::<S>()) {
            data.center
        } else {
            self.defocus_disk_sample(data, rng)
        };
        let bt = next_bits(rng);
        let r = Self::ray_through(data, i, j, offset, ray_origin, unit_from_bits(bt));
        assert(r == Self::sample_ray_spec(*data, i, j, s_i, s_j, bx, by, ray_origin, bt));
        r
    }

    /// What a ray in the direction of `r` sees where it strikes nothing.
    pub open spec fn background_spec(&self, r: Ray<S>) -> Vec3<S> {
        match self.background {
            Background::Color(c) => c,
            Background::Sky => sky_spec(r.dir),
        }
    }

    pub fn background_color(&self, r: &Ray<S>) -> (c: Vec3<S>)
        ensures
            c == self.background_spec(*r),
    {
        match self.background {
            Background::Color(c) => c,
            Background::Sky => sky(r.direction()),
        }
    }

    /// The probability with which a path that has `depth` bounces left has
    /// to survive: none before its fifth bounce, and from then on the largest
    /// channel of the attenuation, held within `[0.05, 0.95]`.
    pub open spec fn roulette_spec(&self, depth: i32, attenuation: Vec3<S>) -> Option<S> {
        if self.max_depth - depth >= ROULETTE_BOUNCES {
            Some(survival_spec(attenuation))
        } else {
            None
        }
    }

    pub fn roulette(&self, depth: i32, attenuation: Vec3<S>) -> (p: Option<S>)
        ensures
            p == self.roulette_spec(depth, attenuation),
    {
        let bounces: i64 = self.max_depth as i64 - depth as i64;
        if bounces >= ROULETTE_BOUNCES {
            let range = Interval::new(S::from_ratio(1, 20), S::from_ratio(19, 20));
            Some(range.clamp(max(max(attenuation.e0, attenuation.e1), attenuation.e2)))
        } else {
            None
        }
    }

    /// The probability of survival of a path that samples its next
    /// direction: that of the roulette, and one before the roulette begins.
    pub open spec fn rr_prob_spec(&self, depth: i32, attenuation: Vec3<S>) -> S {
        match self.roulette_spec(depth, attenuation) {
            Some(p) => p,
            None => one_spec::<S>(),
        }
    }

    /// The roulette is played at this bounce: the material scatters, and
    /// the path is at its fifth bounce or beyond; for a material that leaves
    /// the next direction to the integrator, moreover, the probability of
    /// survival lies below one.
    pub open spec fn plays_roulette_spec(&self, depth: i32, srec: Option<ScatterRecord<S>>) -> bool {
        match srec {
            None => false,
            Some(s) => if s.skip_pdf {
                self.roulette_spec(depth, s.attenuation) is Some
            } else {
                s.pdf_ptr is Some && self.rr_prob_spec(depth, s.attenuation).key() < one_spec::<
                    S,
                >().key()
            },
        }
    }

    pub fn plays_roulette(&self, depth: i32, srec: &Option<ScatterRecord<S>>) -> (r: bool)
        ensures
            r == self.plays_roulette_spec(depth, *srec),
    {
        match srec {
            None => false,
            Some(s) => {
                let survival = self.roulette(depth, s.attenuation);
                if s.skip_pdf {
                    survival.is_some()
                } else if s.pdf_ptr.is_some() {
                    let rr_prob = match survival {
                        Some(p) => p,
                        None => one::<S>(),
                    };
                    rr_prob.lt(one::<S>())
                } else {
                    false
                }
            },
        }
    }

    /// What becomes of a path with `depth` bounces left at a hit where the
    /// material gives off `emitted` and answers `srec`, for the unit scalar
    /// `draw` of the roulette.
    ///
    /// The path ends with the material's own light where the material does
    /// not scatter, and where the roulette is played and the draw lies beyond
    /// the probability of survival. Else it follows the ray of a specular
    /// material, or samples the distribution of a material that has one; a
    /// material with neither ends the path.
    pub open spec fn bounce_spec(
        &self,
        depth: i32,
        emitted: Vec3<S>,
        srec: Option<ScatterRecord<S>>,
        draw: S,
    ) -> Bounce<S> {
        match srec {
            None => Bounce::Ends(emitted),
            Some(s) => {
                let survival = self.roulette_spec(depth, s.attenuation);
                let rr_prob = self.rr_prob_spec(depth, s.attenuation);
                if self.plays_roulette_spec(depth, srec) && rr_prob.key() < draw.key() {
                    Bounce::Ends(emitted)
                } else if s.skip_pdf {
                    Bounce::Follows {
                        emitted,
                        attenuation: s.attenuation,
                        ray: s.skip_pdf_ray,
                        survival,
                    }
                } else {
                    match s.pdf_ptr {
                        Some(pdf) => Bounce::Samples {
                            emitted,
                            attenuation: s.attenuation,
                            pdf,
                            rr_prob,
                        },
                        None => Bounce::Ends(emitted),
                    }
                }
            },
        }
    }

    pub fn bounce(&self, depth: i32, emitted: Vec3<S>, srec: Option<ScatterRecord<S>>, draw: S)
        -> (r: Bounce<S>)
        ensures
            r == self.bounce_spec(depth, emitted, srec, draw),
    {
        let played = self.plays_roulette(depth, &srec);
        match srec {
            None => Bounce::Ends(emitted),
            Some(s) => {
                let survival = self.roulette(depth, s.attenuation);
                let rr_prob = match survival {
                    Some(p) => p,
                    None => one::<S>(),
                };
                if played && rr_prob.lt(draw) {
                    Bounce::Ends(emitted)
                } else if s.skip_pdf {
                    Bounce::Follows {
                        emitted,
                        attenuation: s.attenuation,
                        ray: s.skip_pdf_ray,
                        survival,
                    }
                } else {
                    match s.pdf_ptr {
                        Some(pdf) => Bounce::Samples {
                            emitted,
                            attenuation: s.attenuation,
                            pdf,
                            rr_prob,
                        },
                        None => Bounce::Ends(emitted),
                    }
                }
            },
        }
    }

    /// The scene names no light to sample: the lights are a list without
    /// objects.
    pub open spec fn has_no_lights(lights: HittableRef<S>) -> bool {
        *lights matches HittableObject::List(list) && list.objects@.len() == 0
    }

    pub fn no_lights(lights: &HittableRef<S>) -> (r: bool)
        ensures
            r == Self::has_no_lights(*lights),
    {
        match &**lights {
            HittableObject::List(list) => list.objects.len() == 0,
            _ => false,
        }
    }

    /// The direction `dir` is one that a path can take from the point `p` of
    /// a material with the distribution `pdf`: a direction of an even mixture
    /// of the lights, as seen from `p`, and of `pdf`; or, in a scene that names
    /// no light, a direction of `pdf` alone.
    pub open spec fn can_turn(lights: HittableRef<S>, p: Vec3<S>, pdf: PdfRef<S>, dir: Vec3<S>)
        -> bool {
        if Self::has_no_lights(lights) {
            pdf.can_generate(dir)
        } else {
            lights.can_sample(p, dir) || pdf.can_generate(dir)
        }
    }

    /// The density with which a path takes the direction `dir` from `p`:
    /// that of the even mixture, or of `pdf` alone in a scene that names no
    /// light.
    pub open spec fn density_spec(lights: HittableRef<S>, p: Vec3<S>, pdf: PdfRef<S>, dir: Vec3<S>)
        -> S {
        if Self::has_no_lights(lights) {
            pdf.value_spec(dir)
        } else {
            MixturePdf::<S>::blend_spec(lights.pdf_value_spec(p, dir), pdf.value_spec(dir))
        }
    }

    /// A direction of this density brings nothing: the density is not above
    /// zero.
    pub open spec fn vanishes_spec(pdf_value: S) -> bool {
        pdf_value.key() <= zero_spec::<S>().key()
    }

    pub fn vanishes(pdf_value: S) -> (r: bool)
        ensures
            r == Self::vanishes_spec(pdf_value),
    {
        pdf_value.le(zero::<S>())
    }

    /// The radiance along the ray `r` of a path with `depth` bounces left,
    /// where the scene answers `res`, the material answers `srec`, the
    /// roulette draws `draw`, the path turns into `dir` where it samples, and
    /// `sample` arrives along its next ray.
    ///
    /// A ray that strikes nothing brings the background. At a hit, `bounce_spec`
    /// decides: a path that ends brings what it ends with; one that follows a
    /// specular ray brings `specular_spec`; one that samples brings the
    /// material's own light where the density of `dir` vanishes, and else
    /// `weigh_spec`.
    pub open spec fn shade_spec(
        &self,
        lights: HittableRef<S>,
        r: Ray<S>,
        depth: i32,
        res: Option<HitRecord<S>>,
        srec: Option<ScatterRecord<S>>,
        draw: S,
        dir: Vec3<S>,
        sample: Vec3<S>,
    ) -> Vec3<S> {
        match res {
            None => self.background_spec(r),
            Some(rec) => match self.bounce_spec(
                depth,
                rec.mat.emitted_spec(rec, rec.u, rec.v, rec.p),
                srec,
                draw,
            ) {
                Bounce::Ends(c) => c,
                Bounce::Follows { emitted, attenuation, ray, survival } => specular_spec(
                    emitted,
                    attenuation,
                    sample,
                    survival,
                ),
                Bounce::Samples { emitted, attenuation, pdf, rr_prob } => {
                    let pdf_value = Self::density_spec(lights, rec.p, pdf, dir);
                    if Self::vanishes_spec(pdf_value) {
                        emitted
                    } else {
                        weigh_spec(
                            emitted,
                            attenuation,
                            rec.mat.scattering_pdf_spec(rec, Ray { orig: rec.p, dir, tm: r.tm }),
                            sample,
                            pdf_value,
                            rr_prob,
                        )
                    }
                },
            },
        }
    }

    /// The ray that the path takes next, if it goes on: the ray of a
    /// specular material, or the ray from the hit into `dir` where the path
    /// samples and the density of `dir` does not vanish.
    pub open spec fn next_ray_spec(
        &self,
        lights: HittableRef<S>,
        r: Ray<S>,
        depth: i32,
        res: Option<HitRecord<S>>,
        srec: Option<ScatterRecord<S>>,
        draw: S,
        dir: Vec3<S>,
    ) -> Option<Ray<S>> {
        match res {
            None => None,
            Some(rec) => match self.bounce_spec(
                depth,
                rec.mat.emitted_spec(rec, rec.u, rec.v, rec.p),
                srec,
                draw,
            ) {
                Bounce::Ends(_) => None,
                Bounce::Follows { ray, .. } => Some(ray),
                Bounce::Samples { pdf, .. } => if Self::vanishes_spec(
                    Self::density_spec(lights, rec.p, pdf, dir),
                ) {
                    None
                } else {
                    Some(Ray { orig: rec.p, dir, tm: r.tm })
                },
            },
        }
    }

    /// The material can answer `srec` at the hit, and the path can turn
    /// into `dir` where it samples.
    pub open spec fn can_bounce(
        &self,
        lights: HittableRef<S>,
        r: Ray<S>,
        depth: i32,
        res: Option<HitRecord<S>>,
        srec: Option<ScatterRecord<S>>,
        draw: S,
        dir: Vec3<S>,
    ) -> bool {
        match res {
            None => true,
            Some(rec) => rec.mat.can_scatter(r, rec, srec) && (self.bounce_spec(
                depth,
                rec.mat.emitted_spec(rec, rec.u, rec.v, rec.p),
                srec,
                draw,
            ) matches Bounce::Samples { pdf, .. } ==> Self::can_turn(lights, rec.p, pdf, dir)),
        }
    }

    /// The radiance `c` is one that can arrive along the ray `r` of a path
    /// with `depth` bounces left: nothing without a bounce left; else, for
    /// some answer of the scene in the window from the bias on, some answer of
    /// the material, some draw of the roulette, some direction that the path
    /// can turn into, and some radiance that can arrive along the next ray
    /// with one bounce less, it is `shade_spec` of these.
    pub open spec fn can_color(
        &self,
        world: &HittableObject<S>,
        lights: HittableRef<S>,
        r: Ray<S>,
        depth: i32,
        c: Vec3<S>,
    ) -> bool
        decreases depth,
    {
        if depth <= 0 {
            c == Vec3::<S>::zeros_spec()
        } else {
            exists|
                res: Option<HitRecord<S>>,
                srec: Option<ScatterRecord<S>>,
                draw: S,
                dir: Vec3<S>,
                sample: Vec3<S>,
            |
                world.can_answer(r, forward_window_spec::<S>(), res) && self.can_bounce(
                    lights,
                    r,
                    depth,
                    res,
                    srec,
                    draw,
                    dir,
                ) && (self.next_ray_spec(lights, r, depth, res, srec, draw, dir) matches Some(next)
                    ==> self.can_color(world, lights, next, (depth - 1) as i32, sample)) && c
                    == #[trigger] self.shade_spec(lights, r, depth, res, srec, draw, dir, sample)
        }
    }

    /// The radiance that arrives along the ray `r`, for a path that has
    /// `depth` bounces left.
    ///
    /// A path without bounces left brings nothing. A ray that strikes nothing
    /// in the window from the bias on brings the background. At a hit,
    /// `bounce` decides what becomes of the path, with a draw for the roulette
    /// where it is played. A path that follows a specular ray brings
    /// `specular_spec` of the radiance along that ray. A path that samples
    /// draws its next direction from an even mixture of the lights and of the
    /// material's distribution, or from the latter alone in a scene that names
    /// no light; it brings the material's own light where the density of that
    /// direction vanishes, and else `weigh_spec` of the radiance along it.
    pub fn ray_color(
        &self,
        r: Ray<S>,
        depth: i32,
        world: &HittableObject<S>,
        lights: &HittableRef<S>,
        rng: &mut SmallRng,
    ) -> (c: Vec3<S>)
        ensures
            self.can_color(world, *lights, r, depth, c),
            depth <= 0 ==> c == Vec3::<S>::zeros_spec(),
            depth > 0 && world.is_deterministic() ==> match world.hit_spec(
                r,
                forward_window_spec::<S>(),
            ) {
                None => c == self.background_spec(r),
                Some(rec) => !rec.mat.may_scatter() ==> c == rec.mat.emitted_spec(
                    rec,
                    rec.u,
                    rec.v,
                    rec.p,
                ),
            },
        decreases depth,
    {
        if depth <= 0 {
            return Vec3::zeros();
        }
        let hit = world.hit(&r, forward_window::<S>(), rng);
        let ghost res = hit;
        let ghost nowhere = Vec3::<S>::zeros_spec();
        let rec = match hit {
            Some(rec) => rec,
            None => {
                let c = self.background_color(&r);
                assert(c == self.shade_spec(
                    *lights,
                    r,
                    depth,
                    res,
                    None,
                    zero_spec::<S>(),
                    nowhere,
                    nowhere,
                ));
                return c;
            },
        };
        let emitted = rec.mat.emitted(&r, &rec, rec.u, rec.v, rec.p);
        let srec = rec.mat.scatter(&r, &rec, rng);
        let ghost seen = srec;
        let draw = if self.plays_roulette(depth, &srec) {
            unit_from_bits::<S>(next_bits(rng))
        } else {
            zero::<S>()
        };
        match self.bounce(depth, emitted, srec, draw) {
            Bounce::Ends(c) => {
                assert(c == self.shade_spec(*lights, r, depth, res, seen, draw, nowhere, nowhere));
                c
            },
            Bounce::Follows { emitted, attenuation, ray, survival } => {
                let sample = self.ray_color(ray, depth - 1, world, lights, rng);
                let c = specular(emitted, attenuation, sample, survival);
                assert(c == self.shade_spec(*lights, r, depth, res, seen, draw, nowhere, sample));
                c
            },
            Bounce::Samples { emitted, attenuation, pdf, rr_prob } => {
                let dir: Vec3<S>;
                let pdf_value: S;
                if Self::no_lights(lights) {
                    dir = pdf.generate(rng);
                    pdf_value = pdf.value(dir);
                } else {
                    let light_pdf = make_pdf(
                        PdfObject::HittablePdf(HittablePdf::new(share(lights), rec.p)),
                    );
                    let mixed_pdf = MixturePdf::new(light_pdf, pdf);
                    dir = mixed_pdf.generate(rng);
                    pdf_value = mixed_pdf.value(dir);
                }
                let scattered = Ray::new_with_time(rec.p, dir, r.time());
                if Self::vanishes(pdf_value) {
                    assert(emitted == self.shade_spec(
                        *lights,
                        r,
                        depth,
                        res,
                        seen,
                        draw,
                        dir,
                        nowhere,
                    ));
                    return emitted;
                }
                let scattering_pdf = rec.mat.scattering_pdf(&r, &rec, &scattered);
                let sample = self.ray_color(scattered, depth - 1, world, lights, rng);
                let c = weigh(emitted, attenuation, scattering_pdf, sample, pdf_value, rr_prob);
                assert(c == self.shade_spec(*lights, r, depth, res, seen, draw, dir, sample));
                c
            },
        }
    }

    /// The number of pixels in a row.
    pub open spec fn row_len_spec(&self) -> nat {
        if self.image_width > 0 {
            self.image_width as nat
        } else {
            0
        }
    }

    /// The pixel that a render without bounces gives everywhere: the mean
    /// of as many black samples as a pixel takes.
    pub open spec fn dark_pixel_spec(data: CameraInternals<S>) -> (u8, u8, u8) {
        pixel_bytes_spec(
            black_sum_spec::<S>(Self::samples_spec(data.sqrt_spp) as nat).scale_spec(
                data.pixel_samples_scale,
            ),
        )
    }

    /// The number of strata along a side of a pixel, none for a number below
    /// one.
    pub open spec fn side_spec(sqrt_spp: i32) -> int {
        if sqrt_spp > 0 {
            sqrt_spp as int
        } else {
            0
        }
    }

    /// The column of stratum number `k` of a pixel, the strata counted row
    /// by row.
    pub open spec fn stratum_column_spec(sqrt_spp: i32, k: int) -> i32 {
        (k % Self::side_spec(sqrt_spp)) as i32
    }

    /// The row of stratum number `k` of a pixel.
    pub open spec fn stratum_row_spec(sqrt_spp: i32, k: int) -> i32 {
        (k / Self::side_spec(sqrt_spp)) as i32
    }

    /// The radiance `sample` is one that sample number `k` of the pixel in
    /// column `i` of row `j` can bring: one that can arrive along a ray that
    /// the camera can cast through stratum number `k`, for a path with all the
    /// bounces that the camera allows.
    pub open spec fn can_take(
        &self,
        data: CameraInternals<S>,
        world: &HittableObject<S>,
        lights: HittableRef<S>,
        i: i32,
        j: i32,
        k: int,
        sample: Vec3<S>,
    ) -> bool {
        exists|ray: Ray<S>| #[trigger]
            self.is_sample_ray(
                data,
                i,
                j,
                Self::stratum_column_spec(data.sqrt_spp, k),
                Self::stratum_row_spec(data.sqrt_spp, k),
                ray,
            ) && self.can_color(world, lights, ray, self.max_depth, sample)
    }

    /// The colour `c` is one that the pixel in column `i` of row `j` can
    /// have: the mean of samples, one for each stratum of the pixel, each of
    /// which sample number `k` can bring.
    pub open spec fn can_pixel(
        &self,
        data: CameraInternals<S>,
        world: &HittableObject<S>,
        lights: HittableRef<S>,
        i: i32,
        j: i32,
        c: Vec3<S>,
    ) -> bool {
        exists|samples: Seq<Vec3<S>>|
            samples.len() == Self::samples_spec(data.sqrt_spp) && c == #[trigger] mean_spec(
                samples,
                data.pixel_samples_scale,
            ) && forall|k: int|
                0 <= k < samples.len() ==> self.can_take(
                    data,
                    world,
                    lights,
                    i,
                    j,
                    k,
                    #[trigger] samples[k],
                )
    }

    /// The colour of the pixel in column `i` of row `j`: the mean of one
    /// sample through each stratum of the pixel, row of strata by row.
    pub fn pixel_color(
        &self,
        data: &CameraInternals<S>,
        i: i32,
        j: i32,
        world: &HittableObject<S>,
        lights: &HittableRef<S>,
        rng: &mut SmallRng,
    ) -> (c: Vec3<S>)
        ensures
            self.can_pixel(*data, world, *lights, i, j, c),
            self.max_depth <= 0 ==> c == black_sum_spec::<S>(
                Self::samples_spec(data.sqrt_spp) as nat,
            ).scale_spec(data.pixel_samples_scale),
    {
        let mut samples: Vec<Vec3<S>> = Vec::new();
        let side: i64 = if data.sqrt_spp > 0 {
            data.sqrt_spp as i64
        } else {
            0
        };
        assert(0 <= side * side <= 0x8000_0000 * 0x8000_0000) by (nonlinear_arith)
            requires
                0 <= side <= 0x7fff_ffff,
        ;
        let count: i64 = side * side;
        let mut s: i64 = 0;
        while s < count
            invariant
                0 <= s <= count,
                count == side * side,
                0 <= side <= 0x7fff_ffff,
                side == Self::side_spec(data.sqrt_spp),
                samples@.len() == s,
                forall|k: int|
                    0 <= k < s ==> self.can_take(
                        *data,
                        world,
                        *lights,
                        i,
                        j,
                        k,
                        #[trigger] samples@[k],
                    ),
                self.max_depth <= 0 ==> forall|k: int|
                    0 <= k < s ==> #[trigger] samples@[k] == Vec3::<S>::zeros_spec(),
            decreases count - s,
        {
            assert(s / side < side && side > 0) by (nonlinear_arith)
                requires
                    0 <= s < side * side,
                    0 <= side,
            ;
            let s_j = (s / side) as i32;
            let s_i = (s % side) as i32;
            let r = self.get_ray(i, j, s_i, s_j, data, rng);
            let sample = self.ray_color(r, self.max_depth, world, lights, rng);
            let ghost before = samples@;
            samples.push(sample);
            proof {
                assert(self.is_sample_ray(
                    *data,
                    i,
                    j,
                    Self::stratum_column_spec(data.sqrt_spp, s as int),
                    Self::stratum_row_spec(data.sqrt_spp, s as int),
                    r,
                ));
                assert(self.can_take(*data, world, *lights, i, j, s as int, sample));
                assert forall|k: int| 0 <= k < s + 1 implies self.can_take(
                    *data,
                    world,
                    *lights,
                    i,
                    j,
                    k,
                    #[trigger] samples@[k],
                ) by {
                    if k < s {
                        assert(samples@[k] == before[k]);
                    }
                }
            }
            s += 1;
        }
        assert(count == Self::samples_spec(data.sqrt_spp)) by (nonlinear_arith)
            requires
                count == side * side,
                side == Self::side_spec(data.sqrt_spp),
                Self::samples_spec(data.sqrt_spp) == (if data.sqrt_spp <= 0 {
                    0
                } else {
                    data.sqrt_spp * data.sqrt_spp
                }),
        ;
        proof {
            if self.max_depth <= 0 {
                lemma_sum_of_black(samples@);
            }
        }
        mean_of(&samples, data.pixel_samples_scale)
    }

    /// The pixel `p` is one that the pixel in column `i` of row `j` can
    /// show: the bytes of a colour that it can have.
    pub open spec fn is_pixel_of(
        &self,
        data: CameraInternals<S>,
        world: &HittableObject<S>,
        lights: HittableRef<S>,
        i: i32,
        j: i32,
        p: (u8, u8, u8),
    ) -> bool {
        exists|c: Vec3<S>|
            self.can_pixel(data, world, lights, i, j, c) && p == #[trigger] pixel_bytes_spec(c)
    }

    /// The pixels are those of row `j`, from left to right.
    pub open spec fn is_row_of(
        &self,
        data: CameraInternals<S>,
        world: &HittableObject<S>,
        lights: HittableRef<S>,
        j: i32,
        pixels: Seq<(u8, u8, u8)>,
    ) -> bool {
        forall|i: int|
            0 <= i < pixels.len() ==> self.is_pixel_of(
                data,
                world,
                lights,
                i as i32,
                j,
                #[trigger] pixels[i],
            )
    }

    /// The pixels are those of the image, row by row from the top and from
    /// left to right.
    pub open spec fn is_image_of(
        &self,
        world: &HittableObject<S>,
        lights: HittableRef<S>,
        pixels: Seq<(u8, u8, u8)>,
    ) -> bool {
        forall|k: int|
            0 <= k < pixels.len() ==> self.is_pixel_of(
                self.initialize_spec(),
                world,
                lights,
                (k % (self.row_len_spec() as int)) as i32,
                (k / (self.row_len_spec() as int)) as i32,
                #[trigger] pixels[k],
            )
    }

    /// `text` holds the lines of the `count` pixels `pixels`; and where the
    /// camera allows no bounce, every pixel is the dark pixel.
    pub open spec fn is_pixel_text(
        &self,
        data: CameraInternals<S>,
        text: Seq<u8>,
        pixels: Seq<(u8, u8, u8)>,
        count: nat,
    ) -> bool {
        &&& pixels.len() == count
        &&& text == pixels_text_spec(pixels)
        &&& self.max_depth <= 0 ==> forall|k: int|
            0 <= k < pixels.len() ==> #[trigger] pixels[k] == Self::dark_pixel_spec(data)
    }

    /// The text of row `j` of the image: the lines of its pixels from left
    /// to right.
    pub fn render_row(
        &self,
        data: &CameraInternals<S>,
        j: i32,
        world: &HittableObject<S>,
        lights: &HittableRef<S>,
        rng: &mut SmallRng,
    ) -> (row: Vec<u8>)
        ensures
            exists|pixels: Seq<(u8, u8, u8)>| #[trigger]
                self.is_pixel_text(*data, row@, pixels, self.row_len_spec()) && self.is_row_of(
                    *data,
                    world,
                    *lights,
                    j,
                    pixels,
                ),
    {
        let mut out: Vec<u8> = Vec::new();
        let ghost mut pixels: Seq<(u8, u8, u8)> = Seq::empty();
        let mut i: i32 = 0;
        while i < self.image_width
            invariant
                0 <= i,
                i == 0 || i <= self.image_width,
                pixels.len() == i,
                out@ == pixels_text_spec(pixels),
                self.is_row_of(*data, world, *lights, j, pixels),
                self.max_depth <= 0 ==> forall|k: int|
                    0 <= k < pixels.len() ==> #[trigger] pixels[k] == Self::dark_pixel_spec(*data),
            decreases self.image_width - i,
        {
            let c = self.pixel_color(data, i, j, world, lights, rng);
            let bytes = pixel_bytes(c);
            push_pixel(&mut out, bytes);
            proof {
                let ghost grown = pixels.push(bytes);
                assert(grown.drop_last() =~= pixels);
                assert(self.is_pixel_of(*data, world, *lights, i, j, bytes));
                assert forall|x: int| 0 <= x < grown.len() implies self.is_pixel_of(
                    *data,
                    world,
                    *lights,
                    x as i32,
                    j,
                    #[trigger] grown[x],
                ) by {
                    if x < pixels.len() {
                        assert(grown[x] == pixels[x]);
                    }
                }
                pixels = grown;
            }
            i += 1;
        }
        assert(self.is_pixel_text(*data, out@, pixels, self.row_len_spec()) && self.is_row_of(
            *data,
            world,
            *lights,
            j,
            pixels,
        ));
        out
    }

    /// The number of pixels of the image.
    pub open spec fn pixel_count_spec(&self) -> nat {
        self.row_len_spec() * (self.image_height_spec() as nat)
    }

    /// `text` is the image of the pixels `pixels`: the head for the extent
    /// of the image, and then the lines of the pixels, row by row from the top
    /// and from left to right.
    pub open spec fn is_image_text(&self, text: Seq<u8>, pixels: Seq<(u8, u8, u8)>) -> bool {
        &&& pixels.len() == self.pixel_count_spec()
        &&& text == ppm_header_spec(self.image_width as int, self.image_height_spec() as int)
            + pixels_text_spec(pixels)
        &&& self.max_depth <= 0 ==> forall|k: int|
            0 <= k < pixels.len() ==> #[trigger] pixels[k] == Self::dark_pixel_spec(
                self.initialize_spec(),
            )
    }

    /// Renders the world into a plain-text image: the rows from the top
    /// down, each by `render_row`, behind the head.
    pub fn render(&self, world: &HittableObject<S>, lights: &HittableRef<S>, rng: &mut SmallRng)
        -> (image: Vec<u8>)
        ensures
            exists|pixels: Seq<(u8, u8, u8)>| #[trigger]
                self.is_image_text(image@, pixels) && self.is_image_of(world, *lights, pixels),
    {
        let data = self.initialize();
        let mut out: Vec<u8> = Vec::new();
        push_ppm_header(&mut out, self.image_width, data.image_height);
        let ghost head = out@;
        let ghost mut pixels: Seq<(u8, u8, u8)> = Seq::empty();
        let mut j: i32 = 0;
        while j < data.image_height
            invariant
                0 <= j <= data.image_height,
                data == self.initialize_spec(),
                head == ppm_header_spec(self.image_width as int, data.image_height as int),
                pixels.len() == self.row_len_spec() * (j as nat),
                out@ == head + pixels_text_spec(pixels),
                self.is_image_of(world, *lights, pixels),
                self.max_depth <= 0 ==> forall|k: int|
                    0 <= k < pixels.len() ==> #[trigger] pixels[k] == Self::dark_pixel_spec(data),
            decreases data.image_height - j,
        {
            let mut text = self.render_row(&data, j, world, lights, rng);
            proof {
                let row = choose|row: Seq<(u8, u8, u8)>| #[trigger]
                    self.is_pixel_text(data, text@, row, self.row_len_spec()) && self.is_row_of(
                        data,
                        world,
                        *lights,
                        j,
                        row,
                    );
                lemma_pixels_text_concat(pixels, row);
                let n = self.row_len_spec();
                let before = j as nat;
                let after = (j + 1) as nat;
                assert(n * after == n * before + n) by (nonlinear_arith)
                    requires
                        after == before + 1,
                ;
                assert(out@ + text@ =~= head + (pixels_text_spec(pixels) + pixels_text_spec(row)));
                let ghost grown = pixels + row;
                assert forall|k: int| 0 <= k < grown.len() implies self.is_pixel_of(
                    data,
                    world,
                    *lights,
                    (k % (n as int)) as i32,
                    (k / (n as int)) as i32,
                    #[trigger] grown[k],
                ) by {
                    if k < pixels.len() {
                        assert(grown[k] == pixels[k]);
                    } else {
                        let x = k - pixels.len();
                        assert(grown[k] == row[x]);
                        assert(k == j * n + x) by (nonlinear_arith)
                            requires
                                k == n * before + x,
                                before == j,
                        ;
                        vstd::arithmetic::div_mod::lemma_fundamental_div_mod_converse(
                            k,
                            n as int,
                            j as int,
                            x,
                        );
                        assert(self.is_pixel_of(data, world, *lights, x as i32, j, row[x]));
                    }
                }
                pixels = grown;
            }
            out.append(&mut text);
            j += 1;
        }
        assert(self.is_image_text(out@, pixels) && self.is_image_of(world, *lights, pixels));
        out
    }
}

/// In fixed point, a sum of black samples is black.
pub proof fn lemma_black_sum_in_fixed_point(n: nat)
    ensures
        black_sum_spec::<Fixed>(n) == (Vec3 {
            e0: Fixed { raw: 0 },
            e1: Fixed { raw: 0 },
            e2: Fixed { raw: 0 },
        }),
    decreases n,
{
    lemma_zero_is_no_step();
    lemma_zero_absorbs(Fixed { raw: 0 });
    if n > 0 {
        lemma_black_sum_in_fixed_point((n - 1) as nat);
    }
}

/// In fixed point, black weighted by anything is black: the product of a
/// colour with black, divided by any scalar and added to black.
pub proof fn lemma_black_stays_black_in_fixed_point(attenuation: Vec3<Fixed>, divisor: Fixed)
    ensures
        Vec3::<Fixed>::zeros_spec().plus_spec(
            attenuation.times_spec(Vec3::<Fixed>::zeros_spec()).over_spec(divisor),
        ) == Vec3::<Fixed>::zeros_spec(),
        Vec3::<Fixed>::zeros_spec().plus_spec(attenuation.times_spec(Vec3::<Fixed>::zeros_spec()))
            == Vec3::<Fixed>::zeros_spec(),
{
    lemma_zero_is_no_step();
    lemma_zero_absorbs(attenuation.e0);
    lemma_zero_absorbs(attenuation.e1);
    lemma_zero_absorbs(attenuation.e2);
    lemma_zero_absorbs(one_spec::<Fixed>().over_spec(divisor));
}

/// In fixed point, the last bounce of a path is dark: a ray with one bounce
/// left that strikes a surface which gives off no light brings black, for
/// every draw and in every scene.
pub proof fn lemma_last_bounce_is_dark_in_fixed_point(
    cam: &Camera<Fixed>,
    world: &HittableObject<Fixed>,
    lights: HittableRef<Fixed>,
    r: Ray<Fixed>,
    c: Vec3<Fixed>,
)
    requires
        cam.can_color(world, lights, r, 1, c),
        forall|res: Option<HitRecord<Fixed>>| #[trigger]
            world.can_answer(r, forward_window_spec::<Fixed>(), res) ==> (match res {
                Some(rec) => !(*rec.mat is DiffuseLight),
                None => false,
            }),
    ensures
        c == Vec3::<Fixed>::zeros_spec(),
{
    let (res, srec, draw, dir, sample) = choose|
        res: Option<HitRecord<Fixed>>,
        srec: Option<ScatterRecord<Fixed>>,
        draw: Fixed,
        dir: Vec3<Fixed>,
        sample: Vec3<Fixed>,
    |
        world.can_answer(r, forward_window_spec::<Fixed>(), res) && cam.can_bounce(
            lights,
            r,
            1,
            res,
            srec,
            draw,
            dir,
        ) && (cam.next_ray_spec(lights, r, 1, res, srec, draw, dir) matches Some(next)
            ==> cam.can_color(world, lights, next, 0, sample)) && c == #[trigger] cam.shade_spec(
            lights,
            r,
            1,
            res,
            srec,
            draw,
            dir,
            sample,
        );
    let rec = res->0;
    let emitted = rec.mat.emitted_spec(rec, rec.u, rec.v, rec.p);
    assert(emitted == Vec3::<Fixed>::zeros_spec());
    match cam.bounce_spec(1, emitted, srec, draw) {
        Bounce::Ends(e) => {},
        Bounce::Follows { emitted, attenuation, ray, survival } => {
            assert(sample == Vec3::<Fixed>::zeros_spec());
            match survival {
                Some(p) => {
                    lemma_black_stays_black_in_fixed_point(attenuation, p);
                },
                None => {
                    lemma_black_stays_black_in_fixed_point(attenuation, one_spec::<Fixed>());
                },
            }
        },
        Bounce::Samples { emitted, attenuation, pdf, rr_prob } => {
            let pdf_value = Camera::<Fixed>::density_spec(lights, rec.p, pdf, dir);
            if !Camera::<Fixed>::vanishes_spec(pdf_value) {
                assert(sample == Vec3::<Fixed>::zeros_spec());
                let scattering_pdf = rec.mat.scattering_pdf_spec(
                    rec,
                    Ray { orig: rec.p, dir, tm: r.tm },
                );
                lemma_black_stays_black_in_fixed_point(
                    attenuation.scale_spec(scattering_pdf),
                    pdf_value.times_spec(rr_prob),
                );
            }
        },
    }
}

/// In fixed point, a render that allows no bounce is black in every pixel,
/// whatever the scene and the background.
pub proof fn lemma_dark_pixel_is_black_in_fixed_point(data: CameraInternals<Fixed>)
    ensures
        Camera::<Fixed>::dark_pixel_spec(data) == (0u8, 0u8, 0u8),
{
    let n = Camera::<Fixed>::samples_spec(data.sqrt_spp) as nat;
    lemma_black_sum_in_fixed_point(n);
    lemma_zero_is_no_step();
    lemma_zero_absorbs(data.pixel_samples_scale);
    let none = Fixed { raw: 0 };
    let mean = black_sum_spec::<Fixed>(n).scale_spec(data.pixel_samples_scale);
    assert(mean == (Vec3 { e0: none, e1: none, e2: none }));
    assert(linear_to_gamma_spec(none) == none);
    let held = intensity_spec::<Fixed>().clamp_spec(none);
    assert(Fixed::ratio_spec(999, 1000).raw >= 0) by {
        let num = saturate_spec(999int * 0x1_0000_0000int);
        let den = saturate_spec(1000int * 0x1_0000_0000int);
        assert(num > 0 && den > 0);
        assert(ratio_raw_spec(num, den) >= 0);
    }
    assert(held == none);
    lemma_zero_absorbs(Fixed::ratio_spec(256, 1));
    assert(none.whole_part_spec() == 0) by {
        assert(0int / 0x1_0000_0000int == 0);
    }
    assert(quantize_spec(none) == 0u8);
}

} // verus!
