//! Materials: what becomes of light that strikes a surface.

use vstd::prelude::*;
use crate::scalar::{Scalar, zero, zero_spec, one, one_spec, min, min_spec};
use crate::hittable::HitRecord;
use crate::pdf::{PdfObject, PdfRef, make_pdf};
use crate::ray::Ray;
use crate::rtweekend::{next_bits, unit_from_bits, unit_from_bits_spec};
use crate::texture::{Texture, TextureRef, make_tex};
use crate::vec3::{
    Vec3, dot, dot_spec, first_axis, first_axis_spec, is_unit_sample, random_unit_vector, reflect,
    reflect_spec, refract, refract_spec, unit_vector, unit_vector_spec,
};
use rand::rngs::SmallRng;
use std::sync::Arc;

verus! {

/// What a material answers when light strikes it.
pub struct ScatterRecord<S: Scalar> {
    /// The share of each colour channel that the bounce keeps.
    pub attenuation: Vec3<S>,
    /// The distribution from which the next direction is drawn, where the
    /// material leaves the choice to the integrator.
    pub pdf_ptr: Option<PdfRef<S>>,
    /// The material has chosen the next ray itself: no density is defined
    /// for it, and the integrator follows `skip_pdf_ray` as it is.
    pub skip_pdf: bool,
    pub skip_pdf_ray: Ray<S>,
}

/// A diffuse surface that scatters by the cosine law.
pub struct Lambertian<S: Scalar> {
    pub tex: TextureRef<S>,
}

/// A mirror, blurred by `fuzz`.
pub struct Metal<S: Scalar> {
    pub albedo: Vec3<S>,
    pub fuzz: S,
}

/// A clear medium such as glass, which reflects or refracts.
pub struct Dielectric<S: Scalar> {
    pub refraction_index: S,
}

/// A surface that gives off light from its front face and scatters nothing.
pub struct DiffuseLight<S: Scalar> {
    pub tex: TextureRef<S>,
}

/// The phase function of a volume: it scatters evenly into every direction.
pub struct Isotropic<S: Scalar> {
    pub tex: TextureRef<S>,
}

/// A material with which light does not interact. It marks the stand-ins of
/// the light sources that are handed to the integrator for sampling.
pub struct EmptyMaterial;

pub enum MaterialObject<S: Scalar> {
    Lambertian(Lambertian<S>),
    Metal(Metal<S>),
    Dielectric(Dielectric<S>),
    DiffuseLight(DiffuseLight<S>),
    Isotropic(Isotropic<S>),
    EmptyMaterial(EmptyMaterial),
}

pub type MaterialRef<S> = Arc<MaterialObject<S>>;

/// A shared material.
pub fn make_mat<S: Scalar>(material: MaterialObject<S>) -> (r: MaterialRef<S>)
    ensures
        *r == material,
{
    Arc::new(material)
}

pub open spec fn black_spec<S: Scalar>() -> Vec3<S> {
    Vec3::<S>::zeros_spec()
}

impl<S: Scalar> Lambertian<S> {
    /// The diffuse surface of one colour.
    pub open spec fn new_spec(albedo: Vec3<S>) -> Self {
        Lambertian { tex: Arc::new(Texture::SolidColor(albedo)) }
    }

    pub fn new(albedo: Vec3<S>) -> (r: Self)
        ensures
            r == Self::new_spec(albedo),
    {
        Lambertian { tex: make_tex(Texture::solid(albedo)) }
    }

    pub fn from_texture(tex: TextureRef<S>) -> (r: Self)
        ensures
            r.tex == tex,
    {
        Lambertian { tex }
    }

    /// The record of a diffuse bounce: the colour of the texture at the hit,
    /// and the cosine-weighted distribution around the normal.
    pub open spec fn scatter_spec(&self, r_in: Ray<S>, rec: HitRecord<S>) -> ScatterRecord<S> {
        ScatterRecord {
            attenuation: self.tex.value_spec(rec.u, rec.v, rec.p),
            pdf_ptr: Some(Arc::new(PdfObject::cosine_spec(rec.normal))),
            skip_pdf: false,
            skip_pdf_ray: Ray { orig: rec.p, dir: rec.normal, tm: r_in.tm },
        }
    }

    pub fn scatter(&self, r_in: &Ray<S>, rec: &HitRecord<S>) -> (r: Option<ScatterRecord<S>>)
        ensures
            r == Some(self.scatter_spec(*r_in, *rec)),
    {
        Some(
            ScatterRecord {
                attenuation: self.tex.value(rec.u, rec.v, rec.p),
                pdf_ptr: Some(make_pdf(PdfObject::cosine(rec.normal))),
                skip_pdf: false,
                skip_pdf_ray: Ray::new_with_time(rec.p, rec.normal, r_in.time()),
            },
        )
    }

    /// The density with which a diffuse surface scatters into the direction
    /// of `scattered`: the cosine of its angle to the normal over pi, and zero
    /// below the surface.
    pub open spec fn scattering_pdf_spec(rec: HitRecord<S>, scattered: Ray<S>) -> S {
        let cos_theta = dot_spec(rec.normal, unit_vector_spec(scattered.dir));
        if cos_theta.key() < zero_spec::<S>().key() {
            zero_spec::<S>()
        } else {
            cos_theta.over_spec(S::pi_spec())
        }
    }

    pub fn scattering_pdf(&self, r_in: &Ray<S>, rec: &HitRecord<S>, scattered: &Ray<S>) -> (r: S)
        ensures
            r == Self::scattering_pdf_spec(*rec, *scattered),
    {
        let cos_theta = dot(rec.normal, unit_vector(scattered.direction()));
        if cos_theta.lt(zero::<S>()) {
            zero::<S>()
        } else {
            cos_theta.over(S::pi())
        }
    }
}

impl<S: Scalar> Metal<S> {
    pub open spec fn new_spec(albedo: Vec3<S>, fuzz: S) -> Self {
        Metal {
            albedo,
            fuzz: if fuzz.key() < one_spec::<S>().key() {
                fuzz
            } else {
                one_spec::<S>()
            },
        }
    }

    /// A mirror of the given colour; a `fuzz` of one or more counts as one.
    pub fn new(albedo: Vec3<S>, fuzz: S) -> (r: Self)
        ensures
            r == Self::new_spec(albedo, fuzz),
    {
        Metal {
            albedo,
            fuzz: if fuzz.lt(one::<S>()) {
                fuzz
            } else {
                one::<S>()
            },
        }
    }

    /// The record of a reflection that was blurred by the unit vector `blur`.
    pub open spec fn scatter_spec(&self, r_in: Ray<S>, rec: HitRecord<S>, blur: Vec3<S>)
        -> ScatterRecord<S> {
        let reflected = unit_vector_spec(reflect_spec(r_in.dir, rec.normal)).plus_spec(
            blur.scale_spec(self.fuzz),
        );
        ScatterRecord {
            attenuation: self.albedo,
            pdf_ptr: None,
            skip_pdf: true,
            skip_pdf_ray: Ray { orig: rec.p, dir: reflected, tm: r_in.tm },
        }
    }

    /// The record for a given blur vector.
    pub fn scatter_with(&self, r_in: &Ray<S>, rec: &HitRecord<S>, blur: Vec3<S>) -> (r:
        ScatterRecord<S>)
        ensures
            r == self.scatter_spec(*r_in, *rec, blur),
    {
        let reflected = unit_vector(reflect(r_in.direction(), rec.normal)).plus(
            blur.scale(self.fuzz),
        );
        ScatterRecord {
            attenuation: self.albedo,
            pdf_ptr: None,
            skip_pdf: true,
            skip_pdf_ray: Ray::new_with_time(rec.p, reflected, r_in.time()),
        }
    }

    /// Reflects the incoming ray, blurred by a random unit vector.
    pub fn scatter(&self, r_in: &Ray<S>, rec: &HitRecord<S>, rng: &mut SmallRng) -> (r: Option<
        ScatterRecord<S>,
    >)
        ensures
            exists|blur: Vec3<S>|
                is_unit_sample(blur) && r == Some(self.scatter_spec(*r_in, *rec, blur)),
    {
        let blur = random_unit_vector(rng);
        Some(self.scatter_with(r_in, rec, blur))
    }
}

impl<S: Scalar> Dielectric<S> {
    pub fn new(refraction_index: S) -> (r: Self)
        ensures
            r.refraction_index == refraction_index,
    {
        Dielectric { refraction_index }
    }

    /// Schlick's approximation of the share of light that a surface reflects.
    pub open spec fn reflectance_spec(cosine: S, refraction_index: S) -> S {
        let q = one_spec::<S>().minus_spec(refraction_index).over_spec(
            one_spec::<S>().plus_spec(refraction_index),
        );
        let r0 = q.times_spec(q);
        let c = one_spec::<S>().minus_spec(cosine);
        let c5 = c.times_spec(c).times_spec(c).times_spec(c).times_spec(c);
        r0.plus_spec(one_spec::<S>().minus_spec(r0).times_spec(c5))
    }

    pub fn reflectance(cosine: S, refraction_index: S) -> (r: S)
        ensures
            r == Self::reflectance_spec(cosine, refraction_index),
    {
        let q = one::<S>().minus(refraction_index).over(one::<S>().plus(refraction_index));
        let r0 = q.times(q);
        let c = one::<S>().minus(cosine);
        let c5 = c.times(c).times(c).times(c).times(c);
        r0.plus(one::<S>().minus(r0).times(c5))
    }

    /// The ratio of the refractive indices across the face that was struck.
    pub open spec fn ratio_spec(&self, rec: HitRecord<S>) -> S {
        if rec.front_face {
            one_spec::<S>().over_spec(self.refraction_index)
        } else {
            self.refraction_index
        }
    }

    pub open spec fn cos_theta_spec(r_in: Ray<S>, rec: HitRecord<S>) -> S {
        min_spec(dot_spec(unit_vector_spec(r_in.dir), rec.normal).negate_spec(), one_spec::<S>())
    }

    /// Snell's law has no solution: the light is reflected entirely.
    pub open spec fn cannot_refract_spec(&self, r_in: Ray<S>, rec: HitRecord<S>) -> bool {
        let cos_theta = Self::cos_theta_spec(r_in, rec);
        let sin_theta = one_spec::<S>().minus_spec(cos_theta.times_spec(cos_theta)).sqrt_spec();
        self.ratio_spec(rec).times_spec(sin_theta).key() > one_spec::<S>().key()
    }

    /// The ray is reflected: entirely, or because the reflectance exceeds
    /// the unit scalar `draw`.
    pub open spec fn reflects_spec(&self, r_in: Ray<S>, rec: HitRecord<S>, draw: S) -> bool {
        self.cannot_refract_spec(r_in, rec) || Self::reflectance_spec(
            Self::cos_theta_spec(r_in, rec),
            self.ratio_spec(rec),
        ).key() > draw.key()
    }

    /// The record of a bounce off glass for the unit scalar `draw`.
    pub open spec fn scatter_spec(&self, r_in: Ray<S>, rec: HitRecord<S>, draw: S) -> ScatterRecord<
        S,
    > {
        let unit_direction = unit_vector_spec(r_in.dir);
        let direction = if self.reflects_spec(r_in, rec, draw) {
            reflect_spec(unit_direction, rec.normal)
        } else {
            refract_spec(unit_direction, rec.normal, self.ratio_spec(rec))
        };
        ScatterRecord {
            attenuation: Vec3 { e0: one_spec::<S>(), e1: one_spec::<S>(), e2: one_spec::<S>() },
            pdf_ptr: None,
            skip_pdf: true,
            skip_pdf_ray: Ray { orig: rec.p, dir: direction, tm: r_in.tm },
        }
    }

    /// The record for a given draw: the ray is reflected where it cannot be
    /// refracted or where the reflectance exceeds the draw, else refracted.
    pub fn scatter_with(&self, r_in: &Ray<S>, rec: &HitRecord<S>, draw: S) -> (r: ScatterRecord<S>)
        ensures
            r == self.scatter_spec(*r_in, *rec, draw),
    {
        let ri = if rec.front_face {
            one::<S>().over(self.refraction_index)
        } else {
            self.refraction_index
        };
        let unit_direction = unit_vector(r_in.direction());
        let cos_theta = min(dot(unit_direction, rec.normal).negate(), one::<S>());
        let sin_theta = one::<S>().minus(cos_theta.times(cos_theta)).sqrt();
        let cannot_refract = one::<S>().lt(ri.times(sin_theta));
        let direction = if cannot_refract || draw.lt(Self::reflectance(cos_theta, ri)) {
            reflect(unit_direction, rec.normal)
        } else {
            refract(unit_direction, rec.normal, ri)
        };
        ScatterRecord {
            attenuation: Vec3 { e0: one::<S>(), e1: one::<S>(), e2: one::<S>() },
            pdf_ptr: None,
            skip_pdf: true,
            skip_pdf_ray: Ray::new_with_time(rec.p, direction, r_in.time()),
        }
    }

    /// Reflects or refracts the incoming ray, by a random draw against the
    /// reflectance.
    pub fn scatter(&self, r_in: &Ray<S>, rec: &HitRecord<S>, rng: &mut SmallRng) -> (r: Option<
        ScatterRecord<S>,
    >)
        ensures
            exists|bits: u64|
                r == Some(self.scatter_spec(*r_in, *rec, unit_from_bits_spec::<S>(bits))),
    {
        let bits = next_bits(rng);
        Some(self.scatter_with(r_in, rec, unit_from_bits(bits)))
    }
}

impl<S: Scalar> DiffuseLight<S> {
    /// The light of one colour.
    pub open spec fn new_spec(emit: Vec3<S>) -> Self {
        DiffuseLight { tex: Arc::new(Texture::SolidColor(emit)) }
    }

    pub fn new(emit: Vec3<S>) -> (r: Self)
        ensures
            r == Self::new_spec(emit),
    {
        DiffuseLight { tex: make_tex(Texture::solid(emit)) }
    }

    pub fn from_texture(tex: TextureRef<S>) -> (r: Self)
        ensures
            r.tex == tex,
    {
        DiffuseLight { tex }
    }

    /// The light given off at a hit: the colour of the texture on the front
    /// face, nothing on the back.
    pub open spec fn emitted_spec(&self, rec: HitRecord<S>, u: S, v: S, p: Vec3<S>) -> Vec3<S> {
        if !rec.front_face {
            black_spec::<S>()
        } else {
            self.tex.value_spec(u, v, p)
        }
    }

    pub fn emitted(&self, r_in: &Ray<S>, rec: &HitRecord<S>, u: S, v: S, p: Vec3<S>) -> (r: Vec3<
        S,
    >)
        ensures
            r == self.emitted_spec(*rec, u, v, p),
    {
        if !rec.front_face {
            return Vec3::zeros();
        }
        self.tex.value(u, v, p)
    }
}

impl<S: Scalar> Isotropic<S> {
    /// The phase function of one colour.
    pub open spec fn new_spec(albedo: Vec3<S>) -> Self {
        Isotropic { tex: Arc::new(Texture::SolidColor(albedo)) }
    }

    pub fn new(albedo: Vec3<S>) -> (r: Self)
        ensures
            r == Self::new_spec(albedo),
    {
        Isotropic { tex: make_tex(Texture::solid(albedo)) }
    }

    pub fn from_texture(tex: TextureRef<S>) -> (r: Self)
        ensures
            r.tex == tex,
    {
        Isotropic { tex }
    }

    /// The record of a bounce inside a volume: the colour of the texture,
    /// and the uniform distribution over the sphere.
    pub open spec fn scatter_spec(&self, r_in: Ray<S>, rec: HitRecord<S>) -> ScatterRecord<S> {
        ScatterRecord {
            attenuation: self.tex.value_spec(rec.u, rec.v, rec.p),
            pdf_ptr: Some(Arc::new(PdfObject::SpherePdf(crate::pdf::SpherePdf))),
            skip_pdf: false,
            skip_pdf_ray: Ray { orig: rec.p, dir: first_axis_spec::<S>(), tm: r_in.tm },
        }
    }

    pub fn scatter(&self, r_in: &Ray<S>, rec: &HitRecord<S>) -> (r: Option<ScatterRecord<S>>)
        ensures
            r == Some(self.scatter_spec(*r_in, *rec)),
    {
        Some(
            ScatterRecord {
                attenuation: self.tex.value(rec.u, rec.v, rec.p),
                pdf_ptr: Some(make_pdf(PdfObject::SpherePdf(crate::pdf::SpherePdf))),
                skip_pdf: false,
                skip_pdf_ray: Ray::new_with_time(rec.p, first_axis::<S>(), r_in.time()),
            },
        )
    }

    /// The density of a uniform scatter: one over the area of the unit sphere.
    pub open spec fn scattering_pdf_spec() -> S {
        one_spec::<S>().over_spec(S::from_ratio_spec(4, 1).times_spec(S::pi_spec()))
    }

    pub fn scattering_pdf(&self, r_in: &Ray<S>, rec: &HitRecord<S>, scattered: &Ray<S>) -> (r: S)
        ensures
            r == Self::scattering_pdf_spec(),
    {
        one::<S>().over(S::from_ratio(4, 1).times(S::pi()))
    }
}

impl<S: Scalar> MaterialObject<S> {
    /// The material scatters light: it is neither a light nor the empty
    /// material.
    pub open spec fn may_scatter(&self) -> bool {
        !(self is DiffuseLight) && !(self is EmptyMaterial)
    }

    /// The light that the material gives off at a hit: that of a diffuse
    /// light, and none for every other material.
    pub open spec fn emitted_spec(&self, rec: HitRecord<S>, u: S, v: S, p: Vec3<S>) -> Vec3<S> {
        match self {
            MaterialObject::DiffuseLight(mat) => mat.emitted_spec(rec, u, v, p),
            _ => black_spec::<S>(),
        }
    }

    pub fn emitted(&self, r_in: &Ray<S>, rec: &HitRecord<S>, u: S, v: S, p: Vec3<S>) -> (r: Vec3<
        S,
    >)
        ensures
            r == self.emitted_spec(*rec, u, v, p),
    {
        match self {
            MaterialObject::DiffuseLight(mat) => mat.emitted(r_in, rec, u, v, p),
            _ => Vec3::zeros(),
        }
    }

    /// `r` is an answer that the material can give to the ray `r_in` at the
    /// hit `rec`: none for a light and for the empty material, the one
    /// record of a diffuse surface or a volume, and for a mirror or glass the
    /// record of some draw.
    pub open spec fn can_scatter(&self, r_in: Ray<S>, rec: HitRecord<S>, r: Option<ScatterRecord<S>>)
        -> bool {
        match self {
            MaterialObject::Lambertian(mat) => r == Some(mat.scatter_spec(r_in, rec)),
            MaterialObject::Metal(mat) => exists|blur: Vec3<S>|
                is_unit_sample(blur) && r == Some(mat.scatter_spec(r_in, rec, blur)),
            MaterialObject::Dielectric(mat) => exists|bits: u64|
                r == Some(mat.scatter_spec(r_in, rec, unit_from_bits_spec::<S>(bits))),
            MaterialObject::Isotropic(mat) => r == Some(mat.scatter_spec(r_in, rec)),
            MaterialObject::DiffuseLight(_) => r is None,
            MaterialObject::EmptyMaterial(_) => r is None,
        }
    }

    /// What becomes of the ray `r_in` at the hit `rec`: nothing where the
    /// material does not scatter, else the record of the bounce.
    pub fn scatter(&self, r_in: &Ray<S>, rec: &HitRecord<S>, rng: &mut SmallRng) -> (r: Option<
        ScatterRecord<S>,
    >)
        ensures
            self.can_scatter(*r_in, *rec, r),
    {
        match self {
            MaterialObject::Lambertian(mat) => mat.scatter(r_in, rec),
            MaterialObject::Metal(mat) => mat.scatter(r_in, rec, rng),
            MaterialObject::Dielectric(mat) => mat.scatter(r_in, rec, rng),
            MaterialObject::Isotropic(mat) => mat.scatter(r_in, rec),
            MaterialObject::DiffuseLight(_) => None,
            MaterialObject::EmptyMaterial(_) => None,
        }
    }

    /// The density with which the material scatters into the direction of
    /// `scattered`: zero for a material without one.
    pub open spec fn scattering_pdf_spec(&self, rec: HitRecord<S>, scattered: Ray<S>) -> S {
        match self {
            MaterialObject::Lambertian(_) => Lambertian::<S>::scattering_pdf_spec(rec, scattered),
            MaterialObject::Isotropic(_) => Isotropic::<S>::scattering_pdf_spec(),
            _ => zero_spec::<S>(),
        }
    }

    pub fn scattering_pdf(&self, r_in: &Ray<S>, rec: &HitRecord<S>, scattered: &Ray<S>) -> (r: S)
        ensures
            r == self.scattering_pdf_spec(*rec, *scattered),
    {
        match self {
            MaterialObject::Lambertian(mat) => mat.scattering_pdf(r_in, rec, scattered),
            MaterialObject::Isotropic(mat) => mat.scattering_pdf(r_in, rec, scattered),
            _ => zero::<S>(),
        }
    }
}

} // verus!
