//! Settings that replace those of a scene.

use vstd::prelude::*;
use crate::scalar::Scalar;
use crate::camera::{Background, Camera};
use crate::vec3::Vec3;

verus! {

/// Settings that replace those of a scene. A field that is `None` leaves
/// the scene's own setting in place.
#[derive(Clone, Copy)]
pub struct RenderOverrides<S: Scalar> {
    pub aspect_ratio: Option<S>,
    pub image_width: Option<i32>,
    pub samples_per_pixel: Option<i32>,
    pub max_depth: Option<i32>,
    pub vfov: Option<S>,
    pub lookfrom: Option<[S; 3]>,
    pub lookat: Option<[S; 3]>,
    pub vup: Option<[S; 3]>,
    pub defocus_angle: Option<S>,
    pub focus_dist: Option<S>,
    pub background: Option<[S; 3]>,
}

/// The vector of three coordinates.
pub open spec fn vec_of_spec<S: Scalar>(value: [S; 3]) -> Vec3<S> {
    Vec3 { e0: value[0], e1: value[1], e2: value[2] }
}

/// `given` where there is one, else `kept`.
pub open spec fn or_kept<T>(given: Option<T>, kept: T) -> T {
    match given {
        Some(value) => value,
        None => kept,
    }
}

/// `given` as a vector where there is one, else `kept`.
pub open spec fn vec_or_kept<S: Scalar>(given: Option<[S; 3]>, kept: Vec3<S>) -> Vec3<S> {
    match given {
        Some(value) => vec_of_spec(value),
        None => kept,
    }
}

impl<S: Scalar> RenderOverrides<S> {
    /// The overrides that replace nothing.
    pub fn none() -> (r: Self)
        ensures
            r == (RenderOverrides::<S> {
                aspect_ratio: None,
                image_width: None,
                samples_per_pixel: None,
                max_depth: None,
                vfov: None,
                lookfrom: None,
                lookat: None,
                vup: None,
                defocus_angle: None,
                focus_dist: None,
                background: None,
            }),
    {
        RenderOverrides {
            aspect_ratio: None,
            image_width: None,
            samples_per_pixel: None,
            max_depth: None,
            vfov: None,
            lookfrom: None,
            lookat: None,
            vup: None,
            defocus_angle: None,
            focus_dist: None,
            background: None,
        }
    }

    /// The camera `cam` with every setting replaced for which the overrides
    /// hold a value.
    pub open spec fn applied_spec(&self, cam: Camera<S>) -> Camera<S> {
        Camera {
            aspect_ratio: or_kept(self.aspect_ratio, cam.aspect_ratio),
            image_width: or_kept(self.image_width, cam.image_width),
            samples_per_pixel: or_kept(self.samples_per_pixel, cam.samples_per_pixel),
            max_depth: or_kept(self.max_depth, cam.max_depth),
            background: match self.background {
                Some(value) => Background::Color(vec_of_spec(value)),
                None => cam.background,
            },
            vfov: or_kept(self.vfov, cam.vfov),
            lookfrom: vec_or_kept(self.lookfrom, cam.lookfrom),
            lookat: vec_or_kept(self.lookat, cam.lookat),
            vup: vec_or_kept(self.vup, cam.vup),
            defocus_angle: or_kept(self.defocus_angle, cam.defocus_angle),
            focus_dist: or_kept(self.focus_dist, cam.focus_dist),
        }
    }
}

/// Replaces each setting of the camera for which the overrides hold a value.
pub fn apply_overrides<S: Scalar>(cam: &mut Camera<S>, o: &RenderOverrides<S>)
    ensures
        *final(cam) == o.applied_spec(*old(cam)),
{
    if let Some(value) = o.aspect_ratio {
        cam.aspect_ratio = value;
    }
    if let Some(value) = o.image_width {
        cam.image_width = value;
    }
    if let Some(value) = o.samples_per_pixel {
        cam.samples_per_pixel = value;
    }
    if let Some(value) = o.max_depth {
        cam.max_depth = value;
    }
    if let Some(value) = o.vfov {
        cam.vfov = value;
    }
    if let Some(value) = o.lookfrom {
        cam.lookfrom = Vec3::new(value[0], value[1], value[2]);
    }
    if let Some(value) = o.lookat {
        cam.lookat = Vec3::new(value[0], value[1], value[2]);
    }
    if let Some(value) = o.vup {
        cam.vup = Vec3::new(value[0], value[1], value[2]);
    }
    if let Some(value) = o.defocus_angle {
        cam.defocus_angle = value;
    }
    if let Some(value) = o.focus_dist {
        cam.focus_dist = value;
    }
    if let Some(value) = o.background {
        cam.background = Background::Color(Vec3::new(value[0], value[1], value[2]));
    }
}

} // verus!
