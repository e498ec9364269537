//! A box with a light in its ceiling, a block and a sphere of glass.

use vstd::prelude::*;
use crate::scalar::{Scalar, one, whole, whole_spec, zero};
use crate::bvh::BvhNode;
use crate::camera::{Background, Camera};
use crate::config::{RenderOverrides, apply_overrides};
use crate::hittable::{HittableObject, HittableRef, RotateY, Translate, make_ref};
use crate::hittable_list::HittableList;
use crate::material::{
    Dielectric, DiffuseLight, EmptyMaterial, Lambertian, MaterialObject, MaterialRef, make_mat,
};
use crate::quad::{Quad, box_sides_spec, make_box};
use crate::rtweekend::degrees_to_radians_spec;
use crate::shared::share;
use crate::sphere::Sphere;
use crate::vec3::Vec3;
use rand::rngs::SmallRng;
use std::sync::Arc;

verus! {

/// The camera of the scene: a square image seen from in front of the open
/// side of the box, before a black background.
pub open spec fn camera_spec<S: Scalar>() -> Camera<S> {
    Camera {
        aspect_ratio: whole_spec::<S>(1),
        image_width: 600,
        samples_per_pixel: 100,
        max_depth: 50,
        background: Background::Color(Vec3::<S>::zeros_spec()),
        vfov: whole_spec::<S>(40),
        lookfrom: Vec3 {
            e0: whole_spec::<S>(278),
            e1: whole_spec::<S>(278),
            e2: whole_spec::<S>(-800i64),
        },
        lookat: Vec3 {
            e0: whole_spec::<S>(278),
            e1: whole_spec::<S>(278),
            e2: whole_spec::<S>(0),
        },
        vup: Vec3 { e0: whole_spec::<S>(0), e1: whole_spec::<S>(1), e2: whole_spec::<S>(0) },
        defocus_angle: whole_spec::<S>(0),
        focus_dist: whole_spec::<S>(10),
    }
}

pub fn camera<S: Scalar>() -> (cam: Camera<S>)
    ensures
        cam == camera_spec::<S>(),
{
    Camera {
        aspect_ratio: one::<S>(),
        image_width: 600,
        samples_per_pixel: 100,
        max_depth: 50,
        background: Background::Color(Vec3::zeros()),
        vfov: whole::<S>(40),
        lookfrom: Vec3 { e0: whole::<S>(278), e1: whole::<S>(278), e2: whole::<S>(-800) },
        lookat: Vec3 { e0: whole::<S>(278), e1: whole::<S>(278), e2: zero::<S>() },
        vup: Vec3 { e0: zero::<S>(), e1: one::<S>(), e2: zero::<S>() },
        defocus_angle: zero::<S>(),
        focus_dist: whole::<S>(10),
    }
}

/// The vector of three whole numbers.
pub open spec fn at_spec<S: Scalar>(x: i64, y: i64, z: i64) -> Vec3<S> {
    Vec3 { e0: whole_spec::<S>(x), e1: whole_spec::<S>(y), e2: whole_spec::<S>(z) }
}

pub fn at<S: Scalar>(x: i64, y: i64, z: i64) -> (r: Vec3<S>)
    ensures
        r == at_spec::<S>(x, y, z),
{
    Vec3 { e0: whole::<S>(x), e1: whole::<S>(y), e2: whole::<S>(z) }
}

/// The diffuse material whose colour has the given channels, in hundredths.
pub open spec fn diffuse_spec<S: Scalar>(r: i64, g: i64, b: i64) -> MaterialRef<S> {
    Arc::new(
        MaterialObject::Lambertian(
            Lambertian::new_spec(
                Vec3 {
                    e0: S::from_ratio_spec(r, 100),
                    e1: S::from_ratio_spec(g, 100),
                    e2: S::from_ratio_spec(b, 100),
                },
            ),
        ),
    )
}

pub fn diffuse<S: Scalar>(r: i64, g: i64, b: i64) -> (mat: MaterialRef<S>)
    ensures
        mat == diffuse_spec::<S>(r, g, b),
{
    make_mat(
        MaterialObject::Lambertian(
            Lambertian::new(
                Vec3::new(S::from_ratio(r, 100), S::from_ratio(g, 100), S::from_ratio(b, 100)),
            ),
        ),
    )
}

/// The white of the walls.
pub open spec fn white_spec<S: Scalar>() -> MaterialRef<S> {
    diffuse_spec::<S>(73, 73, 73)
}

/// The material of the light in the ceiling.
pub open spec fn lamp_spec<S: Scalar>() -> MaterialRef<S> {
    Arc::new(MaterialObject::DiffuseLight(DiffuseLight::new_spec(at_spec::<S>(15, 15, 15))))
}

/// Glass.
pub open spec fn glass_spec<S: Scalar>() -> MaterialRef<S> {
    Arc::new(MaterialObject::Dielectric(Dielectric { refraction_index: S::from_ratio_spec(3, 2) }))
}

/// The material that marks a light for sampling.
pub open spec fn marker_spec<S: Scalar>() -> MaterialRef<S> {
    Arc::new(MaterialObject::<S>::EmptyMaterial(EmptyMaterial))
}

/// A shared parallelogram.
pub open spec fn wall_spec<S: Scalar>(q: Vec3<S>, u: Vec3<S>, v: Vec3<S>, mat: MaterialRef<S>)
    -> HittableRef<S> {
    Arc::new(HittableObject::Quad(Quad::new_spec(q, u, v, mat)))
}

pub fn wall<S: Scalar>(q: Vec3<S>, u: Vec3<S>, v: Vec3<S>, mat: MaterialRef<S>) -> (r: HittableRef<
    S,
>)
    ensures
        r == wall_spec(q, u, v, mat),
{
    make_ref(HittableObject::Quad(Quad::new(q, u, v, mat)))
}

/// The sphere of glass.
pub open spec fn ball_spec<S: Scalar>(mat: MaterialRef<S>) -> HittableRef<S> {
    Arc::new(
        HittableObject::Sphere(Sphere::new_spec(at_spec::<S>(190, 90, 190), whole_spec::<S>(90), mat)),
    )
}

/// The five walls of the box and the light in its ceiling: the green wall,
/// the red wall, the floor, the ceiling and the back wall, all 555 wide, and
/// the light.
pub open spec fn walls_spec<S: Scalar>() -> Seq<HittableRef<S>> {
    seq![
        wall_spec(
            at_spec::<S>(555, 0, 0),
            at_spec::<S>(0, 0, 555),
            at_spec::<S>(0, 555, 0),
            diffuse_spec::<S>(12, 45, 15),
        ),
        wall_spec(
            at_spec::<S>(0, 0, 555),
            at_spec::<S>(0, 0, -555i64),
            at_spec::<S>(0, 555, 0),
            diffuse_spec::<S>(65, 5, 5),
        ),
        wall_spec(
            at_spec::<S>(0, 555, 0),
            at_spec::<S>(555, 0, 0),
            at_spec::<S>(0, 0, 555),
            white_spec::<S>(),
        ),
        wall_spec(
            at_spec::<S>(0, 0, 555),
            at_spec::<S>(555, 0, 0),
            at_spec::<S>(0, 0, -555i64),
            white_spec::<S>(),
        ),
        wall_spec(
            at_spec::<S>(555, 0, 555),
            at_spec::<S>(-555i64, 0, 0),
            at_spec::<S>(0, 555, 0),
            white_spec::<S>(),
        ),
        wall_spec(
            at_spec::<S>(213, 554, 227),
            at_spec::<S>(130, 0, 0),
            at_spec::<S>(0, 0, 105),
            lamp_spec::<S>(),
        ),
    ]
}

/// The object is the tall block: a box of six white sides from the origin
/// to `(165, 330, 165)`, turned by fifteen degrees and moved by
/// `(265, 0, 295)`.
pub open spec fn is_block<S: Scalar>(o: HittableRef<S>) -> bool {
    &&& *o matches HittableObject::Translate(moved)
    &&& moved.offset == at_spec::<S>(265, 0, 295)
    &&& moved.bbox == moved.object.bounding_box_spec().shift_spec(moved.offset)
    &&& *moved.object matches HittableObject::RotateY(turned)
    &&& turned.sin_theta == degrees_to_radians_spec(whole_spec::<S>(15)).sin_spec()
    &&& turned.cos_theta == degrees_to_radians_spec(whole_spec::<S>(15)).cos_spec()
    &&& turned.bbox == RotateY::turned_box_spec(
        turned.sin_theta,
        turned.cos_theta,
        turned.object.bounding_box_spec(),
    )
    &&& *turned.object matches HittableObject::List(sides)
    &&& sides.objects@.len() == 6
    &&& forall|k: int|
        0 <= k < 6 ==> *#[trigger] sides.objects@[k] == HittableObject::Quad(
            box_sides_spec(at_spec::<S>(0, 0, 0), at_spec::<S>(165, 330, 165), white_spec::<S>())[k],
        )
}

/// The scene: a box of five walls, green to one side and red to the other,
/// with a light in its ceiling, a tall block turned and moved into it, and a
/// sphere of glass.
pub fn scene<S: Scalar>() -> (world: HittableList<S>)
    ensures
        world.objects@.len() == 8,
        world.objects@.subrange(0, 6) == walls_spec::<S>(),
        is_block(world.objects@[6]),
        world.objects@[7] == ball_spec(glass_spec::<S>()),
{
    let mut world = HittableList::<S>::new();
    let red = diffuse::<S>(65, 5, 5);
    let white = diffuse::<S>(73, 73, 73);
    let green = diffuse::<S>(12, 45, 15);
    let light = make_mat(MaterialObject::DiffuseLight(DiffuseLight::new(at::<S>(15, 15, 15))));
    world.add(wall(at::<S>(555, 0, 0), at::<S>(0, 0, 555), at::<S>(0, 555, 0), green));
    world.add(wall(at::<S>(0, 0, 555), at::<S>(0, 0, -555), at::<S>(0, 555, 0), red));
    world.add(wall(at::<S>(0, 555, 0), at::<S>(555, 0, 0), at::<S>(0, 0, 555), share(&white)));
    world.add(wall(at::<S>(0, 0, 555), at::<S>(555, 0, 0), at::<S>(0, 0, -555), share(&white)));
    world.add(wall(at::<S>(555, 0, 555), at::<S>(-555, 0, 0), at::<S>(0, 555, 0), share(&white)));
    world.add(wall(at::<S>(213, 554, 227), at::<S>(130, 0, 0), at::<S>(0, 0, 105), light));
    assert(world.objects@.subrange(0, 6) =~= walls_spec::<S>());
    let box1 = make_box(at::<S>(0, 0, 0), at::<S>(165, 330, 165), white);
    let box1 = make_ref(HittableObject::RotateY(RotateY::new(box1, whole::<S>(15))));
    let box1 = make_ref(HittableObject::Translate(Translate::new(box1, at::<S>(265, 0, 295))));
    assert(is_block(box1));
    world.add(box1);
    let glass = make_mat(MaterialObject::Dielectric(Dielectric::new(S::from_ratio(3, 2))));
    world.add(
        make_ref(HittableObject::Sphere(Sphere::new(at::<S>(190, 90, 190), whole::<S>(90), glass))),
    );
    assert(world.objects@.subrange(0, 6) =~= walls_spec::<S>());
    world
}

/// The light sources of the scene, for the integrator to sample: the light
/// in the ceiling, seen from below, and the sphere of glass, both of the
/// marker material.
pub open spec fn lights_spec<S: Scalar>() -> Seq<HittableRef<S>> {
    seq![
        wall_spec(
            at_spec::<S>(343, 554, 332),
            at_spec::<S>(-130i64, 0, 0),
            at_spec::<S>(0, 0, -105i64),
            marker_spec::<S>(),
        ),
        ball_spec(marker_spec::<S>()),
    ]
}

pub fn lights<S: Scalar>() -> (lights: HittableList<S>)
    ensures
        lights.objects@ == lights_spec::<S>(),
{
    let empty_material = make_mat(MaterialObject::<S>::EmptyMaterial(EmptyMaterial));
    let mut lights = HittableList::<S>::new();
    lights.add(
        wall(
            at::<S>(343, 554, 332),
            at::<S>(-130, 0, 0),
            at::<S>(0, 0, -105),
            share(&empty_material),
        ),
    );
    lights.add(
        make_ref(
            HittableObject::Sphere(
                Sphere::new(at::<S>(190, 90, 190), whole::<S>(90), empty_material),
            ),
        ),
    );
    assert(lights.objects@ =~= lights_spec::<S>());
    lights
}

/// The objects are the scene: the five walls and the light, the block, and
/// the sphere of glass.
pub open spec fn is_scene<S: Scalar>(objects: Seq<HittableRef<S>>) -> bool {
    &&& objects.len() == 8
    &&& objects.subrange(0, 6) == walls_spec::<S>()
    &&& is_block(objects[6])
    &&& objects[7] == ball_spec(glass_spec::<S>())
}

/// The world is a hierarchy that was built over the scene.
pub open spec fn is_world<S: Scalar>(world: HittableObject<S>) -> bool {
    world matches HittableObject::Bvh(node) && exists|objects: Seq<HittableRef<S>>|
        is_scene(objects) && #[trigger] node.is_built_over(objects)
}

/// The lights are the list of the light sources of the scene.
pub open spec fn is_lights<S: Scalar>(lights: HittableRef<S>) -> bool {
    *lights matches HittableObject::List(list) && list.objects@ == lights_spec::<S>()
}

/// The text is an image of the scene, as the camera sees it: the image of
/// pixels, each of which the pixel at its place can show for the world and
/// the lights of the scene.
pub open spec fn is_render_of<S: Scalar>(cam: Camera<S>, image: Seq<u8>) -> bool {
    exists|pixels: Seq<(u8, u8, u8)>, world: HittableObject<S>, lights: HittableRef<S>|
        cam.is_image_text(image, pixels) && is_world(world) && is_lights(lights)
            && #[trigger] cam.is_image_of(&world, lights, pixels)
}

/// Renders the box with its light, its block and its sphere of glass into a
/// plain-text image, with the settings of `camera_spec` as far as `overrides`
/// does not replace them.
pub fn run<S: Scalar>(
    _scene: Option<i32>,
    overrides: &RenderOverrides<S>,
    rng: &mut SmallRng,
) -> (image: Vec<u8>)
    ensures
        exists|pixels: Seq<(u8, u8, u8)>| #[trigger]
            overrides.applied_spec(camera_spec::<S>()).is_image_text(image@, pixels),
        is_render_of(overrides.applied_spec(camera_spec::<S>()), image@),
{
    let list = scene::<S>();
    let ghost objects = list.objects@;
    let lights = make_ref(HittableObject::List(lights::<S>()));
    let mut cam = camera::<S>();
    apply_overrides(&mut cam, overrides);
    let node = BvhNode::new(list);
    assert(is_scene(objects) && node.is_built_over(objects));
    let world = HittableObject::Bvh(node);
    let image = cam.render(&world, &lights, rng);
    proof {
        let pixels = choose|pixels: Seq<(u8, u8, u8)>| #[trigger]
            cam.is_image_text(image@, pixels) && cam.is_image_of(&world, lights, pixels);
        assert(is_world(world));
        assert(cam.is_image_text(image@, pixels) && is_world(world) && is_lights(lights)
            && cam.is_image_of(&world, lights, pixels));
    }
    image
}

} // verus!
