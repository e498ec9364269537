//! A scene of many random spheres under the sky.

use vstd::prelude::*;
use crate::scalar::{Scalar, one, whole, whole_spec, zero, zero_spec};
use crate::bvh::BvhNode;
use crate::camera::{Background, Camera};
use crate::config::{RenderOverrides, apply_overrides};
use crate::hittable::{HittableObject, HittableRef, make_ref};
use crate::hittable_list::HittableList;
use crate::material::{Dielectric, Lambertian, MaterialObject, MaterialRef, Metal, make_mat};
use crate::rtweekend::random_double;
use crate::sphere::Sphere;
use crate::vec3::Vec3;
use rand::rngs::SmallRng;
use std::sync::Arc;

verus! {

/// The cells of the ground grid along each axis run from `-GRID` to `GRID - 1`.
pub const GRID: i32 = 11;

/// The camera of the scene: a wide image seen from `(13, 2, 3)` towards the
/// origin through a narrow, slightly open lens, under the sky.
pub open spec fn camera_spec<S: Scalar>() -> Camera<S> {
    Camera {
        aspect_ratio: S::from_ratio_spec(16, 9),
        image_width: 1200,
        samples_per_pixel: 10,
        max_depth: 20,
        background: Background::Sky,
        vfov: whole_spec::<S>(20),
        lookfrom: Vec3 { e0: whole_spec::<S>(13), e1: whole_spec::<S>(2), e2: whole_spec::<S>(3) },
        lookat: Vec3 { e0: whole_spec::<S>(0), e1: whole_spec::<S>(0), e2: whole_spec::<S>(0) },
        vup: Vec3 { e0: whole_spec::<S>(0), e1: whole_spec::<S>(1), e2: whole_spec::<S>(0) },
        defocus_angle: S::from_ratio_spec(6, 10),
        focus_dist: whole_spec::<S>(10),
    }
}

pub fn camera<S: Scalar>() -> (cam: Camera<S>)
    ensures
        cam == camera_spec::<S>(),
{
    Camera {
        aspect_ratio: S::from_ratio(16, 9),
        image_width: 1200,
        samples_per_pixel: 10,
        max_depth: 20,
        background: Background::Sky,
        vfov: whole::<S>(20),
        lookfrom: Vec3 { e0: whole::<S>(13), e1: whole::<S>(2), e2: whole::<S>(3) },
        lookat: Vec3 { e0: zero::<S>(), e1: zero::<S>(), e2: zero::<S>() },
        vup: Vec3 { e0: zero::<S>(), e1: one::<S>(), e2: zero::<S>() },
        defocus_angle: S::from_ratio(6, 10),
        focus_dist: whole::<S>(10),
    }
}

/// A random material for a small sphere: diffuse where the unit scalar
/// `choose_mat` lies below 0.8, metal below 0.95, else glass.
pub fn small_material<S: Scalar>(choose_mat: S, rng: &mut SmallRng) -> (mat: MaterialRef<S>)
    ensures
        choose_mat.key() < S::from_ratio_spec(8, 10).key() ==> *mat is Lambertian,
        !(choose_mat.key() < S::from_ratio_spec(8, 10).key()) && choose_mat.key()
            < S::from_ratio_spec(95, 100).key() ==> *mat is Metal,
        !(choose_mat.key() < S::from_ratio_spec(8, 10).key()) && !(choose_mat.key()
            < S::from_ratio_spec(95, 100).key()) ==> *mat == MaterialObject::Dielectric(
            Dielectric { refraction_index: S::from_ratio_spec(3, 2) },
        ),
{
    if choose_mat.lt(S::from_ratio(8, 10)) {
        let albedo = Vec3::<S>::random(rng).times(Vec3::<S>::random(rng));
        make_mat(MaterialObject::Lambertian(Lambertian::new(albedo)))
    } else if choose_mat.lt(S::from_ratio(95, 100)) {
        let albedo = Vec3::<S>::random_range(rng, S::from_ratio(1, 2), one::<S>());
        let fuzz = random_double::<S>(rng).times(S::from_ratio(1, 2));
        make_mat(MaterialObject::Metal(Metal::new(albedo, fuzz)))
    } else {
        make_mat(MaterialObject::Dielectric(Dielectric::new(S::from_ratio(3, 2))))
    }
}

/// The diffuse material whose colour has the given channels, in tenths.
pub open spec fn diffuse_spec<S: Scalar>(r: i64, g: i64, b: i64) -> MaterialRef<S> {
    Arc::new(
        MaterialObject::Lambertian(
            Lambertian::new_spec(
                Vec3 {
                    e0: S::from_ratio_spec(r, 10),
                    e1: S::from_ratio_spec(g, 10),
                    e2: S::from_ratio_spec(b, 10),
                },
            ),
        ),
    )
}

/// A shared sphere at rest, its centre at whole coordinates.
pub open spec fn ball_spec<S: Scalar>(x: i64, y: i64, z: i64, radius: i64, mat: MaterialRef<S>)
    -> HittableRef<S> {
    Arc::new(
        HittableObject::Sphere(
            Sphere::new_spec(
                Vec3 { e0: whole_spec::<S>(x), e1: whole_spec::<S>(y), e2: whole_spec::<S>(z) },
                whole_spec::<S>(radius),
                mat,
            ),
        ),
    )
}

pub fn ball<S: Scalar>(x: i64, y: i64, z: i64, radius: i64, mat: MaterialRef<S>) -> (r: HittableRef<
    S,
>)
    ensures
        r == ball_spec(x, y, z, radius, mat),
{
    make_ref(
        HittableObject::Sphere(
            Sphere::new(
                Vec3 { e0: whole::<S>(x), e1: whole::<S>(y), e2: whole::<S>(z) },
                whole::<S>(radius),
                mat,
            ),
        ),
    )
}

/// The ground: a grey sphere of radius 1000 beneath the scene.
pub open spec fn ground_spec<S: Scalar>() -> HittableRef<S> {
    ball_spec(0, -1000i64, 0, 1000, diffuse_spec::<S>(5, 5, 5))
}

/// The three large spheres: of glass in the middle, of a diffuse brown
/// behind it, and of polished metal before it.
pub open spec fn large_spheres_spec<S: Scalar>() -> Seq<HittableRef<S>> {
    seq![
        ball_spec(
            0,
            1,
            0,
            1,
            Arc::new(
                MaterialObject::Dielectric(Dielectric { refraction_index: S::from_ratio_spec(3, 2) }),
            ),
        ),
        ball_spec(-4i64, 1, 0, 1, diffuse_spec::<S>(4, 2, 1)),
        ball_spec(
            4,
            1,
            0,
            1,
            Arc::new(
                MaterialObject::Metal(
                    Metal::new_spec(
                        Vec3 {
                            e0: S::from_ratio_spec(7, 10),
                            e1: S::from_ratio_spec(6, 10),
                            e2: S::from_ratio_spec(5, 10),
                        },
                        zero_spec::<S>(),
                    ),
                ),
            ),
        ),
    ]
}

/// The object is a small sphere: of radius one fifth, and resting on the
/// ground.
pub open spec fn is_small_sphere<S: Scalar>(o: HittableRef<S>) -> bool {
    &&& *o matches HittableObject::Sphere(s)
    &&& s.radius == Sphere::<S>::held_radius_spec(S::from_ratio_spec(2, 10))
    &&& s.center.orig.e1 == S::from_ratio_spec(2, 10)
    &&& s.center.dir == Vec3::<S>::zeros_spec()
    &&& (*s.mat is Lambertian || *s.mat is Metal || *s.mat is Dielectric)
}

/// The objects from the second on are small spheres.
pub open spec fn small_from_second<S: Scalar>(objects: Seq<HittableRef<S>>) -> bool {
    forall|i: int| 1 <= i < objects.len() ==> is_small_sphere(#[trigger] objects[i])
}

/// The scene: the ground, then a small sphere of a random material at a
/// random place in each cell of the ground grid that lies clear of the large
/// metal sphere, and at the end the three large spheres.
pub fn scene<S: Scalar>(rng: &mut SmallRng) -> (world: HittableList<S>)
    ensures
        4 <= world.objects@.len() <= 488,
        world.objects@[0] == ground_spec::<S>(),
        small_from_second(world.objects@.subrange(0, world.objects@.len() - 3)),
        world.objects@.subrange(world.objects@.len() - 3, world.objects@.len() as int)
            == large_spheres_spec::<S>(),
{
    let mut world = HittableList::<S>::new();
    let ground_material = make_mat(
        MaterialObject::Lambertian(
            Lambertian::new(Vec3::new(S::from_ratio(5, 10), S::from_ratio(5, 10), S::from_ratio(5, 10))),
        ),
    );
    world.add(ball(0, -1000, 0, 1000, ground_material));
    let mut a: i32 = -GRID;
    while a < GRID
        invariant
            -GRID <= a <= GRID,
            1 <= world.objects@.len() <= 1 + (a + 11) * 22,
            world.objects@[0] == ground_spec::<S>(),
            small_from_second(world.objects@),
        decreases GRID - a,
    {
        let mut b: i32 = -GRID;
        while b < GRID
            invariant
                -GRID <= a < GRID,
                -GRID <= b <= GRID,
                1 <= world.objects@.len() <= 1 + (a + 11) * 22 + (b + 11),
                world.objects@[0] == ground_spec::<S>(),
                small_from_second(world.objects@),
            decreases GRID - b,
        {
            let choose_mat = random_double::<S>(rng);
            let center = Vec3::new(
                whole::<S>(a as i64).plus(S::from_ratio(9, 10).times(random_double::<S>(rng))),
                S::from_ratio(2, 10),
                whole::<S>(b as i64).plus(S::from_ratio(9, 10).times(random_double::<S>(rng))),
            );
            let clear = center.minus(Vec3::new(whole::<S>(4), S::from_ratio(2, 10), zero::<S>()))
                .length();
            if S::from_ratio(9, 10).lt(clear) {
                let sphere_material = small_material(choose_mat, rng);
                let ghost before = world.objects@;
                world.add(
                    make_ref(
                        HittableObject::Sphere(
                            Sphere::new(center, S::from_ratio(2, 10), sphere_material),
                        ),
                    ),
                );
                assert(small_from_second(world.objects@)) by {
                    assert forall|i: int| 1 <= i < world.objects@.len() implies is_small_sphere(
                        #[trigger] world.objects@[i],
                    ) by {
                        if i < before.len() {
                            assert(world.objects@[i] == before[i]);
                        }
                    }
                }
            }
            b += 1;
        }
        a += 1;
    }
    let ghost before = world.objects@;
    let material1 = make_mat(MaterialObject::Dielectric(Dielectric::new(S::from_ratio(3, 2))));
    world.add(ball(0, 1, 0, 1, material1));
    let material2 = make_mat(
        MaterialObject::Lambertian(
            Lambertian::new(Vec3::new(S::from_ratio(4, 10), S::from_ratio(2, 10), S::from_ratio(1, 10))),
        ),
    );
    world.add(ball(-4, 1, 0, 1, material2));
    let material3 = make_mat(
        MaterialObject::Metal(
            Metal::new(
                Vec3::new(S::from_ratio(7, 10), S::from_ratio(6, 10), S::from_ratio(5, 10)),
                zero::<S>(),
            ),
        ),
    );
    world.add(ball(4, 1, 0, 1, material3));
    proof {
        let n = world.objects@.len() as int;
        assert(world.objects@.subrange(0, n - 3) =~= before);
        assert(world.objects@.subrange(n - 3, n) =~= large_spheres_spec::<S>());
    }
    world
}

/// The objects are a scene of random spheres: the ground, small spheres,
/// and at the end the three large spheres.
pub open spec fn is_scene<S: Scalar>(objects: Seq<HittableRef<S>>) -> bool {
    &&& 4 <= objects.len() <= 488
    &&& objects[0] == ground_spec::<S>()
    &&& small_from_second(objects.subrange(0, objects.len() - 3))
    &&& objects.subrange(objects.len() - 3, objects.len() as int) == large_spheres_spec::<S>()
}

/// The world is a hierarchy that was built over a scene of random spheres.
pub open spec fn is_world<S: Scalar>(world: HittableObject<S>) -> bool {
    world matches HittableObject::Bvh(node) && exists|objects: Seq<HittableRef<S>>|
        is_scene(objects) && #[trigger] node.is_built_over(objects)
}

/// The text is an image of a scene of random spheres, as the camera sees
/// it: the image of pixels, each of which the pixel at its place can show
/// for such a world without lights.
pub open spec fn is_render_of<S: Scalar>(cam: Camera<S>, image: Seq<u8>) -> bool {
    exists|pixels: Seq<(u8, u8, u8)>, world: HittableObject<S>, lights: HittableRef<S>|
        cam.is_image_text(image, pixels) && is_world(world) && Camera::<S>::has_no_lights(lights)
            && #[trigger] cam.is_image_of(&world, lights, pixels)
}

/// Renders the scene of random spheres under the sky into a plain-text
/// image, with the settings of `camera_spec` as far as `overrides` does not
/// replace them. The scene has no lights to sample; it is lit by the sky.
pub fn run<S: Scalar>(
    _scene: Option<i32>,
    overrides: &RenderOverrides<S>,
    rng: &mut SmallRng,
) -> (image: Vec<u8>)
    ensures
        exists|pixels: Seq<(u8, u8, u8)>| #[trigger]
            overrides.applied_spec(camera_spec::<S>()).is_image_text(image@, pixels),
        is_render_of(overrides.applied_spec(camera_spec::<S>()), image@),
{
    let list = scene::<S>(rng);
    let ghost objects = list.objects@;
    let mut cam = camera::<S>();
    apply_overrides(&mut cam, overrides);
    let node = BvhNode::new(list);
    assert(is_scene(objects) && node.is_built_over(objects));
    let world = HittableObject::Bvh(node);
    let lights = make_ref(HittableObject::List(HittableList::new()));
    let image = cam.render(&world, &lights, rng);
    proof {
        let pixels = choose|pixels: Seq<(u8, u8, u8)>| #[trigger]
            cam.is_image_text(image@, pixels) && cam.is_image_of(&world, lights, pixels);
        assert(is_world(world));
        assert(cam.is_image_text(image@, pixels) && is_world(world) && Camera::<S>::has_no_lights(
            lights,
        ) && cam.is_image_of(&world, lights, pixels));
    }
    image
}

} // verus!
