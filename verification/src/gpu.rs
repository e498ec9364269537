//! What a compute backend is handed: the parameter block, the arrays of a
//! scene, and the plan of its passes.

use vstd::prelude::*;
use crate::scalar::{Scalar, one, one_spec, whole, whole_spec, zero, zero_spec};
use crate::camera::{Background, Camera, CameraInternals};
use crate::config::{RenderOverrides, apply_overrides};
use crate::hittable::{HittableObject, HittableRef};
use crate::hittable_list::HittableList;
use crate::in_one_weekend::{
    camera_spec, is_scene, is_small_sphere, large_spheres_spec, scene,
};
use crate::material::MaterialObject;
use crate::rtweekend::{degrees_to_radians, degrees_to_radians_spec, next_bits};
use crate::sphere::Sphere;
use crate::vec3::{Vec3, cross, cross_spec, unit_vector, unit_vector_spec};
use rand::rngs::SmallRng;

verus! {

/// The parameter block of a render, as a compute backend reads it: the
/// camera in records of four scalars, and the whole-number settings.
pub struct CameraUniform<S: Scalar> {
    pub origin: [S; 4],
    pub pixel00: [S; 4],
    pub pixel_delta_u: [S; 4],
    pub pixel_delta_v: [S; 4],
    /// The first vector of the camera's basis, to its right.
    pub u: [S; 4],
    /// The second vector of the camera's basis, upwards.
    pub v: [S; 4],
    pub background: [S; 4],
    /// The radius of the lens, the width and the height of the image, and the
    /// samples for a pixel.
    pub params_f: [S; 4],
    /// The number of bounces, the seed, the number of spheres, and whether
    /// the background is the sky (0) or one radiance (1).
    pub params_u: [u32; 4],
}

/// A sphere in the array that a compute backend reads.
pub struct SphereGpu<S: Scalar> {
    /// The centre, and the radius.
    pub center_radius: [S; 4],
    pub material_index: u32,
}

/// A material in the array that a compute backend reads.
pub struct MaterialGpu<S: Scalar> {
    /// The colour, and the fuzz.
    pub albedo_fuzz: [S; 4],
    pub kind: u32,
    pub ref_idx: S,
}

/// The kind of a diffuse material.
pub const KIND_DIFFUSE: u32 = 0;

/// The kind of a metal.
pub const KIND_METAL: u32 = 1;

/// The kind of glass.
pub const KIND_GLASS: u32 = 2;

/// The most samples for a pixel that one pass of a backend takes.
pub const GPU_SPP_PER_PASS: u32 = 64;

/// The side of the square of pixels that one workgroup renders.
pub const WORKGROUP_SIZE: u32 = 8;

/// The factor by which the seeds of successive passes are spread.
pub const SEED_STRIDE: u32 = 0x9E37_79B9;

/// A vector as a record of four scalars, with `last` at the end.
pub open spec fn record_spec<S: Scalar>(v: Vec3<S>, last: S) -> [S; 4] {
    [v.e0, v.e1, v.e2, last]
}

pub fn record<S: Scalar>(v: Vec3<S>, last: S) -> (r: [S; 4])
    ensures
        r == record_spec(v, last),
{
    [v.e0, v.e1, v.e2, last]
}

/// Appends a material, and returns its place in the array.
pub fn add_material<S: Scalar>(
    materials: &mut Vec<MaterialGpu<S>>,
    kind: u32,
    albedo: [S; 3],
    fuzz: S,
    ref_idx: S,
) -> (index: u32)
    requires
        old(materials)@.len() <= u32::MAX,
    ensures
        index == old(materials)@.len(),
        final(materials)@ == old(materials)@.push(
            MaterialGpu { albedo_fuzz: [albedo[0], albedo[1], albedo[2], fuzz], kind, ref_idx },
        ),
{
    let index = materials.len() as u32;
    materials.push(
        MaterialGpu { albedo_fuzz: [albedo[0], albedo[1], albedo[2], fuzz], kind, ref_idx },
    );
    index
}

/// A backend knows the material: it is diffuse, a metal, or glass.
pub open spec fn is_flat_kind<S: Scalar>(mat: MaterialObject<S>) -> bool {
    mat is Lambertian || mat is Metal || mat is Dielectric
}

/// The material as a backend reads it: a diffuse material with its colour
/// at the origin of its texture, a metal with its colour and fuzz, glass in
/// white with its refractive index. (Of a material that a backend does not
/// know the function says nothing that is of use.)
pub open spec fn flat_material_spec<S: Scalar>(mat: MaterialObject<S>) -> MaterialGpu<S> {
    match mat {
        MaterialObject::Metal(m) => MaterialGpu {
            albedo_fuzz: record_spec(m.albedo, m.fuzz),
            kind: KIND_METAL,
            ref_idx: one_spec::<S>(),
        },
        MaterialObject::Dielectric(m) => MaterialGpu {
            albedo_fuzz: [one_spec::<S>(), one_spec::<S>(), one_spec::<S>(), zero_spec::<S>()],
            kind: KIND_GLASS,
            ref_idx: m.refraction_index,
        },
        MaterialObject::Lambertian(m) => MaterialGpu {
            albedo_fuzz: record_spec(
                m.tex.value_spec(zero_spec::<S>(), zero_spec::<S>(), Vec3::<S>::zeros_spec()),
                zero_spec::<S>(),
            ),
            kind: KIND_DIFFUSE,
            ref_idx: one_spec::<S>(),
        },
        _ => MaterialGpu {
            albedo_fuzz: record_spec(Vec3::<S>::zeros_spec(), zero_spec::<S>()),
            kind: KIND_DIFFUSE,
            ref_idx: one_spec::<S>(),
        },
    }
}

pub fn flat_material<S: Scalar>(mat: &MaterialObject<S>) -> (r: MaterialGpu<S>)
    requires
        is_flat_kind(*mat),
    ensures
        r == flat_material_spec(*mat),
{
    match mat {
        MaterialObject::Metal(m) => MaterialGpu {
            albedo_fuzz: record(m.albedo, m.fuzz),
            kind: KIND_METAL,
            ref_idx: one::<S>(),
        },
        MaterialObject::Dielectric(m) => MaterialGpu {
            albedo_fuzz: [one::<S>(), one::<S>(), one::<S>(), zero::<S>()],
            kind: KIND_GLASS,
            ref_idx: m.refraction_index,
        },
        MaterialObject::Lambertian(m) => MaterialGpu {
            albedo_fuzz: record(m.tex.value(zero::<S>(), zero::<S>(), Vec3::zeros()), zero::<S>()),
            kind: KIND_DIFFUSE,
            ref_idx: one::<S>(),
        },
        _ => MaterialGpu {
            albedo_fuzz: record(Vec3::zeros(), zero::<S>()),
            kind: KIND_DIFFUSE,
            ref_idx: one::<S>(),
        },
    }
}

/// The sphere as a backend reads it: its centre at time zero, its radius,
/// and its place in the arrays.
pub open spec fn flat_sphere_spec<S: Scalar>(s: Sphere<S>, index: u32) -> SphereGpu<S> {
    SphereGpu { center_radius: record_spec(s.center.orig, s.radius), material_index: index }
}

/// Every object of the list is a sphere at rest of a material that a
/// backend knows.
pub open spec fn all_spheres<S: Scalar>(objects: Seq<HittableRef<S>>) -> bool {
    forall|i: int|
        0 <= i < objects.len() ==> (*(#[trigger] objects[i]) matches HittableObject::Sphere(s)
            && is_flat_kind(*s.mat) && s.center.dir == Vec3::<S>::zeros_spec())
}

/// The arrays hold the spheres of the list and their materials, each at the
/// place of its sphere in the list.
pub open spec fn is_flat<S: Scalar>(
    objects: Seq<HittableRef<S>>,
    spheres: Seq<SphereGpu<S>>,
    materials: Seq<MaterialGpu<S>>,
) -> bool {
    &&& spheres.len() == objects.len()
    &&& materials.len() == objects.len()
    &&& forall|i: int|
        0 <= i < objects.len() ==> (*(#[trigger] objects[i]) matches HittableObject::Sphere(s)
            ==> spheres[i] == flat_sphere_spec(s, i as u32) && materials[i] == flat_material_spec(
            *s.mat,
        ))
}

/// Lays a list of spheres out in the arrays that a compute backend reads.
pub fn flatten<S: Scalar>(list: &HittableList<S>) -> (r: (Vec<SphereGpu<S>>, Vec<MaterialGpu<S>>))
    requires
        all_spheres(list.objects@),
        list.objects@.len() <= u32::MAX,
    ensures
        is_flat(list.objects@, r.0@, r.1@),
{
    let mut spheres: Vec<SphereGpu<S>> = Vec::new();
    let mut materials: Vec<MaterialGpu<S>> = Vec::new();
    let mut i: usize = 0;
    while i < list.objects.len()
        invariant
            i <= list.objects@.len() <= u32::MAX,
            all_spheres(list.objects@),
            is_flat(list.objects@.take(i as int), spheres@, materials@),
        decreases list.objects.len() - i,
    {
        let ghost before = list.objects@.take(i as int);
        match &*list.objects[i] {
            HittableObject::Sphere(s) => {
                let flat = flat_material(&*s.mat);
                let index = materials.len() as u32;
                materials.push(flat);
                spheres.push(
                    SphereGpu { center_radius: record(s.center.orig, s.radius), material_index: index },
                );
            },
            _ => {},
        }
        proof {
            let after = list.objects@.take(i + 1);
            assert(after =~= before.push(list.objects@[i as int]));
        }
        i += 1;
    }
    proof {
        assert(list.objects@.take(list.objects@.len() as int) =~= list.objects@);
    }
    (spheres, materials)
}

/// The vectors to the right of the camera and upwards.
pub open spec fn basis_spec<S: Scalar>(cam: Camera<S>) -> (Vec3<S>, Vec3<S>) {
    let w = unit_vector_spec(cam.lookfrom.minus_spec(cam.lookat));
    let u = unit_vector_spec(cross_spec(cam.vup, w));
    (u, cross_spec(w, u))
}

/// The radius of the lens.
pub open spec fn defocus_radius_spec<S: Scalar>(cam: Camera<S>) -> S {
    cam.focus_dist.times_spec(
        degrees_to_radians_spec(cam.defocus_angle.over_spec(whole_spec::<S>(2))).tan_spec(),
    )
}

/// Whether the background is the sky (0) or one radiance (1).
pub open spec fn background_mode_spec<S: Scalar>(cam: Camera<S>) -> u32 {
    match cam.background {
        Background::Sky => 0,
        Background::Color(_) => 1,
    }
}

/// The radiance of the background; black for the sky.
pub open spec fn background_color_spec<S: Scalar>(cam: Camera<S>) -> Vec3<S> {
    match cam.background {
        Background::Sky => Vec3::<S>::zeros_spec(),
        Background::Color(c) => c,
    }
}

/// The number of bounces as a backend counts them: none for a negative
/// number.
pub open spec fn depth_spec(max_depth: i32) -> u32 {
    if max_depth < 0 {
        0
    } else {
        max_depth as u32
    }
}

/// The parameter block of a camera, for a scene of `sphere_count` spheres
/// and the given seed.
pub open spec fn camera_uniform_spec<S: Scalar>(cam: Camera<S>, seed: u32, sphere_count: u32)
    -> CameraUniform<S> {
    let data = cam.initialize_spec();
    let basis = basis_spec(cam);
    CameraUniform {
        origin: record_spec(cam.lookfrom, zero_spec::<S>()),
        pixel00: record_spec(data.pixel00_loc, zero_spec::<S>()),
        pixel_delta_u: record_spec(data.pixel_delta_u, zero_spec::<S>()),
        pixel_delta_v: record_spec(data.pixel_delta_v, zero_spec::<S>()),
        u: record_spec(basis.0, zero_spec::<S>()),
        v: record_spec(basis.1, zero_spec::<S>()),
        background: record_spec(background_color_spec(cam), zero_spec::<S>()),
        params_f: [
            defocus_radius_spec(cam),
            whole_spec::<S>(cam.image_width as i64),
            whole_spec::<S>(data.image_height as i64),
            whole_spec::<S>(cam.samples_per_pixel as i64),
        ],
        params_u: [depth_spec(cam.max_depth), seed, sphere_count, background_mode_spec(cam)],
    }
}

pub fn camera_uniform<S: Scalar>(cam: &Camera<S>, seed: u32, sphere_count: u32) -> (r:
    CameraUniform<S>)
    ensures
        r == camera_uniform_spec(*cam, seed, sphere_count),
{
    let data = cam.initialize();
    let w = unit_vector(cam.lookfrom.minus(cam.lookat));
    let u = unit_vector(cross(cam.vup, w));
    let v = cross(w, u);
    let defocus_radius = cam.focus_dist.times(
        degrees_to_radians(cam.defocus_angle.over(whole::<S>(2))).tan(),
    );
    let background = match cam.background {
        Background::Sky => Vec3::zeros(),
        Background::Color(c) => c,
    };
    let background_mode: u32 = match cam.background {
        Background::Sky => 0,
        Background::Color(_) => 1,
    };
    let depth: u32 = if cam.max_depth < 0 {
        0
    } else {
        cam.max_depth as u32
    };
    CameraUniform {
        origin: record(cam.lookfrom, zero::<S>()),
        pixel00: record(data.pixel00_loc, zero::<S>()),
        pixel_delta_u: record(data.pixel_delta_u, zero::<S>()),
        pixel_delta_v: record(data.pixel_delta_v, zero::<S>()),
        u: record(u, zero::<S>()),
        v: record(v, zero::<S>()),
        background: record(background, zero::<S>()),
        params_f: [
            defocus_radius,
            whole::<S>(cam.image_width as i64),
            whole::<S>(data.image_height as i64),
            whole::<S>(cam.samples_per_pixel as i64),
        ],
        params_u: [depth, seed, sphere_count, background_mode],
    }
}

/// The block is that of the camera of the scene, with the settings that
/// the overrides replace.
pub open spec fn is_block_of<S: Scalar>(
    block: CameraUniform<S>,
    overrides: RenderOverrides<S>,
    seed: u32,
    sphere_count: u32,
) -> bool {
    block == camera_uniform_spec(overrides.applied_spec(camera_spec::<S>()), seed, sphere_count)
}

/// The scene of random spheres as a compute backend reads it: the
/// parameter block of its camera, with the settings that `overrides` replaces
/// and a random seed, and the arrays of its spheres and their materials.
pub fn build_in_one_weekend_scene<S: Scalar>(
    overrides: &RenderOverrides<S>,
    rng: &mut SmallRng,
) -> (r: (CameraUniform<S>, Vec<SphereGpu<S>>, Vec<MaterialGpu<S>>))
    ensures
        4 <= r.1@.len() <= 488,
        r.2@.len() == r.1@.len(),
        exists|seed: u32| #[trigger] is_block_of(r.0, *overrides, seed, r.1@.len() as u32),
        exists|objects: Seq<HittableRef<S>>| #[trigger]
            is_flat(objects, r.1@, r.2@) && is_scene(objects),
{
    let world = scene::<S>(rng);
    proof {
        let n = world.objects@.len() as int;
        let head = world.objects@.subrange(0, n - 3);
        let tail = world.objects@.subrange(n - 3, n);
        assert forall|i: int| 0 <= i < n implies (*(#[trigger] world.objects@[i])
            matches HittableObject::Sphere(s) && is_flat_kind(*s.mat) && s.center.dir == Vec3::<
            S,
        >::zeros_spec()) by {
            if i == 0 {
            } else if i < n - 3 {
                assert(head[i] == world.objects@[i]);
                assert(is_small_sphere(head[i]));
            } else {
                assert(tail[i - (n - 3)] == world.objects@[i]);
                assert(large_spheres_spec::<S>()[i - (n - 3)] == world.objects@[i]);
            }
        }
    }
    let flat = flatten(&world);
    let mut cam = crate::in_one_weekend::camera::<S>();
    apply_overrides(&mut cam, overrides);
    let bits = next_bits(rng);
    let seed = (bits >> 32) as u32;
    let block = camera_uniform(&cam, seed, flat.0.len() as u32);
    let r = (block, flat.0, flat.1);
    proof {
        assert(is_block_of(r.0, *overrides, seed, r.1@.len() as u32));
        assert(is_flat(world.objects@, r.1@, r.2@) && is_scene(world.objects@));
    }
    r
}

/// The samples for a pixel that a backend takes in all: at least one.
pub open spec fn total_samples_spec(samples_per_pixel: i32) -> u32 {
    if samples_per_pixel < 1 {
        1
    } else {
        samples_per_pixel as u32
    }
}

pub fn total_samples(samples_per_pixel: i32) -> (r: u32)
    ensures
        r == total_samples_spec(samples_per_pixel),
        r >= 1,
{
    if samples_per_pixel < 1 {
        1
    } else {
        samples_per_pixel as u32
    }
}

/// The samples that a full pass takes: `GPU_SPP_PER_PASS`, or all of them
/// where they are fewer.
pub open spec fn pass_size_spec(total_spp: u32) -> u32 {
    if total_spp < GPU_SPP_PER_PASS {
        total_spp
    } else {
        GPU_SPP_PER_PASS
    }
}

/// The number of passes: the samples over those of a full pass, rounded up.
pub open spec fn pass_count_spec(total_spp: u32) -> int {
    if total_spp == 0 {
        0
    } else {
        (total_spp + pass_size_spec(total_spp) - 1) / (pass_size_spec(total_spp) as int)
    }
}

pub fn pass_count(total_spp: u32) -> (r: u32)
    ensures
        r == pass_count_spec(total_spp),
{
    if total_spp == 0 {
        return 0;
    }
    let size: u64 = if total_spp < GPU_SPP_PER_PASS {
        total_spp as u64
    } else {
        GPU_SPP_PER_PASS as u64
    };
    let count = (total_spp as u64 + size - 1) / size;
    assert(count <= total_spp) by (nonlinear_arith)
        requires
            count == (total_spp + size - 1) / (size as int),
            1 <= size <= total_spp,
    ;
    count as u32
}

/// The samples that pass number `pass_index` takes: those of a full pass,
/// or what is left for the last pass.
pub open spec fn pass_samples_spec(total_spp: u32, pass_index: u32) -> int {
    let done = pass_index * pass_size_spec(total_spp);
    if done >= total_spp {
        0
    } else if total_spp - done < pass_size_spec(total_spp) {
        total_spp - done
    } else {
        pass_size_spec(total_spp) as int
    }
}

pub fn pass_samples(total_spp: u32, pass_index: u32) -> (r: u32)
    ensures
        r == pass_samples_spec(total_spp, pass_index),
{
    let size: u64 = if total_spp < GPU_SPP_PER_PASS {
        total_spp as u64
    } else {
        GPU_SPP_PER_PASS as u64
    };
    assert(pass_index * size <= 0xffff_ffff * 64) by (nonlinear_arith)
        requires
            0 <= pass_index <= 0xffff_ffff,
            0 <= size <= 64,
    ;
    let done: u64 = pass_index as u64 * size;
    if done >= total_spp as u64 {
        0
    } else if total_spp as u64 - done < size {
        (total_spp as u64 - done) as u32
    } else {
        size as u32
    }
}

/// The samples of the first `passes` passes together.
pub open spec fn samples_upto_spec(total_spp: u32, passes: nat) -> int
    decreases passes,
{
    if passes == 0 {
        0
    } else {
        samples_upto_spec(total_spp, (passes - 1) as nat) + pass_samples_spec(
            total_spp,
            (passes - 1) as u32,
        )
    }
}

/// The passes before pass number `passes` take as many samples as there
/// are, or as many as so many full passes take.
pub proof fn lemma_samples_upto(total_spp: u32, passes: nat)
    requires
        passes <= u32::MAX,
    ensures
        samples_upto_spec(total_spp, passes) == if passes * pass_size_spec(total_spp) >= total_spp {
            total_spp as int
        } else {
            passes * pass_size_spec(total_spp)
        },
    decreases passes,
{
    let size = pass_size_spec(total_spp) as int;
    if passes > 0 {
        lemma_samples_upto(total_spp, (passes - 1) as nat);
        assert(passes * size == (passes - 1) * size + size) by (nonlinear_arith);
        assert(((passes - 1) as u32) * size == (passes - 1) * size);
    } else {
        assert(passes * size == 0) by (nonlinear_arith)
            requires
                passes == 0,
        ;
    }
}

/// The passes of a render take the samples of the render between them, no
/// more and no less.
pub proof fn lemma_passes_take_all_samples(total_spp: u32)
    ensures
        samples_upto_spec(total_spp, pass_count_spec(total_spp) as nat) == total_spp,
        0 <= pass_count_spec(total_spp) <= total_spp,
{
    let size = pass_size_spec(total_spp) as int;
    if total_spp > 0 {
        let count = pass_count_spec(total_spp);
        assert(0 < count <= total_spp && count * size >= total_spp) by (nonlinear_arith)
            requires
                count == (total_spp + size - 1) / size,
                1 <= size <= total_spp,
        ;
        lemma_samples_upto(total_spp, count as nat);
    }
}

/// The seed of pass number `pass_index`: the seed of the render, with the
/// pass number times `SEED_STRIDE`, wrapped to 32 bits, flipped into it.
pub open spec fn pass_seed_spec(base_seed: u32, pass_index: u32) -> u32 {
    base_seed ^ (((pass_index as int * SEED_STRIDE as int) % 0x1_0000_0000) as u32)
}

pub fn pass_seed(base_seed: u32, pass_index: u32) -> (r: u32)
    ensures
        r == pass_seed_spec(base_seed, pass_index),
{
    let spread: u64 = (pass_index as u64 * SEED_STRIDE as u64) % 0x1_0000_0000;
    base_seed ^ (spread as u32)
}

/// The number of workgroups along an extent of the image: the extent over
/// the side of a workgroup, rounded up.
pub open spec fn workgroups_spec(extent: u32) -> int {
    (extent + WORKGROUP_SIZE - 1) / (WORKGROUP_SIZE as int)
}

pub fn workgroups(extent: u32) -> (r: u32)
    ensures
        r == workgroups_spec(extent),
        r * WORKGROUP_SIZE >= extent,
{
    ((extent as u64 + WORKGROUP_SIZE as u64 - 1) / WORKGROUP_SIZE as u64) as u32
}

} // verus!
