use raytracer::camera::{Background, Camera};
use raytracer::config::RenderOverrides;
use raytracer::gpu::{
    add_material, build_in_one_weekend_scene, camera_uniform, flat_material, flatten, pass_count,
    pass_samples, pass_seed, record, total_samples, workgroups, MaterialGpu, GPU_SPP_PER_PASS,
    KIND_DIFFUSE, KIND_GLASS, KIND_METAL, SEED_STRIDE, WORKGROUP_SIZE,
};
use raytracer::hittable::{make_ref, HittableObject};
use raytracer::hittable_list::HittableList;
use raytracer::material::{make_mat, Dielectric, Lambertian, MaterialObject, Metal};
use raytracer::scalar::Scalar;
use raytracer::sphere::Sphere;
use raytracer::vec3::Vec3;
use rand::rngs::SmallRng;
use rand::SeedableRng;

#[derive(Clone, Copy, Debug, PartialEq)]
struct Real(f64);

fn key_of(x: f64) -> i64 {
    if x.is_nan() {
        return i64::MIN;
    }
    let bits = (x + 0.0).to_bits() as i64;
    if bits < 0 {
        i64::MIN - bits
    } else {
        bits
    }
}

impl Scalar for Real {
    fn key(self) -> i64 {
        key_of(self.0)
    }
    fn from_ratio_spec(num: i64, den: i64) -> Self {
        Self::from_ratio(num, den)
    }
    fn from_ratio(num: i64, den: i64) -> Self {
        Real(num as f64 / den as f64)
    }
    fn infinity_spec() -> Self {
        Self::infinity()
    }
    fn infinity() -> Self {
        Real(f64::INFINITY)
    }
    fn pi_spec() -> Self {
        Self::pi()
    }
    fn pi() -> Self {
        Real(std::f64::consts::PI)
    }
    fn plus_spec(self, rhs: Self) -> Self {
        self.plus(rhs)
    }
    fn plus(self, rhs: Self) -> Self {
        Real(self.0 + rhs.0)
    }
    fn minus_spec(self, rhs: Self) -> Self {
        self.minus(rhs)
    }
    fn minus(self, rhs: Self) -> Self {
        Real(self.0 - rhs.0)
    }
    fn times_spec(self, rhs: Self) -> Self {
        self.times(rhs)
    }
    fn times(self, rhs: Self) -> Self {
        Real(self.0 * rhs.0)
    }
    fn over_spec(self, rhs: Self) -> Self {
        self.over(rhs)
    }
    fn over(self, rhs: Self) -> Self {
        Real(self.0 / rhs.0)
    }
    fn negate_spec(self) -> Self {
        self.negate()
    }
    fn negate(self) -> Self {
        Real(-self.0)
    }
    fn abs_spec(self) -> Self {
        self.abs()
    }
    fn abs(self) -> Self {
        Real(self.0.abs())
    }
    fn sqrt_spec(self) -> Self {
        self.sqrt()
    }
    fn sqrt(self) -> Self {
        Real(self.0.sqrt())
    }
    fn sin_spec(self) -> Self {
        self.sin()
    }
    fn sin(self) -> Self {
        Real(self.0.sin())
    }
    fn cos_spec(self) -> Self {
        self.cos()
    }
    fn cos(self) -> Self {
        Real(self.0.cos())
    }
    fn tan_spec(self) -> Self {
        self.tan()
    }
    fn tan(self) -> Self {
        Real(self.0.tan())
    }
    fn acos_spec(self) -> Self {
        self.acos()
    }
    fn acos(self) -> Self {
        Real(self.0.acos())
    }
    fn atan2_spec(self, x: Self) -> Self {
        self.atan2(x)
    }
    fn atan2(self, x: Self) -> Self {
        Real(self.0.atan2(x.0))
    }
    fn ln_spec(self) -> Self {
        self.ln()
    }
    fn ln(self) -> Self {
        Real(self.0.ln())
    }
    fn truncate_spec(self) -> i64 {
        self.truncate()
    }
    fn truncate(self) -> i64 {
        self.0 as i64
    }
    fn is_finite_spec(self) -> bool {
        self.is_finite()
    }
    fn is_finite(self) -> bool {
        self.0.is_finite()
    }
    fn lt(self, rhs: Self) -> bool {
        key_of(self.0) < key_of(rhs.0)
    }
    fn le(self, rhs: Self) -> bool {
        key_of(self.0) <= key_of(rhs.0)
    }
}

fn v(x: f64, y: f64, z: f64) -> Vec3<Real> {
    Vec3::new(Real(x), Real(y), Real(z))
}

fn close(a: Real, b: f64) -> bool {
    (a.0 - b).abs() <= 1e-12 * (1.0 + b.abs())
}

#[test]
fn passes_share_the_samples_between_them() {
    assert_eq!((GPU_SPP_PER_PASS, WORKGROUP_SIZE, SEED_STRIDE), (64, 8, 0x9E37_79B9));
    assert_eq!(pass_count(0), 0);
    assert_eq!(pass_count(1), 1);
    assert_eq!(pass_count(10), 1);
    assert_eq!(pass_count(64), 1);
    assert_eq!(pass_count(65), 2);
    assert_eq!(pass_count(128), 2);
    assert_eq!(pass_count(5000), 79);
    assert_eq!(pass_count(u32::MAX), 67_108_864);
    assert_eq!(pass_samples(10, 0), 10);
    assert_eq!(pass_samples(10, 1), 0);
    assert_eq!(pass_samples(5000, 0), 64);
    assert_eq!(pass_samples(5000, 77), 64);
    assert_eq!(pass_samples(5000, 78), 8);
    assert_eq!(pass_samples(5000, 79), 0);
    for total in [1u32, 63, 64, 65, 200, 5000] {
        let sum: u32 = (0..pass_count(total)).map(|i| pass_samples(total, i)).sum();
        assert_eq!(sum, total);
        assert!((0..pass_count(total)).all(|i| pass_samples(total, i) > 0));
    }
}

#[test]
fn samples_and_seeds_and_workgroups() {
    assert_eq!(total_samples(-5), 1);
    assert_eq!(total_samples(0), 1);
    assert_eq!(total_samples(10), 10);
    assert_eq!(pass_seed(0xABCD_1234, 0), 0xABCD_1234);
    assert_eq!(pass_seed(1, 1), 1 ^ 0x9E37_79B9);
    assert_eq!(pass_seed(0, 2), 0x9E37_79B9u32.wrapping_mul(2));
    assert_eq!(pass_seed(7, 3_000_000_000), 7 ^ 3_000_000_000u32.wrapping_mul(0x9E37_79B9));
    assert_eq!(workgroups(0), 0);
    assert_eq!(workgroups(1), 1);
    assert_eq!(workgroups(8), 1);
    assert_eq!(workgroups(9), 2);
    assert_eq!(workgroups(1200), 150);
    assert_eq!(workgroups(u32::MAX), 536_870_912);
}

fn fields(m: &MaterialGpu<Real>) -> ([f64; 4], u32, f64) {
    ([m.albedo_fuzz[0].0, m.albedo_fuzz[1].0, m.albedo_fuzz[2].0, m.albedo_fuzz[3].0], m.kind, m.ref_idx.0)
}

#[test]
fn materials_are_laid_out_by_kind() {
    let mut materials: Vec<MaterialGpu<Real>> = Vec::new();
    let first = add_material(&mut materials, KIND_DIFFUSE, [Real(0.5), Real(0.4), Real(0.3)], Real(0.0), Real(1.0));
    let second = add_material(&mut materials, KIND_GLASS, [Real(1.0), Real(1.0), Real(1.0)], Real(0.0), Real(1.5));
    assert_eq!((first, second, materials.len()), (0, 1, 2));
    assert_eq!(fields(&materials[0]), ([0.5, 0.4, 0.3, 0.0], 0, 1.0));
    assert_eq!(fields(&materials[1]), ([1.0, 1.0, 1.0, 0.0], 2, 1.5));
    let diffuse = MaterialObject::Lambertian(Lambertian::new(v(0.1, 0.2, 0.3)));
    assert_eq!(fields(&flat_material(&diffuse)), ([0.1, 0.2, 0.3, 0.0], KIND_DIFFUSE, 1.0));
    let metal = MaterialObject::Metal(Metal::new(v(0.7, 0.6, 0.5), Real(0.25)));
    assert_eq!(fields(&flat_material(&metal)), ([0.7, 0.6, 0.5, 0.25], KIND_METAL, 1.0));
    let glass = MaterialObject::Dielectric(Dielectric::new(Real(1.5)));
    assert_eq!(fields(&flat_material(&glass)), ([1.0, 1.0, 1.0, 0.0], KIND_GLASS, 1.5));
    let r = record(v(1.0, 2.0, 3.0), Real(4.0));
    assert_eq!([r[0].0, r[1].0, r[2].0, r[3].0], [1.0, 2.0, 3.0, 4.0]);
}

#[test]
fn spheres_are_laid_out_in_their_order() {
    let mut list = HittableList::new();
    let grey = make_mat(MaterialObject::Lambertian(Lambertian::new(v(0.5, 0.5, 0.5))));
    let glass = make_mat(MaterialObject::Dielectric(Dielectric::new(Real(1.5))));
    list.add(make_ref(HittableObject::Sphere(Sphere::new(v(0.0, -1000.0, 0.0), Real(1000.0), grey))));
    list.add(make_ref(HittableObject::Sphere(Sphere::new(v(4.0, 1.0, 0.0), Real(1.0), glass))));
    let (spheres, materials) = flatten(&list);
    assert_eq!((spheres.len(), materials.len()), (2, 2));
    let c = &spheres[1].center_radius;
    assert_eq!([c[0].0, c[1].0, c[2].0, c[3].0], [4.0, 1.0, 0.0, 1.0]);
    assert_eq!((spheres[0].material_index, spheres[1].material_index), (0, 1));
    assert_eq!(fields(&materials[1]), ([1.0, 1.0, 1.0, 0.0], KIND_GLASS, 1.5));
    let (none, nothing) = flatten(&HittableList::<Real>::new());
    assert!(none.is_empty() && nothing.is_empty());
}

#[test]
fn camera_is_laid_out_in_records() {
    let mut cam = Camera::<Real>::default();
    cam.defocus_angle = Real(10.0);
    cam.max_depth = -4;
    let block = camera_uniform(&cam, 99, 7);
    assert_eq!(block.params_u, [0, 99, 7, 1]);
    assert_eq!(block.params_f[1], Real(100.0));
    assert_eq!(block.params_f[2], Real(100.0));
    assert_eq!(block.params_f[3], Real(10.0));
    assert!(close(block.params_f[0], 10.0 * 5.0f64.to_radians().tan()));
    assert_eq!([block.origin[0].0, block.origin[1].0, block.origin[2].0, block.origin[3].0], [0.0; 4]);
    assert!(close(block.u[0], 1.0) && close(block.v[1], 1.0));
    assert!(close(block.pixel00[0], -9.9) && close(block.pixel00[1], 9.9) && close(block.pixel00[2], -10.0));
    assert!(close(block.pixel_delta_u[0], 0.2) && close(block.pixel_delta_v[1], -0.2));
    cam.background = Background::Sky;
    cam.max_depth = 20;
    assert_eq!(camera_uniform(&cam, 1, 2).params_u, [20, 1, 2, 0]);
    cam.background = Background::Color(v(0.1, 0.2, 0.3));
    let block = camera_uniform(&cam, 1, 2);
    assert_eq!([block.background[0].0, block.background[1].0, block.background[2].0], [0.1, 0.2, 0.3]);
}

#[test]
fn scene_for_a_backend() {
    let mut o = RenderOverrides::<Real>::none();
    o.image_width = Some(320);
    o.samples_per_pixel = Some(200);
    let mut rng = SmallRng::seed_from_u64(0x5EED_1234);
    let (camera, spheres, materials) = build_in_one_weekend_scene(&o, &mut rng);
    assert!(400 < spheres.len() && spheres.len() <= 488);
    assert_eq!(materials.len(), spheres.len());
    assert_eq!(camera.params_u[0], 20);
    assert_eq!(camera.params_u[2], spheres.len() as u32);
    assert_eq!(camera.params_u[3], 0);
    assert_eq!((camera.params_f[1], camera.params_f[2], camera.params_f[3]), (Real(320.0), Real(180.0), Real(200.0)));
    assert_eq!([camera.origin[0].0, camera.origin[1].0, camera.origin[2].0], [13.0, 2.0, 3.0]);
    let ground = &spheres[0].center_radius;
    assert_eq!([ground[0].0, ground[1].0, ground[2].0, ground[3].0], [0.0, -1000.0, 0.0, 1000.0]);
    assert_eq!(fields(&materials[0]), ([0.5, 0.5, 0.5, 0.0], KIND_DIFFUSE, 1.0));
    let last = spheres.len() - 1;
    assert_eq!(fields(&materials[last]), ([0.7, 0.6, 0.5, 0.0], KIND_METAL, 1.0));
    assert_eq!(fields(&materials[last - 2]), ([1.0, 1.0, 1.0, 0.0], KIND_GLASS, 1.5));
    assert!(spheres.iter().enumerate().all(|(i, s)| s.material_index == i as u32));
    assert!(materials.iter().all(|m| m.kind <= 2));
}
