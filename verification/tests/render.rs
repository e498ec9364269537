use raytracer::bvh::BvhNode;
use raytracer::camera::{mean_of, sky, specular, weigh, Background, Bounce, Camera};
use raytracer::color::{
    linear_to_gamma, pixel_bytes, push_decimal, push_integer, push_pixel, push_ppm_header,
    quantize, write_color,
};
use raytracer::config::{apply_overrides, RenderOverrides};
use raytracer::hittable::{make_ref, HittableObject, HittableRef};
use raytracer::hittable_list::HittableList;
use raytracer::material::{
    make_mat, Dielectric, DiffuseLight, EmptyMaterial, Lambertian, MaterialObject, MaterialRef,
};
use raytracer::quad::Quad;
use raytracer::ray::Ray;
use raytracer::render_io::{accum_byte, write_ppm_from_accum};
use raytracer::scalar::Scalar;
use raytracer::sphere::Sphere;
use raytracer::vec3::Vec3;
use rand::rngs::SmallRng;
use rand::SeedableRng;

#[derive(Clone, Copy, Debug, PartialEq)]
struct Real(f64);

fn key_of(x: f64) -> i64 {
    if x.is_nan() {
        return i64::MIN;
    }
    let bits = (x + 0.0).to_bits() as i64;
    if bits < 0 {
        i64::MIN - bits
    } else {
        bits
    }
}

impl Scalar for Real {
    fn key(self) -> i64 {
        key_of(self.0)
    }
    fn from_ratio_spec(num: i64, den: i64) -> Self {
        Self::from_ratio(num, den)
    }
    fn from_ratio(num: i64, den: i64) -> Self {
        Real(num as f64 / den as f64)
    }
    fn infinity_spec() -> Self {
        Self::infinity()
    }
    fn infinity() -> Self {
        Real(f64::INFINITY)
    }
    fn pi_spec() -> Self {
        Self::pi()
    }
    fn pi() -> Self {
        Real(std::f64::consts::PI)
    }
    fn plus_spec(self, rhs: Self) -> Self {
        self.plus(rhs)
    }
    fn plus(self, rhs: Self) -> Self {
        Real(self.0 + rhs.0)
    }
    fn minus_spec(self, rhs: Self) -> Self {
        self.minus(rhs)
    }
    fn minus(self, rhs: Self) -> Self {
        Real(self.0 - rhs.0)
    }
    fn times_spec(self, rhs: Self) -> Self {
        self.times(rhs)
    }
    fn times(self, rhs: Self) -> Self {
        Real(self.0 * rhs.0)
    }
    fn over_spec(self, rhs: Self) -> Self {
        self.over(rhs)
    }
    fn over(self, rhs: Self) -> Self {
        Real(self.0 / rhs.0)
    }
    fn negate_spec(self) -> Self {
        self.negate()
    }
    fn negate(self) -> Self {
        Real(-self.0)
    }
    fn abs_spec(self) -> Self {
        self.abs()
    }
    fn abs(self) -> Self {
        Real(self.0.abs())
    }
    fn sqrt_spec(self) -> Self {
        self.sqrt()
    }
    fn sqrt(self) -> Self {
        Real(self.0.sqrt())
    }
    fn sin_spec(self) -> Self {
        self.sin()
    }
    fn sin(self) -> Self {
        Real(self.0.sin())
    }
    fn cos_spec(self) -> Self {
        self.cos()
    }
    fn cos(self) -> Self {
        Real(self.0.cos())
    }
    fn tan_spec(self) -> Self {
        self.tan()
    }
    fn tan(self) -> Self {
        Real(self.0.tan())
    }
    fn acos_spec(self) -> Self {
        self.acos()
    }
    fn acos(self) -> Self {
        Real(self.0.acos())
    }
    fn atan2_spec(self, x: Self) -> Self {
        self.atan2(x)
    }
    fn atan2(self, x: Self) -> Self {
        Real(self.0.atan2(x.0))
    }
    fn ln_spec(self) -> Self {
        self.ln()
    }
    fn ln(self) -> Self {
        Real(self.0.ln())
    }
    fn truncate_spec(self) -> i64 {
        self.truncate()
    }
    fn truncate(self) -> i64 {
        self.0 as i64
    }
    fn is_finite_spec(self) -> bool {
        self.is_finite()
    }
    fn is_finite(self) -> bool {
        self.0.is_finite()
    }
    fn lt(self, rhs: Self) -> bool {
        key_of(self.0) < key_of(rhs.0)
    }
    fn le(self, rhs: Self) -> bool {
        key_of(self.0) <= key_of(rhs.0)
    }
}

fn v(x: f64, y: f64, z: f64) -> Vec3<Real> {
    Vec3::new(Real(x), Real(y), Real(z))
}

fn close(a: Real, b: f64) -> bool {
    (a.0 - b).abs() <= 1e-12 * (1.0 + b.abs())
}

fn xyz(p: Vec3<Real>) -> (f64, f64, f64) {
    (p.x().0, p.y().0, p.z().0)
}

fn text(bytes: &[u8]) -> String {
    String::from_utf8(bytes.to_vec()).unwrap()
}

fn no_lights() -> HittableRef<Real> {
    make_ref(HittableObject::List(HittableList::new()))
}

fn diffuse(r: f64, g: f64, b: f64) -> MaterialRef<Real> {
    make_mat(MaterialObject::Lambertian(Lambertian::new(v(r, g, b))))
}

fn one_sphere() -> HittableObject<Real> {
    let mut world = HittableList::new();
    world.add(make_ref(HittableObject::Sphere(Sphere::new(
        v(0.0, 0.0, -1.0),
        Real(0.5),
        diffuse(0.5, 0.5, 0.5),
    ))));
    HittableObject::Bvh(BvhNode::new(world))
}

fn small_camera(width: i32, samples: i32, depth: i32) -> Camera<Real> {
    let mut cam = Camera::<Real>::default();
    cam.image_width = width;
    cam.samples_per_pixel = samples;
    cam.max_depth = depth;
    cam
}

struct Image {
    width: usize,
    height: usize,
    pixels: Vec<[u32; 3]>,
}

fn parse(bytes: &[u8]) -> Image {
    let whole = text(bytes);
    let mut lines = whole.lines();
    assert_eq!(lines.next(), Some("P3"));
    let extent: Vec<usize> =
        lines.next().unwrap().split(' ').map(|n| n.parse().unwrap()).collect();
    assert_eq!(extent.len(), 2);
    assert_eq!(lines.next(), Some("255"));
    let pixels: Vec<[u32; 3]> = lines
        .map(|line| {
            let channels: Vec<u32> = line.split(' ').map(|n| n.parse().unwrap()).collect();
            assert_eq!(channels.len(), 3);
            [channels[0], channels[1], channels[2]]
        })
        .collect();
    assert!(whole.ends_with('\n'));
    Image { width: extent[0], height: extent[1], pixels }
}

#[test]
fn gamma_is_the_square_root_above_zero() {
    assert_eq!(linear_to_gamma(Real(0.25)), Real(0.5));
    assert_eq!(linear_to_gamma(Real(0.0)), Real(0.0));
    assert_eq!(linear_to_gamma(Real(-4.0)), Real(0.0));
    assert_eq!(linear_to_gamma(Real(f64::NAN)), Real(0.0));
}

#[test]
fn quantize_holds_the_byte_below_256() {
    assert_eq!(quantize(Real(0.5)), 128);
    assert_eq!(quantize(Real(0.0)), 0);
    assert_eq!(quantize(Real(-1.0)), 0);
    assert_eq!(quantize(Real(0.999)), 255);
    assert_eq!(quantize(Real(1.0)), 255);
    assert_eq!(quantize(Real(1e30)), 255);
    assert_eq!(pixel_bytes(v(0.25, 1.0, 0.0)), (128, 255, 0));
    assert_eq!(pixel_bytes(v(0.5, 0.7, 1.0)), (181, 214, 255));
}

#[test]
fn numbers_are_written_in_decimal() {
    let mut out = b"x".to_vec();
    push_decimal(&mut out, 0);
    out.push(b',');
    push_decimal(&mut out, 7);
    out.push(b',');
    push_decimal(&mut out, 1234567890);
    out.push(b',');
    push_decimal(&mut out, u64::MAX);
    out.push(b',');
    push_integer(&mut out, -12);
    out.push(b',');
    push_integer(&mut out, i32::MIN);
    out.push(b',');
    push_integer(&mut out, 2160);
    assert_eq!(text(&out), "x0,7,1234567890,18446744073709551615,-12,-2147483648,2160");
}

#[test]
fn pixel_lines_and_header() {
    let mut out = Vec::new();
    push_ppm_header(&mut out, 3, 2);
    push_pixel(&mut out, (0, 17, 255));
    write_color(&mut out, v(0.25, 1.0, 0.0));
    write_color(&mut out, v(0.5, 0.7, 1.0));
    assert_eq!(text(&out), "P3\n3 2\n255\n0 17 255\n128 255 0\n181 214 255\n");
}

#[test]
fn accumulation_buffer_is_brought_to_an_image() {
    let accum = vec![
        Real(1.0), Real(4.0), Real(0.0), Real(4.0),
        Real(f64::NAN), Real(f64::INFINITY), Real(-8.0), Real(4.0),
    ];
    let mut out = Vec::new();
    write_ppm_from_accum(&mut out, 2, 1, &accum, 4);
    assert_eq!(text(&out), "P3\n2 1\n255\n128 255 0\n0 0 0\n");
    let mut none = Vec::new();
    write_ppm_from_accum(&mut none, 1, 2, &accum, 0);
    assert_eq!(text(&none), "P3\n1 2\n255\n0 0 0\n0 0 0\n");
    let mut empty = b"#".to_vec();
    write_ppm_from_accum(&mut empty, 0, 5, &accum, 1);
    assert_eq!(text(&empty), "#P3\n0 5\n255\n");
    assert_eq!(accum_byte(Real(2.0), Real(0.125)), 128);
}

#[test]
fn accumulation_output_agrees_with_the_colour_output() {
    for sum in [0.0, 0.3, 1.7, 2.9, 4.0, 100.0] {
        let mut a = Vec::new();
        write_color(&mut a, v(sum / 4.0, sum / 4.0, sum / 4.0));
        let mut b = Vec::new();
        write_ppm_from_accum(&mut b, 1, 1, &vec![Real(sum), Real(sum), Real(sum), Real(4.0)], 4);
        assert_eq!(text(&b), format!("P3\n1 1\n255\n{}", text(&a)));
    }
}

#[test]
fn default_camera() {
    let cam = Camera::<Real>::default();
    assert_eq!(cam.aspect_ratio, Real(1.0));
    assert_eq!((cam.image_width, cam.samples_per_pixel, cam.max_depth), (100, 10, 10));
    assert_eq!(cam.vfov, Real(90.0));
    assert_eq!(xyz(cam.lookfrom), (0.0, 0.0, 0.0));
    assert_eq!(xyz(cam.lookat), (0.0, 0.0, -1.0));
    assert_eq!(xyz(cam.vup), (0.0, 1.0, 0.0));
    assert_eq!((cam.defocus_angle, cam.focus_dist), (Real(0.0), Real(10.0)));
    assert!(matches!(cam.background, Background::Color(c) if xyz(c) == (0.0, 0.0, 0.0)));
}

#[test]
fn camera_derives_its_internals() {
    let cam = Camera::<Real>::default();
    let data = cam.initialize();
    assert_eq!(data.image_height, 100);
    assert_eq!(data.sqrt_spp, 3);
    assert_eq!(data.pixel_samples_scale, Real(1.0 / 9.0));
    assert_eq!(data.recip_sqrt_spp, Real(1.0 / 3.0));
    assert_eq!(xyz(data.center), (0.0, 0.0, 0.0));
    assert!(close(data.pixel_delta_u.x(), 0.2) && data.pixel_delta_u.y().0.abs() < 1e-12);
    assert!(close(data.pixel_delta_v.y(), -0.2));
    assert!(close(data.pixel00_loc.x(), -9.9) && close(data.pixel00_loc.y(), 9.9));
    assert!(close(data.pixel00_loc.z(), -10.0));
    assert_eq!(xyz(data.defocus_disk_u), (0.0, 0.0, 0.0));
    let mut wide = Camera::<Real>::default();
    wide.aspect_ratio = Real(16.0 / 9.0);
    wide.image_width = 400;
    wide.samples_per_pixel = 1;
    let data = wide.initialize();
    assert_eq!((data.image_height, data.sqrt_spp), (225, 1));
    assert_eq!(data.pixel_samples_scale, Real(1.0));
    let mut thin = Camera::<Real>::default();
    thin.aspect_ratio = Real(1000.0);
    assert_eq!(thin.initialize().image_height, 1);
}

#[test]
fn strata_cut_the_pixel_into_a_grid() {
    let p = Camera::<Real>::stratified(1, 0, Real(0.5), Real(0.5), Real(0.5));
    assert_eq!(xyz(p), (0.25, -0.25, 0.0));
    let p = Camera::<Real>::stratified(0, 0, Real(1.0), Real(0.0), Real(0.75));
    assert_eq!(xyz(p), (-0.5, 0.25, 0.0));
    let cam = Camera::<Real>::default();
    let mut rng = SmallRng::seed_from_u64(3);
    for _ in 0..200 {
        let q = cam.sample_square_stratified(2, 1, Real(1.0 / 3.0), &mut rng);
        assert!(1.0 / 6.0 - 1e-12 <= q.x().0 && q.x().0 < 0.5);
        assert!(-1.0 / 6.0 - 1e-12 <= q.y().0 && q.y().0 < 1.0 / 6.0);
    }
}

#[test]
fn rays_leave_the_centre_of_a_pinhole_camera() {
    let cam = small_camera(10, 4, 5);
    let data = cam.initialize();
    let mut rng = SmallRng::seed_from_u64(3);
    for _ in 0..100 {
        let r = cam.get_ray(9, 0, 1, 1, &data, &mut rng);
        assert_eq!(xyz(r.origin()), (0.0, 0.0, 0.0));
        assert!(r.direction().x().0 > 0.0 && r.direction().y().0 > 0.0);
        assert!(0.0 <= r.time().0 && r.time().0 < 1.0);
    }
    let exact = Camera::ray_through(&data, 0, 0, v(0.0, 0.0, 0.0), v(0.0, 0.0, 0.0), Real(0.5));
    assert!(close(exact.direction().x(), -9.0) && close(exact.direction().y(), 9.0));
    assert_eq!(exact.time(), Real(0.5));
}

#[test]
fn rays_leave_the_lens_of_an_open_camera() {
    let mut cam = small_camera(10, 1, 5);
    cam.defocus_angle = Real(10.0);
    let data = cam.initialize();
    let radius = 10.0 * (5.0f64.to_radians()).tan();
    let mut rng = SmallRng::seed_from_u64(3);
    let mut off_centre = false;
    for _ in 0..100 {
        let r = cam.get_ray(5, 5, 0, 0, &data, &mut rng);
        assert!(r.origin().length().0 <= radius + 1e-12);
        assert_eq!(r.origin().z(), Real(0.0));
        off_centre = off_centre || r.origin().length().0 > 0.0;
        let p = cam.defocus_disk_sample(&data, &mut rng);
        assert!(p.length().0 <= radius + 1e-12);
    }
    assert!(off_centre);
    let p = Camera::lens_point(&data, v(1.0, 0.0, 0.0));
    assert!(close(p.x(), radius));
}

#[test]
fn sky_runs_from_white_to_blue() {
    assert_eq!(xyz(sky(v(0.0, 2.0, 0.0))), (0.5, 0.7, 1.0));
    assert_eq!(xyz(sky(v(0.0, -2.0, 0.0))), (1.0, 1.0, 1.0));
    assert_eq!(xyz(sky(v(3.0, 0.0, 0.0))), (0.75, 0.85, 1.0));
    let mut cam = Camera::<Real>::default();
    let up = Ray::new(v(0.0, 0.0, 0.0), v(0.0, 1.0, 0.0));
    assert_eq!(xyz(cam.background_color(&up)), (0.0, 0.0, 0.0));
    cam.background = Background::Sky;
    assert_eq!(xyz(cam.background_color(&up)), (0.5, 0.7, 1.0));
    cam.background = Background::Color(v(0.1, 0.2, 0.3));
    assert_eq!(xyz(cam.background_color(&up)), (0.1, 0.2, 0.3));
}

#[test]
fn roulette_begins_at_the_fifth_bounce() {
    let cam = small_camera(10, 1, 10);
    assert_eq!(cam.roulette(10, v(0.3, 0.7, 0.5)), None);
    assert_eq!(cam.roulette(6, v(0.3, 0.7, 0.5)), None);
    assert_eq!(cam.roulette(5, v(0.3, 0.7, 0.5)), Some(Real(0.7)));
    assert_eq!(cam.roulette(1, v(0.01, 0.02, 0.03)), Some(Real(0.05)));
    assert_eq!(cam.roulette(1, v(0.0, 0.0, 2.0)), Some(Real(0.95)));
    assert_eq!(cam.roulette(i32::MIN, v(0.5, 0.0, 0.0)), Some(Real(0.5)));
}

#[test]
fn bounce_decides_what_becomes_of_a_path() {
    let cam = small_camera(10, 1, 10);
    let e = v(1.0, 2.0, 3.0);
    let rec = raytracer::hittable::HitRecord {
        p: v(0.0, 0.0, 0.0),
        normal: v(0.0, 0.0, 1.0),
        mat: diffuse(0.5, 0.5, 0.5),
        t: Real(1.0),
        u: Real(0.0),
        v: Real(0.0),
        front_face: true,
    };
    let r_in = Ray::new(v(0.0, 0.0, 5.0), v(0.0, 0.0, -1.0));
    let mirror = raytracer::material::Metal::new(v(0.25, 0.75, 0.5), Real(0.0));
    let shiny = || Some(mirror.scatter_with(&r_in, &rec, v(0.0, 0.0, 0.0)));
    let matte = || Lambertian::new(v(0.5, 0.25, 0.125)).scatter(&r_in, &rec);

    assert!(!cam.plays_roulette(1, &None));
    assert!(matches!(cam.bounce(1, e, None, Real(0.99)), Bounce::Ends(c) if xyz(c) == (1.0, 2.0, 3.0)));

    assert!(!cam.plays_roulette(6, &shiny()));
    assert!(matches!(
        cam.bounce(6, e, shiny(), Real(0.99)),
        Bounce::Follows { emitted, attenuation, ray, survival: None }
            if xyz(emitted) == (1.0, 2.0, 3.0)
                && xyz(attenuation) == (0.25, 0.75, 0.5)
                && xyz(ray.direction()) == (0.0, 0.0, 1.0)
    ));
    assert!(cam.plays_roulette(5, &shiny()));
    assert!(matches!(cam.bounce(5, e, shiny(), Real(0.8)), Bounce::Ends(c) if xyz(c) == (1.0, 2.0, 3.0)));
    assert!(matches!(
        cam.bounce(5, e, shiny(), Real(0.7)),
        Bounce::Follows { survival: Some(p), .. } if p == Real(0.75)
    ));

    assert!(!cam.plays_roulette(6, &matte()));
    assert!(matches!(
        cam.bounce(6, e, matte(), Real(0.99)),
        Bounce::Samples { emitted, attenuation, rr_prob, .. }
            if xyz(emitted) == (1.0, 2.0, 3.0)
                && xyz(attenuation) == (0.5, 0.25, 0.125)
                && rr_prob == Real(1.0)
    ));
    assert!(cam.plays_roulette(2, &matte()));
    assert!(matches!(cam.bounce(2, e, matte(), Real(0.51)), Bounce::Ends(c) if xyz(c) == (1.0, 2.0, 3.0)));
    assert!(matches!(
        cam.bounce(2, e, matte(), Real(0.5)),
        Bounce::Samples { rr_prob, .. } if rr_prob == Real(0.5)
    ));
}

#[test]
fn mean_of_the_samples_of_a_pixel() {
    let samples = vec![v(1.0, 2.0, 3.0), v(3.0, 2.0, 1.0), v(2.0, 5.0, -4.0)];
    assert_eq!(xyz(mean_of(&samples, Real(0.5))), (3.0, 4.5, 0.0));
    assert_eq!(xyz(mean_of(&Vec::<Vec3<Real>>::new(), Real(7.0))), (0.0, 0.0, 0.0));
    assert_eq!(xyz(mean_of(&vec![v(0.25, 0.5, 1.0)], Real(1.0))), (0.25, 0.5, 1.0));
}

#[test]
fn scene_without_lights_samples_the_material_alone() {
    assert!(Camera::<Real>::no_lights(&no_lights()));
    let lamp = make_ref(HittableObject::List(HittableList::from(make_ref(HittableObject::Sphere(
        Sphere::new(v(0.0, 5.0, 0.0), Real(1.0), diffuse(1.0, 1.0, 1.0)),
    )))));
    assert!(!Camera::<Real>::no_lights(&lamp));
    assert!(!Camera::<Real>::no_lights(&make_ref(one_sphere())));
    assert!(Camera::<Real>::vanishes(Real(0.0)));
    assert!(Camera::<Real>::vanishes(Real(-1.0)));
    assert!(!Camera::<Real>::vanishes(Real(1e-300)));
    let mut cam = small_camera(4, 1, 2);
    cam.background = Background::Color(v(1.0, 1.0, 1.0));
    let world = one_sphere();
    let mut rng = SmallRng::seed_from_u64(9);
    let r = Ray::new(v(0.0, 0.0, 0.0), v(0.0, 0.0, -1.0));
    for _ in 0..500 {
        let c = cam.ray_color(r, 2, &world, &no_lights(), &mut rng);
        assert!((c.x().0 - 0.5).abs() < 1e-9 && (c.y().0 - 0.5).abs() < 1e-9);
    }
}

#[test]
fn contributions_are_weighted_as_stated() {
    let e = v(1.0, 2.0, 3.0);
    let a = v(0.5, 0.25, 1.0);
    let s = v(4.0, 8.0, 2.0);
    assert_eq!(xyz(specular(e, a, s, None)), (3.0, 4.0, 5.0));
    assert_eq!(xyz(specular(e, a, s, Some(Real(0.5)))), (5.0, 6.0, 7.0));
    assert_eq!(xyz(weigh(e, a, Real(0.5), s, Real(0.25), Real(1.0))), (5.0, 6.0, 7.0));
    assert_eq!(xyz(weigh(e, a, Real(0.5), s, Real(0.25), Real(0.5))), (9.0, 10.0, 11.0));
}

#[test]
fn path_without_bounces_left_brings_nothing() {
    let mut cam = small_camera(4, 1, 5);
    cam.background = Background::Sky;
    let world = one_sphere();
    let mut rng = SmallRng::seed_from_u64(1);
    let r = Ray::new(v(0.0, 0.0, 0.0), v(0.0, 1.0, 0.0));
    assert_eq!(xyz(cam.ray_color(r, 0, &world, &no_lights(), &mut rng)), (0.0, 0.0, 0.0));
    assert_eq!(xyz(cam.ray_color(r, -3, &world, &no_lights(), &mut rng)), (0.0, 0.0, 0.0));
}

#[test]
fn ray_that_strikes_nothing_brings_the_background() {
    let mut cam = small_camera(4, 1, 5);
    cam.background = Background::Sky;
    let world = one_sphere();
    let mut rng = SmallRng::seed_from_u64(1);
    let up = Ray::new(v(0.0, 0.0, 0.0), v(0.0, 1.0, 0.0));
    assert_eq!(xyz(cam.ray_color(up, 5, &world, &no_lights(), &mut rng)), (0.5, 0.7, 1.0));
    cam.background = Background::Color(v(0.2, 0.3, 0.4));
    assert_eq!(xyz(cam.ray_color(up, 1, &world, &no_lights(), &mut rng)), (0.2, 0.3, 0.4));
}

#[test]
fn light_brings_its_own_radiance_and_no_more() {
    let cam = small_camera(4, 1, 5);
    let light = make_mat(MaterialObject::DiffuseLight(DiffuseLight::new(v(4.0, 3.0, 2.0))));
    let panel = make_ref(HittableObject::Quad(Quad::new(
        v(-1.0, -1.0, -2.0),
        v(2.0, 0.0, 0.0),
        v(0.0, 2.0, 0.0),
        light,
    )));
    let world = HittableObject::List(HittableList::from(panel));
    let mut rng = SmallRng::seed_from_u64(1);
    let front = Ray::new(v(0.0, 0.0, 0.0), v(0.0, 0.0, -1.0));
    assert_eq!(xyz(cam.ray_color(front, 5, &world, &no_lights(), &mut rng)), (4.0, 3.0, 2.0));
    let back = Ray::new(v(0.0, 0.0, -4.0), v(0.0, 0.0, 1.0));
    assert_eq!(xyz(cam.ray_color(back, 5, &world, &no_lights(), &mut rng)), (0.0, 0.0, 0.0));
}

#[test]
fn last_bounce_off_a_diffuse_surface_is_dark() {
    let mut cam = small_camera(4, 1, 1);
    cam.background = Background::Sky;
    let world = one_sphere();
    let mut rng = SmallRng::seed_from_u64(1);
    let r = Ray::new(v(0.0, 0.0, 0.0), v(0.0, 0.0, -1.0));
    for _ in 0..50 {
        let c = cam.ray_color(r, 1, &world, &no_lights(), &mut rng);
        assert_eq!(xyz(c), (0.0, 0.0, 0.0));
    }
}

#[test]
fn diffuse_sphere_under_the_sky_is_lit() {
    let mut cam = small_camera(4, 1, 10);
    cam.background = Background::Sky;
    let world = one_sphere();
    let mut rng = SmallRng::seed_from_u64(1);
    let r = Ray::new(v(0.0, 0.0, 0.0), v(0.0, 0.0, -1.0));
    let mut sum = 0.0;
    for _ in 0..2000 {
        let c = cam.ray_color(r, 10, &world, &no_lights(), &mut rng);
        assert!(c.x().0 >= 0.0 && c.x().0.is_finite());
        sum += c.x().0;
    }
    let mean = sum / 2000.0;
    assert!(0.25 < mean && mean < 0.55);
}

#[test]
fn one_sample_for_a_pixel_renders() {
    let mut cam = small_camera(6, 1, 4);
    cam.background = Background::Sky;
    let mut rng = SmallRng::seed_from_u64(1);
    let image = parse(&cam.render(&one_sphere(), &no_lights(), &mut rng));
    assert_eq!((image.width, image.height), (6, 6));
    assert_eq!(image.pixels.len(), 36);
    assert!(image.pixels.iter().all(|p| p.iter().all(|&c| c <= 255)));
}

#[test]
fn render_without_bounces_is_the_black_background_everywhere() {
    let cam = small_camera(5, 4, 0);
    let mut rng = SmallRng::seed_from_u64(1);
    let out = cam.render(&one_sphere(), &no_lights(), &mut rng);
    let image = parse(&out);
    assert_eq!(image.pixels.len(), 25);
    assert!(image.pixels.iter().all(|p| *p == [0, 0, 0]));
    assert_eq!(text(&out), format!("P3\n5 5\n255\n{}", "0 0 0\n".repeat(25)));
}

#[test]
fn render_of_no_samples_or_no_width_is_well_formed() {
    let mut rng = SmallRng::seed_from_u64(1);
    let none = small_camera(3, 0, 5);
    let image = parse(&none.render(&one_sphere(), &no_lights(), &mut rng));
    assert_eq!(image.pixels.len(), 9);
    assert!(image.pixels.iter().all(|p| *p == [0, 0, 0]));
    let flat = small_camera(0, 1, 5);
    assert_eq!(text(&flat.render(&one_sphere(), &no_lights(), &mut rng)), "P3\n0 1\n255\n");
}

#[test]
fn same_seed_gives_the_same_image() {
    let mut cam = small_camera(8, 4, 6);
    cam.background = Background::Sky;
    cam.defocus_angle = Real(2.0);
    let world = one_sphere();
    let first = cam.render(&world, &no_lights(), &mut SmallRng::seed_from_u64(42));
    let second = cam.render(&world, &no_lights(), &mut SmallRng::seed_from_u64(42));
    let other = cam.render(&world, &no_lights(), &mut SmallRng::seed_from_u64(43));
    assert_eq!(first, second);
    assert_ne!(first, other);
}

#[test]
fn rows_are_rendered_from_left_to_right() {
    let mut cam = small_camera(7, 1, 3);
    cam.background = Background::Sky;
    let data = cam.initialize();
    let mut rng = SmallRng::seed_from_u64(5);
    let row = cam.render_row(&data, 0, &one_sphere(), &no_lights(), &mut rng);
    assert_eq!(text(&row).lines().count(), 7);
    let c = cam.pixel_color(&data, 0, 0, &one_sphere(), &no_lights(), &mut rng);
    assert!(c.z().0 > c.x().0);
}

#[test]
fn sphere_before_the_sky() {
    let mut cam = small_camera(40, 1, 1);
    cam.aspect_ratio = Real(16.0 / 9.0);
    cam.background = Background::Sky;
    let mut rng = SmallRng::seed_from_u64(7);
    let image = parse(&cam.render(&one_sphere(), &no_lights(), &mut rng));
    assert_eq!((image.width, image.height), (40, 22));
    let at = |x: usize, y: usize| image.pixels[y * image.width + x];
    assert_eq!(at(20, 11), [0, 0, 0]);
    assert_eq!(at(19, 10), [0, 0, 0]);
    let top_left = at(0, 0);
    assert_eq!(top_left[2], 255);
    assert!((198..=210).contains(&top_left[0]) && (222..=232).contains(&top_left[1]));
    let top = at(20, 0);
    let bottom = at(20, 21);
    assert!(top[0] < bottom[0] && top[1] < bottom[1] && bottom[0] > 230);
    for y in 0..image.height {
        for x in 0..image.width {
            let p = at(x, y);
            assert!(p == [0, 0, 0] || p[2] == 255);
        }
    }
    let dark = image.pixels.iter().filter(|p| **p == [0, 0, 0]).count();
    assert!(100 < dark && dark < 150);
}

#[test]
fn scattered_ray_does_not_strike_its_own_origin() {
    let mut world = HittableList::new();
    let glass = make_mat(MaterialObject::Dielectric(Dielectric::new(Real(1.5))));
    let metal = make_mat(MaterialObject::Metal(raytracer::material::Metal::new(v(0.9, 0.9, 0.9), Real(0.1))));
    world.add(make_ref(HittableObject::Sphere(Sphere::new(v(0.0, 0.0, -3.0), Real(1.0), glass))));
    world.add(make_ref(HittableObject::Sphere(Sphere::new(v(2.5, 0.0, -3.0), Real(1.0), metal))));
    let world = HittableObject::Bvh(BvhNode::new(world));
    let cam = small_camera(30, 1, 5);
    let data = cam.initialize();
    let mut rng = SmallRng::seed_from_u64(17);
    let window = raytracer::sphere::forward_window::<Real>();
    let mut bounces = 0;
    for j in 0..30 {
        for i in 0..30 {
            let mut r = cam.get_ray(i, j, 0, 0, &data, &mut rng);
            for _ in 0..6 {
                let Some(rec) = world.hit(&r, window, &mut rng) else { break };
                assert!(rec.t.0 > 0.001);
                let Some(srec) = rec.mat.scatter(&r, &rec, &mut rng) else { break };
                assert!(srec.skip_pdf);
                assert_eq!(xyz(srec.skip_pdf_ray.origin()), xyz(rec.p));
                r = srec.skip_pdf_ray;
                bounces += 1;
            }
        }
    }
    assert!(bounces > 50);
}

fn lit_box(albedo: f64, radiance: f64) -> (HittableObject<Real>, HittableRef<Real>) {
    let wall = || diffuse(albedo, albedo, albedo);
    let light = make_mat(MaterialObject::DiffuseLight(DiffuseLight::new(v(radiance, radiance, radiance))));
    let quad = |q: Vec3<Real>, a: Vec3<Real>, b: Vec3<Real>, m: MaterialRef<Real>| {
        make_ref(HittableObject::Quad(Quad::new(q, a, b, m)))
    };
    let mut world = HittableList::new();
    world.add(quad(v(10.0, 0.0, 0.0), v(0.0, 0.0, 10.0), v(0.0, 10.0, 0.0), wall()));
    world.add(quad(v(0.0, 0.0, 10.0), v(0.0, 0.0, -10.0), v(0.0, 10.0, 0.0), wall()));
    world.add(quad(v(0.0, 0.0, 10.0), v(10.0, 0.0, 0.0), v(0.0, 0.0, -10.0), wall()));
    world.add(quad(v(10.0, 0.0, 10.0), v(-10.0, 0.0, 0.0), v(0.0, 10.0, 0.0), wall()));
    world.add(quad(v(0.0, 0.0, 0.0), v(10.0, 0.0, 0.0), v(0.0, 10.0, 0.0), wall()));
    world.add(quad(v(0.0, 10.0, 0.0), v(10.0, 0.0, 0.0), v(0.0, 0.0, 10.0), light));
    world.add(make_ref(HittableObject::Sphere(Sphere::new(
        v(5.0, 2.0, 6.0),
        Real(2.0),
        make_mat(MaterialObject::Dielectric(Dielectric::new(Real(1.5)))),
    ))));
    let empty = make_mat(MaterialObject::EmptyMaterial(EmptyMaterial));
    let mut lights = HittableList::new();
    lights.add(quad(v(0.0, 10.0, 0.0), v(10.0, 0.0, 0.0), v(0.0, 0.0, 10.0), empty));
    (HittableObject::Bvh(BvhNode::new(world)), make_ref(HittableObject::List(lights)))
}

#[test]
fn closed_box_is_no_brighter_than_its_light() {
    let (world, lights) = lit_box(0.5, 0.25);
    let mut cam = small_camera(12, 9, 5);
    cam.vfov = Real(80.0);
    cam.lookfrom = v(5.0, 5.0, 1.0);
    cam.lookat = v(5.0, 4.0, 9.0);
    let mut rng = SmallRng::seed_from_u64(11);
    let image = parse(&cam.render(&world, &lights, &mut rng));
    assert_eq!(image.pixels.len(), 144);
    assert!(image.pixels.iter().all(|p| p.iter().all(|&c| c <= 128)));
    assert!(image.pixels.iter().any(|p| p.iter().any(|&c| c > 0)));
    let data = cam.initialize();
    let up = Ray::new(v(5.0, 5.0, 5.0), v(0.0, 1.0, 0.0));
    for _ in 0..500 {
        let c = cam.ray_color(up, 5, &world, &lights, &mut rng);
        assert_eq!(xyz(c), (0.25, 0.25, 0.25));
        let r = cam.get_ray(3, 4, 0, 0, &data, &mut rng);
        let c = cam.ray_color(r, 5, &world, &lights, &mut rng);
        assert!(0.0 <= c.x().0 && c.x().0 <= 0.25 + 1e-12);
    }
}

#[test]
fn overrides_replace_what_they_hold() {
    let mut cam = Camera::<Real>::default();
    apply_overrides(&mut cam, &RenderOverrides::none());
    assert_eq!((cam.image_width, cam.samples_per_pixel, cam.max_depth), (100, 10, 10));
    assert_eq!(cam.aspect_ratio, Real(1.0));
    let mut o = RenderOverrides::<Real>::none();
    o.aspect_ratio = Some(Real(2.0));
    o.image_width = Some(2160);
    o.samples_per_pixel = Some(5000);
    o.max_depth = Some(100);
    o.vfov = Some(Real(20.0));
    o.lookfrom = Some([Real(13.0), Real(2.0), Real(3.0)]);
    o.lookat = Some([Real(1.0), Real(1.0), Real(1.0)]);
    o.vup = Some([Real(0.0), Real(0.0), Real(1.0)]);
    o.defocus_angle = Some(Real(0.6));
    o.focus_dist = Some(Real(7.0));
    o.background = Some([Real(0.1), Real(0.2), Real(0.3)]);
    apply_overrides(&mut cam, &o);
    assert_eq!((cam.image_width, cam.samples_per_pixel, cam.max_depth), (2160, 5000, 100));
    assert_eq!((cam.aspect_ratio, cam.vfov), (Real(2.0), Real(20.0)));
    assert_eq!(xyz(cam.lookfrom), (13.0, 2.0, 3.0));
    assert_eq!(xyz(cam.lookat), (1.0, 1.0, 1.0));
    assert_eq!(xyz(cam.vup), (0.0, 0.0, 1.0));
    assert_eq!((cam.defocus_angle, cam.focus_dist), (Real(0.6), Real(7.0)));
    assert!(matches!(cam.background, Background::Color(c) if xyz(c) == (0.1, 0.2, 0.3)));
    let mut only_width = RenderOverrides::<Real>::none();
    only_width.image_width = Some(5);
    apply_overrides(&mut cam, &only_width);
    assert_eq!((cam.image_width, cam.samples_per_pixel), (5, 5000));
}

#[test]
fn scene_of_random_spheres() {
    let mut rng = SmallRng::seed_from_u64(1);
    let world = raytracer::in_one_weekend::scene::<Real>(&mut rng);
    assert!(400 < world.objects.len() && world.objects.len() <= 488);
    assert!(world.objects.iter().all(|o| matches!(&**o, HittableObject::Sphere(_))));
    let ground = match &*world.objects[0] {
        HittableObject::Sphere(s) => (xyz(s.center.origin()), s.radius),
        _ => ((0.0, 0.0, 0.0), Real(0.0)),
    };
    assert_eq!(ground, ((0.0, -1000.0, 0.0), Real(1000.0)));
    let cam = raytracer::in_one_weekend::camera::<Real>();
    assert_eq!((cam.image_width, cam.samples_per_pixel, cam.max_depth), (1200, 10, 20));
    assert_eq!((cam.vfov, cam.defocus_angle, cam.focus_dist), (Real(20.0), Real(0.6), Real(10.0)));
    assert_eq!(xyz(cam.lookfrom), (13.0, 2.0, 3.0));
    assert!(matches!(cam.background, Background::Sky));
    let glass = raytracer::in_one_weekend::small_material(Real(0.99), &mut rng);
    assert!(matches!(&*glass, MaterialObject::Dielectric(d) if d.refraction_index == Real(1.5)));
    let metal = raytracer::in_one_weekend::small_material(Real(0.9), &mut rng);
    assert!(matches!(&*metal, MaterialObject::Metal(m) if m.fuzz.0 < 0.5));
    let diffuse = raytracer::in_one_weekend::small_material(Real(0.1), &mut rng);
    assert!(matches!(&*diffuse, MaterialObject::Lambertian(_)));
}

#[test]
fn random_spheres_are_rendered_under_the_sky() {
    let mut o = RenderOverrides::<Real>::none();
    o.image_width = Some(16);
    o.samples_per_pixel = Some(1);
    o.max_depth = Some(4);
    let mut rng = SmallRng::seed_from_u64(2);
    let image = parse(&raytracer::in_one_weekend::run(None, &o, &mut rng));
    assert_eq!((image.width, image.height), (16, 9));
    assert_eq!(image.pixels.len(), 144);
    assert!(image.pixels[..16].iter().any(|p| p[2] == 255));
    assert!(image.pixels.iter().any(|p| p[2] < 255));
}

#[test]
fn scene_of_the_box() {
    let world = raytracer::the_rest_of_your_life::scene::<Real>();
    assert_eq!(world.objects.len(), 8);
    assert!(world.objects[..6].iter().all(|o| matches!(&**o, HittableObject::Quad(_))));
    assert!(matches!(&*world.objects[6], HittableObject::Translate(_)));
    assert!(matches!(&*world.objects[7], HittableObject::Sphere(_)));
    assert_eq!((world.bounding_box().x.min.0.round(), world.bounding_box().x.max.0.round()), (0.0, 555.0));
    let lights = raytracer::the_rest_of_your_life::lights::<Real>();
    assert_eq!(lights.objects.len(), 2);
    let cam = raytracer::the_rest_of_your_life::camera::<Real>();
    assert_eq!((cam.image_width, cam.samples_per_pixel, cam.max_depth), (600, 100, 50));
    assert_eq!(xyz(cam.lookfrom), (278.0, 278.0, -800.0));
    assert_eq!(xyz(raytracer::the_rest_of_your_life::at::<Real>(1, -2, 3)), (1.0, -2.0, 3.0));
}

#[test]
fn box_is_rendered_with_its_light_in_the_ceiling() {
    let mut o = RenderOverrides::<Real>::none();
    o.image_width = Some(20);
    o.samples_per_pixel = Some(4);
    o.max_depth = Some(4);
    let mut rng = SmallRng::seed_from_u64(3);
    let image = parse(&raytracer::the_rest_of_your_life::run(None, &o, &mut rng));
    assert_eq!((image.width, image.height), (20, 20));
    assert!(image.pixels.iter().any(|p| *p == [255, 255, 255]));
    assert!(image.pixels.iter().any(|p| p[0] > p[1] + 20 && p[0] > p[2] + 20));
    assert!(image.pixels.iter().any(|p| p[1] > p[0] + 20 && p[1] > p[2] + 20));
}
