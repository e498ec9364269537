use raytracer::bvh::BvhNode;
use raytracer::camera::{Background, Camera};
use raytracer::fixed::{
    magnitude, product_raw, ratio_raw, root_raw, saturate, signed, Fixed, LN2_RAW, ONE_RAW, PI_RAW,
};
use raytracer::hittable::{make_ref, HittableObject};
use raytracer::hittable_list::HittableList;
use raytracer::interval::Interval;
use raytracer::material::{make_mat, Lambertian, MaterialObject};
use raytracer::ray::Ray;
use raytracer::scalar::Scalar;
use raytracer::sphere::Sphere;
use raytracer::vec3::Vec3;
use rand::rngs::SmallRng;
use rand::SeedableRng;

fn fx(num: i64, den: i64) -> Fixed {
    Fixed::ratio(num, den)
}

fn value(x: Fixed) -> f64 {
    x.raw as f64 / ONE_RAW as f64
}

fn near(x: Fixed, want: f64, tolerance: f64) -> bool {
    (value(x) - want).abs() <= tolerance
}

fn point(x: i64, y: i64, z: i64) -> Vec3<Fixed> {
    Vec3::new(fx(x, 1), fx(y, 1), fx(z, 1))
}

#[test]
fn fixed_ratios_are_cut_towards_zero() {
    assert_eq!(fx(1, 1).raw, ONE_RAW);
    assert_eq!(fx(1, 2).raw, 1 << 31);
    assert_eq!(fx(1, 3).raw, 1_431_655_765);
    assert_eq!(fx(-1, 3).raw, -1_431_655_765);
    assert_eq!(fx(-7, 2).raw, -(7 << 31));
    assert_eq!(fx(7, -2).raw, -(7 << 31));
    assert_eq!(fx(1, 0).raw, i64::MAX);
    assert_eq!(fx(-1, 0).raw, i64::MIN);
    assert_eq!(fx(0, 0).raw, 0);
    assert_eq!(fx(i64::MAX, 1).raw, i64::MAX);
    assert_eq!(<Fixed as Scalar>::from_ratio(3, 4).raw, 3 << 30);
    assert_eq!(Fixed::from_raw(17).raw, 17);
}

#[test]
fn fixed_helpers() {
    assert_eq!(saturate(i64::MAX as i128 + 5), i64::MAX);
    assert_eq!(saturate(i64::MIN as i128 - 5), i64::MIN);
    assert_eq!(saturate(-42), -42);
    assert_eq!(magnitude(-5), 5);
    assert_eq!(magnitude(i64::MIN), 1u128 << 63);
    assert_eq!(signed(true, 5), -5);
    assert_eq!(signed(false, 1u128 << 70), i64::MAX);
    assert_eq!(signed(true, 1u128 << 63), i64::MIN);
    assert_eq!(ratio_raw(3, 4), 3 << 30);
    assert_eq!(product_raw(3 << 32, -(1 << 31)), -(3 << 31));
    assert_eq!(root_raw(9 << 32), 3 << 32);
}

#[test]
fn fixed_arithmetic_is_exact_on_dyadic_numbers() {
    assert_eq!(fx(3, 2).sum(fx(5, 2)).raw, fx(4, 1).raw);
    assert_eq!(fx(3, 2).difference(fx(5, 2)).raw, fx(-1, 1).raw);
    assert_eq!(fx(3, 2).product(fx(5, 2)).raw, fx(15, 4).raw);
    assert_eq!(fx(-3, 2).product(fx(2, 1)).raw, fx(-3, 1).raw);
    assert_eq!(fx(1, 1).quotient(fx(4, 1)).raw, fx(1, 4).raw);
    assert_eq!(fx(-1, 1).quotient(fx(4, 1)).raw, fx(-1, 4).raw);
    assert_eq!(fx(5, 1).negated().raw, fx(-5, 1).raw);
    assert_eq!(fx(-5, 1).absolute().raw, fx(5, 1).raw);
    assert_eq!(fx(37, 10).whole_part(), 3);
    assert_eq!(fx(-37, 10).whole_part(), -3);
}

#[test]
fn fixed_arithmetic_stops_at_the_ends_of_its_range() {
    let top = Fixed::infinity();
    assert_eq!(top.raw, i64::MAX);
    assert_eq!(top.sum(fx(1, 1)).raw, i64::MAX);
    assert_eq!(top.negated().difference(fx(1, 1)).raw, i64::MIN);
    assert_eq!(fx(1 << 20, 1).product(fx(1 << 20, 1)).raw, i64::MAX);
    assert_eq!(fx(1 << 20, 1).product(fx(-(1 << 20), 1)).raw, i64::MIN);
    assert_eq!(fx(3, 1).quotient(fx(0, 1)).raw, i64::MAX);
    assert_eq!(Fixed::from_raw(i64::MIN).negated().raw, i64::MAX);
    assert!(!top.is_finite() && !top.negate().minus(fx(1, 1)).is_finite() && fx(5, 1).is_finite());
}

#[test]
fn fixed_root() {
    assert_eq!(fx(4, 1).root().raw, fx(2, 1).raw);
    assert_eq!(fx(1, 4).root().raw, fx(1, 2).raw);
    assert_eq!(fx(2, 1).root().raw, 6_074_000_999);
    assert_eq!(fx(0, 1).root().raw, 0);
    assert_eq!(fx(-4, 1).root().raw, 0);
    let big = Fixed::from_raw(i64::MAX).root();
    assert!(near(big, 46340.95, 0.01));
}

#[test]
fn fixed_sines() {
    let pi = Fixed::pi_value();
    assert_eq!(pi.raw, PI_RAW);
    assert!(near(pi, std::f64::consts::PI, 1e-9));
    assert!(near(fx(0, 1).sine(), 0.0, 1e-6));
    assert!(near(pi.quotient(fx(2, 1)).sine(), 1.0, 1e-6));
    assert!(near(pi.quotient(fx(6, 1)).sine(), 0.5, 1e-6));
    assert!(near(pi.quotient(fx(-2, 1)).sine(), -1.0, 1e-6));
    assert!(near(pi.product(fx(3, 2)).sine(), -1.0, 1e-6));
    assert!(near(pi.product(fx(5, 2)).sine(), 1.0, 1e-6));
    assert!(near(fx(0, 1).cosine(), 1.0, 1e-6));
    assert!(near(pi.cosine(), -1.0, 1e-6));
    assert!(near(pi.quotient(fx(4, 1)).tangent(), 1.0, 1e-6));
    for k in -40..40 {
        let x = fx(k, 7);
        assert!(near(x.sine(), (k as f64 / 7.0).sin(), 2e-3));
        assert!(near(x.cosine(), (k as f64 / 7.0).cos(), 2e-3));
    }
}

#[test]
fn fixed_inverse_functions() {
    assert!(near(fx(1, 1).arc_cosine(), 0.0, 1e-6));
    assert!(near(fx(0, 1).arc_cosine(), std::f64::consts::FRAC_PI_2, 1e-4));
    assert!(near(fx(-1, 1).arc_cosine(), std::f64::consts::PI, 1e-6));
    assert!(near(fx(5, 1).arc_cosine(), 0.0, 1e-6));
    for k in -10..=10 {
        assert!(near(fx(k, 10).arc_cosine(), (k as f64 / 10.0).acos(), 1e-3));
    }
    assert!(near(fx(1, 1).arc_tangent2(fx(1, 1)), std::f64::consts::FRAC_PI_4, 1e-6));
    assert!(near(fx(1, 1).arc_tangent2(fx(0, 1)), std::f64::consts::FRAC_PI_2, 1e-6));
    assert!(near(fx(0, 1).arc_tangent2(fx(-1, 1)), std::f64::consts::PI, 1e-6));
    assert!(near(fx(-1, 1).arc_tangent2(fx(0, 1)), -std::f64::consts::FRAC_PI_2, 1e-6));
    assert_eq!(fx(0, 1).arc_tangent2(fx(0, 1)).raw, 0);
    for (y, x) in [(1, 2), (2, 1), (-1, 3), (3, -1), (-2, -5)] {
        assert!(near(fx(y, 1).arc_tangent2(fx(x, 1)), (y as f64).atan2(x as f64), 5e-3));
    }
}

#[test]
fn fixed_logarithm() {
    assert_eq!(LN2_RAW, 2_977_044_472);
    assert!(near(fx(1, 1).logarithm(), 0.0, 1e-6));
    assert!(near(fx(2, 1).logarithm(), 2.0f64.ln(), 1e-6));
    assert!(near(fx(1, 2).logarithm(), 0.5f64.ln(), 1e-6));
    assert!(near(fx(10, 1).logarithm(), 10.0f64.ln(), 1e-3));
    assert!(near(fx(3, 1000).logarithm(), 0.003f64.ln(), 1e-3));
    assert_eq!(fx(0, 1).logarithm().raw, i64::MIN);
    assert_eq!(fx(-3, 1).logarithm().raw, i64::MIN);
}

#[test]
fn fixed_order_is_the_order_of_its_steps() {
    assert!(fx(1, 3).lt(fx(1, 2)) && !fx(1, 2).lt(fx(1, 2)) && fx(1, 2).le(fx(1, 2)));
    assert!(fx(-1, 1).lt(fx(0, 1)) && Fixed::infinity().negate().lt(fx(-1000000, 1)));
    assert_eq!(<Fixed as Scalar>::pi().raw, PI_RAW);
    assert_eq!(fx(9, 1).sqrt().raw, fx(3, 1).raw);
    assert_eq!(fx(-9, 4).abs().truncate(), 2);
    assert_eq!(fx(6, 1).over(fx(4, 1)).times(fx(2, 1)).plus(fx(1, 1)).raw, fx(4, 1).raw);
    assert!(near(fx(1, 1).atan2(fx(1, 1)).tan(), 1.0, 1e-3));
    assert!(near(fx(1, 2).acos().cos(), 0.5, 2e-3));
    assert!(near(fx(3, 1).ln().sin(), 3.0f64.ln().sin(), 2e-3));
}

#[test]
fn sphere_is_hit_in_fixed_point() {
    let grey = make_mat(MaterialObject::Lambertian(Lambertian::new(Vec3::new(
        fx(1, 2),
        fx(1, 2),
        fx(1, 2),
    ))));
    let s = Sphere::new(point(0, 0, -3), fx(1, 1), grey);
    let r = Ray::new(point(0, 0, 0), point(0, 0, -1));
    let hit = s.hit(&r, Interval::new(fx(1, 1000), Fixed::infinity())).unwrap();
    assert_eq!(hit.t.raw, fx(2, 1).raw);
    assert_eq!(hit.p.z().raw, fx(-2, 1).raw);
    assert!(hit.front_face);
}

#[test]
fn ray_along_a_face_of_the_box_is_found_in_fixed_point() {
    let grey = make_mat(MaterialObject::Lambertian(Lambertian::new(Vec3::new(
        fx(1, 2),
        fx(1, 2),
        fx(1, 2),
    ))));
    let only = make_ref(HittableObject::Sphere(Sphere::new(point(0, 0, -1), fx(1, 2), grey)));
    let list = HittableList::from(only.clone());
    let node = BvhNode::new(HittableList::from(only));
    let r = Ray::new(Vec3::new(fx(1, 2), fx(0, 1), fx(0, 1)), point(0, 0, -1));
    let window = Interval::new(fx(1, 1000), Fixed::infinity());
    let mut rng = SmallRng::seed_from_u64(1);
    let by_list = list.hit(&r, window, &mut rng).unwrap();
    let by_tree = node.hit(&r, window, &mut rng).unwrap();
    assert_eq!(by_list.t.raw, fx(1, 1).raw);
    assert_eq!(by_tree.t.raw, fx(1, 1).raw);
    assert_eq!((by_tree.p.x().raw, by_tree.p.y().raw, by_tree.p.z().raw), (fx(1, 2).raw, 0, fx(-1, 1).raw));
}

#[test]
fn image_in_fixed_point_is_the_same_on_every_run() {
    let mut world = HittableList::new();
    let grey = make_mat(MaterialObject::Lambertian(Lambertian::new(Vec3::new(
        fx(1, 2),
        fx(1, 2),
        fx(1, 2),
    ))));
    world.add(make_ref(HittableObject::Sphere(Sphere::new(point(0, 0, -1), fx(1, 2), grey))));
    let world = HittableObject::Bvh(BvhNode::new(world));
    let lights = make_ref(HittableObject::List(HittableList::new()));
    let mut cam = Camera::<Fixed>::default();
    cam.image_width = 12;
    cam.samples_per_pixel = 1;
    cam.max_depth = 3;
    cam.background = Background::Sky;
    let first = cam.render(&world, &lights, &mut SmallRng::seed_from_u64(5));
    let second = cam.render(&world, &lights, &mut SmallRng::seed_from_u64(5));
    assert_eq!(first, second);
    let text = String::from_utf8(first).unwrap();
    let lines: Vec<&str> = text.lines().collect();
    assert_eq!(&lines[..3], ["P3", "12 12", "255"]);
    assert_eq!(lines.len(), 3 + 144);
    assert!(lines[3].ends_with(" 255"));
    let centre = lines[3 + 6 * 12 + 6];
    assert!(!centre.ends_with(" 255"));
    cam.max_depth = 0;
    let dark = cam.render(&world, &lights, &mut SmallRng::seed_from_u64(5));
    assert_eq!(String::from_utf8(dark).unwrap(), format!("P3\n12 12\n255\n{}", "0 0 0\n".repeat(144)));
}
