use raytracer::aabb::{slab, Aabb};
use raytracer::bvh::{
    best_split, bucket_index, centroid, centroid_bounds, count_scalar, fill_buckets, partition,
    sort_by_centroid, span_box, split_range, BvhNode, NUM_BUCKETS,
};
use raytracer::hittable::{make_ref, HittableObject, HittableRef};
use raytracer::hittable_list::HittableList;
use raytracer::interval::Interval;
use raytracer::material::{make_mat, Lambertian, MaterialObject, MaterialRef};
use raytracer::permute::swap_handles;
use raytracer::quad::Quad;
use raytracer::ray::Ray;
use raytracer::scalar::Scalar;
use raytracer::sphere::Sphere;
use raytracer::vec3::Vec3;
use rand::rngs::SmallRng;
use rand::{Rng, SeedableRng};
use std::sync::Arc;

#[derive(Clone, Copy, Debug, PartialEq)]
struct Real(f64);

fn key_of(x: f64) -> i64 {
    if x.is_nan() {
        return i64::MIN;
    }
    let bits = (x + 0.0).to_bits() as i64;
    if bits < 0 {
        i64::MIN - bits
    } else {
        bits
    }
}

impl Scalar for Real {
    fn key(self) -> i64 {
        key_of(self.0)
    }
    fn from_ratio_spec(num: i64, den: i64) -> Self {
        Self::from_ratio(num, den)
    }
    fn from_ratio(num: i64, den: i64) -> Self {
        Real(num as f64 / den as f64)
    }
    fn infinity_spec() -> Self {
        Self::infinity()
    }
    fn infinity() -> Self {
        Real(f64::INFINITY)
    }
    fn pi_spec() -> Self {
        Self::pi()
    }
    fn pi() -> Self {
        Real(std::f64::consts::PI)
    }
    fn plus_spec(self, rhs: Self) -> Self {
        self.plus(rhs)
    }
    fn plus(self, rhs: Self) -> Self {
        Real(self.0 + rhs.0)
    }
    fn minus_spec(self, rhs: Self) -> Self {
        self.minus(rhs)
    }
    fn minus(self, rhs: Self) -> Self {
        Real(self.0 - rhs.0)
    }
    fn times_spec(self, rhs: Self) -> Self {
        self.times(rhs)
    }
    fn times(self, rhs: Self) -> Self {
        Real(self.0 * rhs.0)
    }
    fn over_spec(self, rhs: Self) -> Self {
        self.over(rhs)
    }
    fn over(self, rhs: Self) -> Self {
        Real(self.0 / rhs.0)
    }
    fn negate_spec(self) -> Self {
        self.negate()
    }
    fn negate(self) -> Self {
        Real(-self.0)
    }
    fn abs_spec(self) -> Self {
        self.abs()
    }
    fn abs(self) -> Self {
        Real(self.0.abs())
    }
    fn sqrt_spec(self) -> Self {
        self.sqrt()
    }
    fn sqrt(self) -> Self {
        Real(self.0.sqrt())
    }
    fn sin_spec(self) -> Self {
        self.sin()
    }
    fn sin(self) -> Self {
        Real(self.0.sin())
    }
    fn cos_spec(self) -> Self {
        self.cos()
    }
    fn cos(self) -> Self {
        Real(self.0.cos())
    }
    fn tan_spec(self) -> Self {
        self.tan()
    }
    fn tan(self) -> Self {
        Real(self.0.tan())
    }
    fn acos_spec(self) -> Self {
        self.acos()
    }
    fn acos(self) -> Self {
        Real(self.0.acos())
    }
    fn atan2_spec(self, x: Self) -> Self {
        self.atan2(x)
    }
    fn atan2(self, x: Self) -> Self {
        Real(self.0.atan2(x.0))
    }
    fn ln_spec(self) -> Self {
        self.ln()
    }
    fn ln(self) -> Self {
        Real(self.0.ln())
    }
    fn truncate_spec(self) -> i64 {
        self.truncate()
    }
    fn truncate(self) -> i64 {
        self.0 as i64
    }
    fn is_finite_spec(self) -> bool {
        self.is_finite()
    }
    fn is_finite(self) -> bool {
        self.0.is_finite()
    }
    fn lt(self, rhs: Self) -> bool {
        key_of(self.0) < key_of(rhs.0)
    }
    fn le(self, rhs: Self) -> bool {
        key_of(self.0) <= key_of(rhs.0)
    }
}

fn v(x: f64, y: f64, z: f64) -> Vec3<Real> {
    Vec3::new(Real(x), Real(y), Real(z))
}

fn close(a: Real, b: f64) -> bool {
    (a.0 - b).abs() <= 1e-12 * (1.0 + b.abs())
}

fn grey() -> MaterialRef<Real> {
    make_mat(MaterialObject::Lambertian(Lambertian::new(v(0.5, 0.5, 0.5))))
}

fn ball(x: f64, y: f64, z: f64, r: f64) -> HittableRef<Real> {
    make_ref(HittableObject::Sphere(Sphere::new(v(x, y, z), Real(r), grey())))
}

fn list_of(objects: &[HittableRef<Real>]) -> HittableList<Real> {
    let mut list = HittableList::new();
    for o in objects {
        list.add(o.clone());
    }
    list
}

fn row_of_balls(n: usize) -> Vec<HittableRef<Real>> {
    (0..n).map(|i| ball(2.0 * i as f64, 0.0, -5.0, 0.5)).collect()
}

fn random_balls(seed: u64, n: usize) -> Vec<HittableRef<Real>> {
    let mut gen = SmallRng::seed_from_u64(seed);
    (0..n)
        .map(|_| {
            ball(
                gen.gen_range(-10.0..10.0),
                gen.gen_range(-10.0..10.0),
                gen.gen_range(-10.0..10.0),
                gen.gen_range(0.1..1.5),
            )
        })
        .collect()
}

fn leaves(node: &BvhNode<Real>, out: &mut Vec<HittableRef<Real>>) {
    for child in [&node.left, &node.right] {
        match &**child {
            HittableObject::Bvh(inner) => leaves(inner, out),
            _ => out.push(child.clone()),
        }
    }
}

fn encloses(outer: &Aabb<Real>, inner: &Aabb<Real>) -> bool {
    outer.x.min.0 <= inner.x.min.0
        && inner.x.max.0 <= outer.x.max.0
        && outer.y.min.0 <= inner.y.min.0
        && inner.y.max.0 <= outer.y.max.0
        && outer.z.min.0 <= inner.z.min.0
        && inner.z.max.0 <= outer.z.max.0
}

fn boxes_nest(node: &BvhNode<Real>) -> bool {
    let mut beneath = Vec::new();
    leaves(node, &mut beneath);
    let here = beneath.iter().all(|leaf| encloses(&node.bbox, &leaf.bounding_box()));
    let below = [&node.left, &node.right].iter().all(|child| match &***child {
        HittableObject::Bvh(inner) => boxes_nest(inner),
        _ => true,
    });
    here && below
}

fn depth(node: &BvhNode<Real>) -> usize {
    let of = |child: &HittableRef<Real>| match &**child {
        HittableObject::Bvh(inner) => depth(inner),
        _ => 0,
    };
    1 + of(&node.left).max(of(&node.right))
}

#[test]
fn hierarchy_of_no_objects_is_never_hit() {
    let node = BvhNode::<Real>::new(HittableList::new());
    let mut rng = SmallRng::seed_from_u64(1);
    let r = Ray::new(v(0.0, 0.0, 0.0), v(0.0, 0.0, -1.0));
    assert!(node.hit(&r, Interval::new(Real(0.001), Real(f64::INFINITY)), &mut rng).is_none());
    assert!(matches!(&*node.left, HittableObject::List(l) if l.objects.is_empty()));
    assert!(matches!(&*node.right, HittableObject::List(l) if l.objects.is_empty()));
}

#[test]
fn hierarchy_of_one_object_holds_it_twice() {
    let only = ball(0.0, 0.0, -3.0, 1.0);
    let node = BvhNode::new(list_of(&[only.clone()]));
    assert!(Arc::ptr_eq(&node.left, &only));
    assert!(Arc::ptr_eq(&node.right, &only));
    let mut rng = SmallRng::seed_from_u64(1);
    let r = Ray::new(v(0.0, 0.0, 0.0), v(0.0, 0.0, -1.0));
    let hit = node.hit(&r, Interval::new(Real(0.001), Real(f64::INFINITY)), &mut rng).unwrap();
    assert_eq!(hit.t, Real(2.0));
}

#[test]
fn hierarchy_of_two_objects_keeps_their_order() {
    let a = ball(0.0, 0.0, -3.0, 1.0);
    let b = ball(5.0, 0.0, -3.0, 1.0);
    let node = BvhNode::new(list_of(&[a.clone(), b.clone()]));
    assert!(Arc::ptr_eq(&node.left, &a));
    assert!(Arc::ptr_eq(&node.right, &b));
    assert_eq!((node.bbox.x.min, node.bbox.x.max), (Real(-1.0), Real(6.0)));
}

#[test]
fn every_object_is_a_leaf_and_every_leaf_an_object() {
    for n in [3usize, 4, 5, 8, 13, 64, 200] {
        let objects = random_balls(n as u64, n);
        let node = BvhNode::new(list_of(&objects));
        let mut found = Vec::new();
        leaves(&node, &mut found);
        assert!(found.len() >= n);
        for o in &objects {
            assert!(found.iter().any(|leaf| Arc::ptr_eq(leaf, o)));
        }
        for leaf in &found {
            assert!(objects.iter().any(|o| Arc::ptr_eq(leaf, o)));
        }
        for o in &objects {
            let times = found.iter().filter(|leaf| Arc::ptr_eq(leaf, o)).count();
            assert!(times == 1 || times == 2);
        }
    }
}

#[test]
fn boxes_enclose_the_boxes_of_all_primitives_beneath() {
    for n in [1usize, 2, 3, 7, 50, 300] {
        let node = BvhNode::new(list_of(&random_balls(100 + n as u64, n)));
        assert!(boxes_nest(&node));
    }
}

#[test]
fn build_permutes_only_within_its_range() {
    let objects = random_balls(5, 40);
    let mut work = objects.clone();
    let node = BvhNode::build(&mut work, 10, 30);
    for i in (0..10).chain(30..40) {
        assert!(Arc::ptr_eq(&work[i], &objects[i]));
    }
    for o in &objects[10..30] {
        assert_eq!(work[10..30].iter().filter(|w| Arc::ptr_eq(w, o)).count(), 1);
    }
    assert_eq!(node.bbox.x.min, span_box(&objects, 10, 30).x.min);
    assert_eq!(node.bbox.z.max, span_box(&objects, 10, 30).z.max);
}

#[test]
fn evenly_spread_objects_give_a_shallow_tree() {
    let node = BvhNode::new(list_of(&row_of_balls(64)));
    assert!(depth(&node) <= 8);
}

#[test]
fn objects_on_one_spot_are_parted_in_the_middle() {
    let objects: Vec<HittableRef<Real>> = (0..9).map(|_| ball(1.0, 2.0, 3.0, 0.5)).collect();
    let mut work = objects.clone();
    let bbox = span_box(&work, 0, 9);
    let mid = split_range(&mut work, 0, 9, &bbox);
    assert_eq!(mid, 4);
    let node = BvhNode::new(list_of(&objects));
    let mut found = Vec::new();
    leaves(&node, &mut found);
    for o in &objects {
        assert!(found.iter().any(|leaf| Arc::ptr_eq(leaf, o)));
    }
}

#[test]
fn split_separates_two_clusters() {
    let mut work: Vec<HittableRef<Real>> = Vec::new();
    for i in 0..6 {
        work.push(ball(100.0 + i as f64, 0.0, 0.0, 0.4));
        work.push(ball(-100.0 - i as f64, 0.0, 0.0, 0.4));
    }
    let bbox = span_box(&work, 0, 12);
    let mid = split_range(&mut work, 0, 12, &bbox);
    assert_eq!(mid, 6);
    assert!(work[..6].iter().all(|o| o.bounding_box().x.max.0 < 0.0));
    assert!(work[6..].iter().all(|o| o.bounding_box().x.min.0 > 0.0));
}

#[test]
fn box_around_a_range_of_objects() {
    let objects = row_of_balls(4);
    let b = span_box(&objects, 1, 3);
    assert_eq!((b.x.min, b.x.max), (Real(1.5), Real(4.5)));
    assert_eq!((b.y.min, b.y.max), (Real(-0.5), Real(0.5)));
    let none = span_box(&objects, 2, 2);
    assert_eq!(none.x.min, Real(f64::INFINITY));
}

#[test]
fn centroid_is_the_middle_of_the_box() {
    let b = Aabb::from_points(v(0.0, 10.0, -4.0), v(2.0, 20.0, 4.0));
    assert_eq!(centroid(&b, 0), Real(1.0));
    assert_eq!(centroid(&b, 1), Real(15.0));
    assert_eq!(centroid(&b, 2), Real(0.0));
    let objects = row_of_balls(5);
    let bounds = centroid_bounds(&objects, 0, 5, 0);
    assert_eq!(bounds, (Real(0.0), Real(8.0)));
    let bounds = centroid_bounds(&objects, 1, 3, 0);
    assert_eq!(bounds, (Real(2.0), Real(4.0)));
}

#[test]
fn bucket_index_cuts_the_range_into_twelfths() {
    assert_eq!(NUM_BUCKETS, 12);
    assert_eq!(bucket_index(Real(0.0), Real(0.0), Real(12.0)), 0);
    assert_eq!(bucket_index(Real(0.99), Real(0.0), Real(12.0)), 0);
    assert_eq!(bucket_index(Real(1.0), Real(0.0), Real(12.0)), 1);
    assert_eq!(bucket_index(Real(11.5), Real(0.0), Real(12.0)), 11);
    assert_eq!(bucket_index(Real(12.0), Real(0.0), Real(12.0)), 11);
    assert_eq!(bucket_index(Real(-5.0), Real(0.0), Real(12.0)), 0);
    assert_eq!(bucket_index(Real(500.0), Real(0.0), Real(12.0)), 11);
}

#[test]
fn buckets_count_and_enclose_their_objects() {
    let objects = row_of_balls(12);
    let (counts, boxes) = fill_buckets(&objects, 0, 12, 0, Real(0.0), Real(24.0));
    assert_eq!(counts, vec![1u64; 12]);
    assert_eq!((boxes[3].x.min, boxes[3].x.max), (Real(5.5), Real(6.5)));
    let (counts, _) = fill_buckets(&objects, 0, 12, 0, Real(0.0), Real(22.0));
    assert_eq!(counts.iter().sum::<u64>(), 12);
    assert_eq!(counts[11], 1);
}

#[test]
fn cheapest_split_minimises_area_times_count() {
    let unit = |x: f64| Aabb::from_points(v(x, 0.0, 0.0), v(x + 1.0, 1.0, 1.0));
    let mut counts = vec![0u64; 12];
    let mut boxes = vec![Aabb::<Real>::empty(); 12];
    counts[0] = 2;
    boxes[0] = unit(0.0);
    counts[1] = 2;
    boxes[1] = unit(1.0);
    counts[11] = 4;
    boxes[11] = unit(11.0);
    let (cost, split) = best_split(&counts, &boxes);
    assert_eq!(split, 1);
    assert_eq!(cost, Real(10.0 * 4.0 + 6.0 * 4.0));
    let first = 6.0 * 2.0 + (2.0 * (11.0 + 1.0 + 11.0)) * 6.0;
    assert!(cost.0 < first);
}

#[test]
fn no_split_where_all_objects_share_a_bucket() {
    let mut counts = vec![0u64; 12];
    let mut boxes = vec![Aabb::<Real>::empty(); 12];
    counts[4] = 9;
    boxes[4] = Aabb::from_points(v(0.0, 0.0, 0.0), v(1.0, 1.0, 1.0));
    let (cost, _) = best_split(&counts, &boxes);
    assert_eq!(cost, Real(f64::INFINITY));
}

#[test]
fn count_as_scalar() {
    assert_eq!(count_scalar::<Real>(0), Real(0.0));
    assert_eq!(count_scalar::<Real>(12345), Real(12345.0));
    assert_eq!(count_scalar::<Real>(u128::MAX), Real(i64::MAX as f64));
}

#[test]
fn partition_brings_early_buckets_to_the_front() {
    let mut work = row_of_balls(12);
    work.reverse();
    let before = work.clone();
    let mid = partition(&mut work, 0, 12, 0, Real(0.0), Real(24.0), 3);
    assert_eq!(mid, 4);
    assert!(work[..4].iter().all(|o| o.bounding_box().x.max.0 <= 6.5));
    assert!(work[4..].iter().all(|o| o.bounding_box().x.min.0 >= 7.5));
    for o in &before {
        assert_eq!(work.iter().filter(|w| Arc::ptr_eq(w, o)).count(), 1);
    }
}

#[test]
fn sort_orders_by_centroid_and_keeps_ties_in_place() {
    let a = ball(3.0, 0.0, 0.0, 0.5);
    let b = ball(1.0, 0.0, 0.0, 0.5);
    let c = ball(3.0, 9.0, 0.0, 0.25);
    let d = ball(2.0, 0.0, 0.0, 0.5);
    let outside = ball(-9.0, 0.0, 0.0, 0.5);
    let mut work = vec![outside.clone(), a.clone(), b.clone(), c.clone(), d.clone()];
    sort_by_centroid(&mut work, 1, 5, 0);
    let order: Vec<bool> = [&outside, &b, &d, &a, &c]
        .iter()
        .zip(work.iter())
        .map(|(want, got)| Arc::ptr_eq(want, got))
        .collect();
    assert_eq!(order, vec![true; 5]);
}

#[test]
fn swap_exchanges_two_handles() {
    let a = ball(0.0, 0.0, 0.0, 1.0);
    let b = ball(1.0, 0.0, 0.0, 1.0);
    let c = ball(2.0, 0.0, 0.0, 1.0);
    let mut work = vec![a.clone(), b.clone(), c.clone()];
    swap_handles(&mut work, 0, 2);
    assert!(Arc::ptr_eq(&work[0], &c) && Arc::ptr_eq(&work[1], &b) && Arc::ptr_eq(&work[2], &a));
    swap_handles(&mut work, 1, 1);
    assert!(Arc::ptr_eq(&work[1], &b));
}

fn same_hit(objects: &[HittableRef<Real>], rays: usize, seed: u64) {
    let list = list_of(objects);
    let node = BvhNode::new(list_of(objects));
    let mut gen = SmallRng::seed_from_u64(seed);
    let mut rng = SmallRng::seed_from_u64(seed + 1);
    let mut hits = 0;
    for _ in 0..rays {
        let origin = v(
            gen.gen_range(-15.0..15.0),
            gen.gen_range(-15.0..15.0),
            gen.gen_range(-15.0..15.0),
        );
        let direction = v(
            gen.gen_range(-1.0..1.0),
            gen.gen_range(-1.0..1.0),
            gen.gen_range(-1.0..1.0),
        );
        let r = Ray::new(origin, direction);
        let far: f64 = if gen.gen_bool(0.5) { f64::INFINITY } else { gen.gen_range(1.0..30.0) };
        let window = Interval::new(Real(0.001), Real(far));
        let by_list = list.hit(&r, window, &mut rng);
        let by_tree = node.hit(&r, window, &mut rng);
        match (by_list, by_tree) {
            (None, None) => {}
            (Some(a), Some(b)) => {
                hits += 1;
                assert_eq!(a.t, b.t);
                assert!(0.001 < a.t.0 && a.t.0 < far);
                assert_eq!((a.p.x(), a.p.y(), a.p.z()), (b.p.x(), b.p.y(), b.p.z()));
            }
            (a, b) => panic!("list hit: {}, hierarchy hit: {}", a.is_some(), b.is_some()),
        }
    }
    assert!(hits > 0);
}

#[test]
fn hierarchy_and_list_report_the_same_closest_hit() {
    same_hit(&random_balls(21, 3), 2000, 1);
    same_hit(&random_balls(22, 10), 2000, 2);
    same_hit(&random_balls(23, 100), 2000, 3);
    same_hit(&random_balls(24, 1000), 1000, 4);
}

#[test]
fn hierarchy_and_list_agree_on_parallelograms() {
    let mut gen = SmallRng::seed_from_u64(9);
    let quads: Vec<HittableRef<Real>> = (0..60)
        .map(|_| {
            let q = v(
                gen.gen_range(-8.0..8.0),
                gen.gen_range(-8.0..8.0),
                gen.gen_range(-8.0..8.0),
            );
            let u = v(gen.gen_range(0.5..3.0), 0.0, gen.gen_range(-1.0..1.0));
            let w = v(0.0, gen.gen_range(0.5..3.0), gen.gen_range(-1.0..1.0));
            make_ref(HittableObject::Quad(Quad::new(q, u, w, grey())))
        })
        .collect();
    same_hit(&quads, 3000, 5);
}

#[test]
fn the_closer_of_two_spheres_wins_whatever_their_order() {
    let near = ball(0.0, 0.0, -3.0, 1.0);
    let far = ball(0.0, 0.0, -8.0, 1.0);
    let r = Ray::new(v(0.0, 0.0, 0.0), v(0.0, 0.0, -1.0));
    let window = Interval::new(Real(0.001), Real(f64::INFINITY));
    let mut rng = SmallRng::seed_from_u64(1);
    for objects in [[near.clone(), far.clone()], [far.clone(), near.clone()]] {
        assert_eq!(list_of(&objects).hit(&r, window, &mut rng).unwrap().t, Real(2.0));
        assert_eq!(BvhNode::new(list_of(&objects)).hit(&r, window, &mut rng).unwrap().t, Real(2.0));
    }
    let beyond = Interval::new(Real(2.5), Real(f64::INFINITY));
    assert_eq!(list_of(&[near.clone(), far.clone()]).hit(&r, beyond, &mut rng).unwrap().t, Real(4.0));
    let short = Interval::new(Real(0.001), Real(1.5));
    assert!(BvhNode::new(list_of(&[near, far])).hit(&r, short, &mut rng).is_none());
}

#[test]
fn ray_along_a_face_of_the_box_is_found_by_both() {
    let only = ball(0.0, 0.0, -1.0, 0.5);
    let list = list_of(&[only.clone()]);
    let node = BvhNode::new(list_of(&[only]));
    let window = Interval::new(Real(0.001), Real(f64::INFINITY));
    let mut rng = SmallRng::seed_from_u64(1);
    for (origin, direction, t) in [
        (v(0.5, 0.0, 0.0), v(0.0, 0.0, -1.0), 1.0),
        (v(-0.5, 0.0, 0.0), v(0.0, 0.0, -1.0), 1.0),
        (v(0.0, 0.5, 0.0), v(0.0, 0.0, -1.0), 1.0),
        (v(0.0, -0.5, 0.0), v(-0.0, 0.0, -2.0), 0.5),
        (v(0.0, 5.0, -0.5), v(0.0, -1.0, 0.0), 5.0),
    ] {
        let r = Ray::new(origin, direction);
        let by_list = list.hit(&r, window, &mut rng).unwrap();
        let by_tree = node.hit(&r, window, &mut rng).unwrap();
        assert_eq!(by_list.t, Real(t));
        assert_eq!(by_tree.t, Real(t));
        assert_eq!((by_tree.p.x(), by_tree.p.y(), by_tree.p.z()), (by_list.p.x(), by_list.p.y(), by_list.p.z()));
    }
    let r = Ray::new(v(0.5, 0.0, 0.0), v(0.0, 0.0, -1.0));
    let hit = node.hit(&r, window, &mut rng).unwrap();
    assert_eq!((hit.p.x(), hit.p.y(), hit.p.z()), (Real(0.5), Real(0.0), Real(-1.0)));
    let outside = Ray::new(v(0.75, 0.0, 0.0), v(0.0, 0.0, -1.0));
    assert!(node.hit(&outside, window, &mut rng).is_none());
    assert!(list.hit(&outside, window, &mut rng).is_none());
}

#[test]
fn still_ray_passes_a_slab_by_its_origin_alone() {
    let axis = Interval::new(Real(-0.5), Real(0.5));
    let window = Interval::new(Real(1.0), Real(9.0));
    for origin in [-0.5, 0.0, 0.5] {
        for dir in [0.0, -0.0] {
            let w = slab(axis, Real(origin), Real(dir), window);
            assert_eq!((w.min, w.max), (Real(1.0), Real(9.0)));
        }
    }
    for origin in [-0.75, 0.500001, 1e300] {
        let w = slab(axis, Real(origin), Real(0.0), window);
        assert_eq!((w.min, w.max), (Real(1.0), Real(1.0)));
    }
    let shut = Interval::new(Real(9.0), Real(1.0));
    let w = slab(axis, Real(7.0), Real(0.0), shut);
    assert_eq!((w.min, w.max), (Real(9.0), Real(1.0)));
    let b = Aabb::from_points(v(0.0, 0.0, 0.0), v(1.0, 1.0, 1.0));
    let along = Ray::new(v(1.0, 1.0, -3.0), v(0.0, 0.0, 1.0));
    assert!(b.hit(&along, Interval::new(Real(0.0), Real(10.0))));
    let beside = Ray::new(v(1.0, 1.5, -3.0), v(0.0, 0.0, 1.0));
    assert!(!b.hit(&beside, Interval::new(Real(0.0), Real(10.0))));
}

#[test]
fn nested_hierarchy_counts_as_one_object() {
    let inner = BvhNode::new(list_of(&random_balls(31, 20)));
    let mut objects = random_balls(32, 20);
    objects.push(make_ref(HittableObject::Bvh(inner)));
    same_hit(&objects, 2000, 6);
}

#[test]
fn list_grows_its_box_with_each_object() {
    let mut list = HittableList::<Real>::new();
    assert!(list.objects.is_empty());
    list.add(ball(0.0, 0.0, 0.0, 1.0));
    assert_eq!((list.bounding_box().x.min, list.bounding_box().x.max), (Real(-1.0), Real(1.0)));
    list.add(ball(5.0, 0.0, 0.0, 2.0));
    assert_eq!((list.bounding_box().x.min, list.bounding_box().x.max), (Real(-1.0), Real(7.0)));
    assert_eq!(list.objects.len(), 2);
    let single = HittableList::from(ball(1.0, 1.0, 1.0, 1.0));
    assert_eq!(single.objects.len(), 1);
    assert_eq!(single.bounding_box().y.max, Real(2.0));
    list.clear();
    assert!(list.objects.is_empty());
    assert_eq!(list.bounding_box().x.min, Real(f64::INFINITY));
}
