use raytracer::aabb::AABB;
use raytracer::bvh::BVHNode;
use raytracer::hit_record::{HitRecord, Surface};
use raytracer::hittables::{HittableList, Hittables};
use raytracer::interval::Interval;
use raytracer::materials::Materials;
use raytracer::quad::{Frame, Quad};
use raytracer::ray::Ray;
use raytracer::scalar::Scalar;
use raytracer::sphere::Sphere;
use raytracer::vec3::{Point3, Vec3};
use std::cell::Cell;
use std::sync::Arc;

fn s(x: f64) -> Scalar {
    Scalar::from_bits(x.to_bits())
}

fn f(x: Scalar) -> f64 {
    f64::from_bits(x.to_bits())
}

fn v(x: f64, y: f64, z: f64) -> Vec3 {
    Vec3::new(s(x), s(y), s(z))
}

fn iv(min: f64, max: f64) -> Interval {
    Interval::new(s(min), s(max))
}

fn plus(a: Vec3, b: Vec3) -> Vec3 {
    v(f(a.x) + f(b.x), f(a.y) + f(b.y), f(a.z) + f(b.z))
}

fn minus(a: Vec3, b: Vec3) -> Vec3 {
    v(f(a.x) - f(b.x), f(a.y) - f(b.y), f(a.z) - f(b.z))
}

fn times(k: f64, a: Vec3) -> Vec3 {
    v(f(a.x) * k, f(a.y) * k, f(a.z) * k)
}

fn over(a: Vec3, k: f64) -> Vec3 {
    v(f(a.x) / k, f(a.y) / k, f(a.z) / k)
}

fn dot(a: Vec3, b: Vec3) -> f64 {
    f(a.x) * f(b.x) + f(a.y) * f(b.y) + f(a.z) * f(b.z)
}

fn cross(a: Vec3, b: Vec3) -> Vec3 {
    v(
        f(a.y) * f(b.z) - f(a.z) * f(b.y),
        f(a.z) * f(b.x) - f(a.x) * f(b.z),
        f(a.x) * f(b.y) - f(a.y) * f(b.x),
    )
}

fn at(ray: &Ray, t: f64) -> Point3 {
    plus(ray.origin, times(t, ray.direction))
}

fn size(i: Interval) -> Scalar {
    s(f(i.max) - f(i.min))
}

fn widen(i: Interval, thickness: Scalar) -> Interval {
    let padding = (f(thickness) - (f(i.max) - f(i.min))) / 2.;
    Interval::new(s(f(i.min) - padding), s(f(i.max) + padding))
}

fn crossing(bound: Scalar, origin: Scalar, direction: Scalar) -> Scalar {
    let adinv = 1. / f(direction);
    s((f(bound) - f(origin)) * adinv)
}

fn grey() -> Arc<Materials> {
    Materials::lambertian_solid(v(0.5, 0.5, 0.5))
}

fn sphere(center: Point3, radius: f64) -> Arc<Hittables> {
    let rvec = v(radius, radius, radius);
    Hittables::new_static_sphere(center, s(radius), grey(), minus(center, rvec), plus(center, rvec))
}

fn quad_frame(q: Point3, u: Vec3, w: Vec3) -> Frame {
    let n = cross(u, w);
    let normal = over(n, dot(n, n).sqrt());
    Frame {
        corner_u: plus(q, u),
        corner_v: plus(q, w),
        corner_uv: plus(plus(q, u), w),
        normal,
        d: s(dot(normal, q)),
        w: over(n, dot(n, n)),
    }
}

fn sphere_hit(sphere: &Sphere, ray: &Ray, interval: Interval) -> Option<HitRecord> {
    let center = at(&sphere.center, f(ray.time));
    let radius = f(sphere.radius);
    let oc = minus(center, ray.origin);
    let a = dot(ray.direction, ray.direction);
    let h = dot(ray.direction, oc);
    let c = dot(oc, oc) - radius * radius;
    let discriminant = h * h - a * c;
    let sqrtd = discriminant.sqrt();
    let surface = |t: Scalar| {
        let point = at(ray, f(t));
        let normal = over(minus(point, center), radius);
        Surface {
            point,
            outward_normal: normal,
            reversed_normal: times(-1.0, normal),
            facing: s(dot(ray.direction, normal)),
            u: s(0.0),
            v: s(0.0),
        }
    };
    sphere.hit(interval, s(discriminant), s((h - sqrtd) / a), s((h + sqrtd) / a), &surface)
}

fn quad_hit(quad: &Quad, ray: &Ray, interval: Interval) -> Option<HitRecord> {
    let denom = dot(quad.normal, ray.direction);
    let t = (f(quad.d) - dot(quad.normal, ray.origin)) / denom;
    let intersection = at(ray, t);
    let planar = minus(intersection, quad.q);
    let alpha = dot(quad.w, cross(planar, quad.v));
    let beta = dot(quad.w, cross(quad.u, planar));
    quad.hit(interval, s(denom), s(t), s(alpha), s(beta), intersection, times(-1.0, quad.normal))
}

fn ask(object: &Hittables, ray: &Ray, interval: Interval) -> Option<HitRecord> {
    match object {
        Hittables::Sphere(sp) => sphere_hit(sp, ray, interval),
        Hittables::Quad(q) => quad_hit(q, ray, interval),
        Hittables::List(l) => l.hit(ray, interval, &ask),
        Hittables::BVH(n) => n.hit(ray, interval, &crossing, &ask),
        Hittables::Translate(t) => t.hit(ray, interval, &minus, &plus, &ask),
        _ => None,
    }
}

fn center_x(object: &Hittables) -> f64 {
    match object {
        Hittables::Sphere(sp) => f(sp.center.origin.x),
        _ => panic!("a sphere was expected"),
    }
}

fn leaves(node: &BVHNode, out: &mut Vec<Arc<Hittables>>) {
    match node {
        BVHNode::Leaf(x) => out.push(x.clone()),
        BVHNode::Node { left, right, .. } => {
            leaves(left, out);
            leaves(right, out);
        }
    }
}

fn span_of(objects: &[Arc<Hittables>]) -> AABB {
    let mut b = AABB::empty();
    for o in objects {
        b = AABB::from_boxes(&b, &o.bounding_box());
    }
    b
}

fn check_boxes(node: &BVHNode) {
    if let BVHNode::Node { left, right, bbox } = node {
        let mut below = Vec::new();
        leaves(node, &mut below);
        for o in below.iter() {
            let inner = o.bounding_box();
            for axis in 0..3 {
                assert!(bbox.axis_interval(axis).min.le(inner.axis_interval(axis).min));
                assert!(inner.axis_interval(axis).max.le(bbox.axis_interval(axis).max));
            }
        }
        assert_eq!(node.bounding_box(), *bbox);
        check_boxes(left);
        check_boxes(right);
    }
}

struct Lcg(u64);

impl Lcg {
    fn next(&mut self) -> f64 {
        self.0 = self.0.wrapping_mul(6364136223846793005).wrapping_add(1442695040888963407);
        ((self.0 >> 11) as f64) / ((1u64 << 53) as f64)
    }

    fn between(&mut self, lo: f64, hi: f64) -> f64 {
        lo + (hi - lo) * self.next()
    }
}

#[test]
fn one_object_makes_a_leaf() {
    let mut list = HittableList::empty();
    list.add(sphere(v(1.0, 2.0, 3.0), 0.5));
    let only = list.objects[0].clone();
    let node = BVHNode::from_list(&mut list, &size);
    match &node {
        BVHNode::Leaf(x) => assert!(Arc::ptr_eq(x, &only)),
        _ => panic!("one object makes a leaf"),
    }
    assert_eq!(node.bounding_box(), AABB::new(iv(0.5, 1.5), iv(1.5, 2.5), iv(2.5, 3.5)));
}

#[test]
fn objects_are_sorted_along_the_longest_axis_and_split_in_the_middle() {
    let mut list = HittableList::empty();
    for x in [3.0, 0.0, 4.0, 1.0, 2.0] {
        list.add(sphere(v(x, 0.0, 0.0), 0.25));
    }
    let node = BVHNode::from_list(&mut list, &size);
    let xs: Vec<f64> = list.objects.iter().map(|o| center_x(o)).collect();
    assert_eq!(xs, vec![0.0, 1.0, 2.0, 3.0, 4.0]);
    let mut in_tree = Vec::new();
    leaves(&node, &mut in_tree);
    for (a, b) in in_tree.iter().zip(list.objects.iter()) {
        assert!(Arc::ptr_eq(a, b));
    }
    match &node {
        BVHNode::Node { left, right, bbox } => {
            assert_eq!(*bbox, AABB::new(iv(-0.25, 4.25), iv(-0.25, 0.25), iv(-0.25, 0.25)));
            match (&**left, &**right) {
                (
                    BVHNode::Node { left: ll, right: lr, bbox: lb },
                    BVHNode::Node { left: rl, right: rr, bbox: rb },
                ) => {
                    assert_eq!(lb.x, iv(-0.25, 1.25));
                    assert_eq!(rb.x, iv(1.75, 4.25));
                    assert!(matches!(**ll, BVHNode::Leaf(_)));
                    assert!(matches!(**lr, BVHNode::Leaf(_)));
                    assert!(matches!(**rl, BVHNode::Leaf(_)));
                    match &**rr {
                        BVHNode::Node { left, right, bbox } => {
                            assert_eq!(bbox.x, iv(2.75, 4.25));
                            assert!(matches!(**left, BVHNode::Leaf(_)));
                            assert!(matches!(**right, BVHNode::Leaf(_)));
                        }
                        _ => panic!("three objects split into one and two"),
                    }
                }
                _ => panic!("five objects split into two and three"),
            }
        }
        _ => panic!("five objects make an inner node"),
    }
}

#[test]
fn the_axis_is_chosen_anew_at_every_node() {
    let mut list = HittableList::empty();
    list.add(sphere(v(10.0, 5.0, 0.0), 0.25));
    list.add(sphere(v(0.0, 3.0, 0.0), 0.25));
    list.add(sphere(v(10.0, 0.0, 0.0), 0.25));
    list.add(sphere(v(0.0, 0.0, 0.0), 0.25));
    let node = BVHNode::from_list(&mut list, &size);
    let centers: Vec<(f64, f64)> = list
        .objects
        .iter()
        .map(|o| match &**o {
            Hittables::Sphere(sp) => (f(sp.center.origin.x), f(sp.center.origin.y)),
            _ => panic!("a sphere was expected"),
        })
        .collect();
    assert_eq!(centers, vec![(0.0, 0.0), (0.0, 3.0), (10.0, 0.0), (10.0, 5.0)]);
    check_boxes(&node);
}

#[test]
fn objects_with_equal_keys_keep_their_order() {
    let mut objects: Vec<Arc<Hittables>> = Vec::new();
    for (x, y) in [(1.0, 0.0), (0.0, 1.0), (1.0, 2.0), (0.0, 3.0), (1.0, 4.0), (0.0, 5.0)] {
        objects.push(sphere(v(x, y, 0.0), 0.25));
    }
    BVHNode::sort_range(&mut objects, 0, 6, 0);
    let ys: Vec<f64> = objects
        .iter()
        .map(|o| match &**o {
            Hittables::Sphere(sp) => f(sp.center.origin.y),
            _ => panic!("a sphere was expected"),
        })
        .collect();
    assert_eq!(ys, vec![1.0, 3.0, 5.0, 0.0, 2.0, 4.0]);
}

#[test]
fn sorting_a_range_leaves_the_rest_alone() {
    let mut objects: Vec<Arc<Hittables>> = Vec::new();
    for x in [9.0, 8.0, 7.0, 6.0, 5.0, 4.0] {
        objects.push(sphere(v(x, 0.0, 0.0), 0.25));
    }
    BVHNode::sort_range(&mut objects, 1, 5, 0);
    let xs: Vec<f64> = objects.iter().map(|o| center_x(o)).collect();
    assert_eq!(xs, vec![9.0, 5.0, 6.0, 7.0, 8.0, 4.0]);
    BVHNode::sort_range(&mut objects, 2, 2, 0);
    let xs: Vec<f64> = objects.iter().map(|o| center_x(o)).collect();
    assert_eq!(xs, vec![9.0, 5.0, 6.0, 7.0, 8.0, 4.0]);
}

#[test]
fn sorting_keeps_every_object_whatever_the_keys() {
    let mut objects: Vec<Arc<Hittables>> = Vec::new();
    for x in [3.0, f64::NAN, 1.0, f64::INFINITY, f64::NAN, -2.0, f64::NEG_INFINITY, 1.0] {
        objects.push(sphere(v(x, 0.0, 0.0), 0.0));
    }
    let given = objects.clone();
    BVHNode::sort_range(&mut objects, 0, 8, 0);
    assert_eq!(objects.len(), 8);
    for o in given.iter() {
        assert_eq!(objects.iter().filter(|x| Arc::ptr_eq(x, o)).count(), 1);
    }
    let mut list = HittableList::empty();
    for o in given.iter() {
        list.add(o.clone());
    }
    let node = BVHNode::from_list(&mut list, &size);
    let mut in_tree = Vec::new();
    leaves(&node, &mut in_tree);
    assert_eq!(in_tree.len(), 8);
    for o in given.iter() {
        assert_eq!(in_tree.iter().filter(|x| Arc::ptr_eq(x, o)).count(), 1);
    }
}

#[test]
fn box_compare_is_strict() {
    let a = sphere(v(0.0, 5.0, 1.0), 0.5);
    let b = sphere(v(1.0, 5.0, 0.0), 0.5);
    assert!(BVHNode::box_compare(&a, &b, 0));
    assert!(!BVHNode::box_compare(&b, &a, 0));
    assert!(!BVHNode::box_compare(&a, &b, 1));
    assert!(!BVHNode::box_compare(&b, &a, 1));
    assert!(BVHNode::box_compare(&b, &a, 2));
    assert!(!BVHNode::box_compare(&a, &b, 2));
    let nowhere = sphere(v(f64::NAN, 0.0, 0.0), 0.5);
    assert!(!BVHNode::box_compare(&a, &nowhere, 0));
    assert!(!BVHNode::box_compare(&nowhere, &a, 0));
}

#[test]
fn bounds_span_the_range() {
    let objects = vec![
        sphere(v(0.0, 0.0, 0.0), 1.0),
        sphere(v(5.0, 1.0, 0.0), 1.0),
        sphere(v(-3.0, 0.0, 2.0), 0.5),
    ];
    assert_eq!(BVHNode::bounds(&objects, 0, 3), AABB::new(iv(-3.5, 6.0), iv(-1.0, 2.0), iv(-1.0, 2.5)));
    assert_eq!(BVHNode::bounds(&objects, 1, 2), AABB::new(iv(4.0, 6.0), iv(0.0, 2.0), iv(-1.0, 1.0)));
    assert_eq!(BVHNode::bounds(&objects, 1, 1), AABB::empty());
}

#[test]
fn every_node_box_holds_what_is_below() {
    let mut rng = Lcg(7);
    let mut list = HittableList::empty();
    for _ in 0..37 {
        let c = v(rng.between(-10.0, 10.0), rng.between(-10.0, 10.0), rng.between(-10.0, 10.0));
        list.add(sphere(c, rng.between(0.1, 2.0)));
    }
    let before: Vec<Arc<Hittables>> = list.objects.clone();
    let node = BVHNode::from_list(&mut list, &size);
    check_boxes(&node);
    assert_eq!(node.bounding_box(), span_of(&before));
    assert_eq!(list.objects.len(), before.len());
    for o in before.iter() {
        assert_eq!(list.objects.iter().filter(|x| Arc::ptr_eq(x, o)).count(), 1);
    }
}

#[test]
fn the_tree_finds_what_the_scan_finds() {
    let mut rng = Lcg(2024);
    let mut hits = 0;
    for scene in 0..20 {
        let mut list = HittableList::empty();
        let count = 1 + (scene * 7) % 40;
        for _ in 0..count {
            let c = v(rng.between(-8.0, 8.0), rng.between(-8.0, 8.0), rng.between(-8.0, 8.0));
            list.add(sphere(c, rng.between(0.2, 3.0)));
        }
        let plain = list.into_hittable();
        let tree = list.create_bvh(&size);
        for _ in 0..200 {
            let origin = v(rng.between(-12.0, 12.0), rng.between(-12.0, 12.0), rng.between(-12.0, 12.0));
            let direction = v(rng.between(-1.0, 1.0), rng.between(-1.0, 1.0), rng.between(-1.0, 1.0));
            let ray = Ray::new(origin, direction);
            let interval = iv(0.001, rng.between(1.0, 60.0));
            let by_scan = ask(&plain, &ray, interval);
            let by_tree = ask(&tree, &ray, interval);
            assert_eq!(by_scan.is_some(), by_tree.is_some());
            if let (Some(a), Some(b)) = (by_scan, by_tree) {
                assert_eq!(a.t, b.t);
                assert_eq!(a.point, b.point);
                hits += 1;
            }
        }
    }
    assert!(hits > 200);
}

#[test]
fn the_tree_finds_what_the_scan_finds_along_the_axes() {
    let mut list = HittableList::empty();
    for i in 0..4 {
        for j in 0..4 {
            list.add(sphere(v(i as f64 * 2.0, j as f64 * 2.0, -5.0), 0.75));
        }
    }
    let plain = list.into_hittable();
    let tree = list.create_bvh(&size);
    for i in 0..16 {
        for j in 0..16 {
            let ray = Ray::new(v(i as f64 * 0.5 - 0.75, j as f64 * 0.5 - 0.75, 0.0), v(0.0, 0.0, -1.0));
            let by_scan = ask(&plain, &ray, iv(0.001, f64::INFINITY));
            let by_tree = ask(&tree, &ray, iv(0.001, f64::INFINITY));
            assert_eq!(by_scan.map(|h| h.t), by_tree.map(|h| h.t));
        }
    }
}

#[test]
fn a_ray_that_misses_the_box_asks_no_object() {
    let mut list = HittableList::empty();
    list.add(sphere(v(0.0, 0.0, -5.0), 1.0));
    list.add(sphere(v(3.0, 0.0, -5.0), 1.0));
    let node = BVHNode::from_list(&mut list, &size);
    let asked = Cell::new(0);
    let counting = |o: &Hittables, r: &Ray, i: Interval| {
        asked.set(asked.get() + 1);
        ask(o, r, i)
    };
    let away = Ray::new(v(0.0, 10.0, 0.0), v(0.0, 0.0, -1.0));
    assert!(node.hit(&away, iv(0.001, f64::INFINITY), &crossing, &counting).is_none());
    assert_eq!(asked.get(), 0);
    let at_first = Ray::new(v(0.0, 0.0, 0.0), v(0.0, 0.0, -1.0));
    assert_eq!(node.hit(&at_first, iv(0.001, f64::INFINITY), &crossing, &counting).unwrap().t, s(4.0));
    assert_eq!(asked.get(), 1);
}

#[test]
fn the_right_child_is_asked_up_to_the_left_hit_and_replaces_it() {
    let near = Hittables::new_quad(
        v(-1.0, -1.0, -2.0),
        v(2.0, 0.0, 0.0),
        v(0.0, 2.0, 0.0),
        Materials::lambertian_solid(v(1.0, 0.0, 0.0)),
        &quad_frame(v(-1.0, -1.0, -2.0), v(2.0, 0.0, 0.0), v(0.0, 2.0, 0.0)),
        &size,
        &widen,
    );
    let same = Hittables::new_quad(
        v(-1.0, -1.0, -2.0),
        v(2.0, 0.0, 0.0),
        v(0.0, 2.0, 0.0),
        Materials::lambertian_solid(v(0.0, 1.0, 0.0)),
        &quad_frame(v(-1.0, -1.0, -2.0), v(2.0, 0.0, 0.0), v(0.0, 2.0, 0.0)),
        &size,
        &widen,
    );
    let mut list = HittableList::empty();
    list.add(near.clone());
    list.add(same.clone());
    let node = BVHNode::from_list(&mut list, &size);
    let seen: Cell<Vec<f64>> = Cell::new(Vec::new());
    let recording = |o: &Hittables, r: &Ray, i: Interval| {
        let mut so_far = seen.take();
        so_far.push(f(i.max));
        seen.set(so_far);
        ask(o, r, i)
    };
    let ray = Ray::new(v(0.0, 0.0, 0.0), v(0.0, 0.0, -1.0));
    let hit = node.hit(&ray, iv(0.001, 50.0), &crossing, &recording).expect("the quads are hit");
    assert_eq!(seen.take(), vec![50.0, 2.0]);
    assert_eq!(hit.t, s(2.0));
    let second = match &*same {
        Hittables::Quad(q) => q.mat.clone(),
        _ => panic!("a quad was expected"),
    };
    assert!(Arc::ptr_eq(&hit.mat, &second));
    let by_scan = list.hit(&ray, iv(0.001, 50.0), &ask).expect("the quads are hit");
    assert!(Arc::ptr_eq(&by_scan.mat, &second));
}

#[test]
fn a_scan_keeps_the_nearest_hit() {
    let mut list = HittableList::empty();
    list.add(sphere(v(0.0, 0.0, -9.0), 1.0));
    list.add(sphere(v(0.0, 0.0, -3.0), 1.0));
    list.add(sphere(v(0.0, 0.0, -6.0), 1.0));
    let ray = Ray::new(v(0.0, 0.0, 0.0), v(0.0, 0.0, -1.0));
    assert_eq!(list.hit(&ray, iv(0.001, f64::INFINITY), &ask).unwrap().t, s(2.0));
    assert_eq!(list.hit(&ray, iv(4.5, f64::INFINITY), &ask).unwrap().t, s(5.0));
    assert!(list.hit(&ray, iv(0.001, 1.5), &ask).is_none());
    assert!(HittableList::empty().hit(&ray, iv(0.001, f64::INFINITY), &ask).is_none());
}

#[test]
fn a_list_grows_its_box_as_objects_are_added() {
    let mut list = HittableList::empty();
    assert_eq!(*list.bounding_box(), AABB::empty());
    list.add(sphere(v(0.0, 0.0, 0.0), 1.0));
    assert_eq!(*list.bounding_box(), AABB::new(iv(-1.0, 1.0), iv(-1.0, 1.0), iv(-1.0, 1.0)));
    list.add_sphere(v(4.0, 0.0, 0.0), s(0.5), grey(), v(3.5, -0.5, -0.5), v(4.5, 0.5, 0.5));
    assert_eq!(*list.bounding_box(), AABB::new(iv(-1.0, 4.5), iv(-1.0, 1.0), iv(-1.0, 1.0)));
    assert_eq!(list.objects.len(), 2);
    let mut more = HittableList::empty();
    more.add(sphere(v(0.0, -7.0, 0.0), 1.0));
    list.append(&mut more);
    assert_eq!(list.objects.len(), 3);
    assert_eq!(more.objects.len(), 0);
    assert_eq!(*list.bounding_box(), AABB::new(iv(-1.0, 4.5), iv(-8.0, 1.0), iv(-1.0, 1.0)));
}

#[test]
fn a_list_as_an_object_shares_its_objects() {
    let mut list = HittableList::empty();
    list.add(sphere(v(0.0, 0.0, 0.0), 1.0));
    list.add(sphere(v(4.0, 0.0, 0.0), 1.0));
    let whole = list.into_hittable();
    match &*whole {
        Hittables::List(l) => {
            assert_eq!(l.objects.len(), 2);
            assert!(Arc::ptr_eq(&l.objects[0], &list.objects[0]));
            assert!(Arc::ptr_eq(&l.objects[1], &list.objects[1]));
            assert_eq!(l.bbox, list.bbox);
        }
        _ => panic!("a list was expected"),
    }
    assert_eq!(whole.bounding_box(), *list.bounding_box());
}

#[test]
fn a_list_wraps_each_object_when_moved_or_turned() {
    let shift = |b: AABB, o: Vec3| {
        AABB::new(
            Interval::new(s(f(b.x.min) + f(o.x)), s(f(b.x.max) + f(o.x))),
            Interval::new(s(f(b.y.min) + f(o.y)), s(f(b.y.max) + f(o.y))),
            Interval::new(s(f(b.z.min) + f(o.z)), s(f(b.z.max) + f(o.z))),
        )
    };
    let mut list = HittableList::empty();
    list.add(sphere(v(0.0, 0.0, 0.0), 1.0));
    list.add(sphere(v(4.0, 0.0, 0.0), 1.0));
    let given = list.objects.clone();
    let box_before = list.bbox;
    list.translate(v(0.0, 10.0, 0.0), &shift);
    assert_eq!(list.objects.len(), 2);
    for (wrapped, inner) in list.objects.iter().zip(given.iter()) {
        match &**wrapped {
            Hittables::Translate(t) => {
                assert!(Arc::ptr_eq(&t.object, inner));
                assert_eq!(t.offset, v(0.0, 10.0, 0.0));
                assert_eq!(t.bbox.y, iv(9.0, 11.0));
            }
            _ => panic!("a moved object was expected"),
        }
    }
    assert_eq!(box_before, AABB::new(iv(-1.0, 5.0), iv(-1.0, 1.0), iv(-1.0, 1.0)));
    assert_eq!(list.bbox, AABB::new(iv(-1.0, 5.0), iv(9.0, 11.0), iv(-1.0, 1.0)));
    let half_turn = |b: AABB, x: bool, y: bool, z: bool| {
        let px = if x { f(b.x.max) } else { f(b.x.min) };
        let py = if y { f(b.y.max) } else { f(b.y.min) };
        let pz = if z { f(b.z.max) } else { f(b.z.min) };
        v(-px, py, -pz)
    };
    let moved = list.objects.clone();
    list.rotate_y(s(0.0), s(-1.0), &half_turn);
    for (wrapped, inner) in list.objects.iter().zip(moved.iter()) {
        match &**wrapped {
            Hittables::RotY(r) => {
                assert!(Arc::ptr_eq(&r.object, inner));
                assert_eq!((r.sin_theta, r.cos_theta), (s(0.0), s(-1.0)));
                assert_eq!(r.bbox.y, iv(9.0, 11.0));
            }
            _ => panic!("a turned object was expected"),
        }
    }
    match &*list.objects[1] {
        Hittables::RotY(r) => assert_eq!(r.bbox.x, iv(-5.0, -3.0)),
        _ => panic!("a turned object was expected"),
    }
    assert_eq!(list.bbox, AABB::new(iv(-5.0, 1.0), iv(9.0, 11.0), iv(-1.0, 1.0)));
}

#[test]
fn a_moved_list_is_found_in_a_hierarchy_where_it_was_moved_to() {
    let shift = |b: AABB, o: Vec3| {
        AABB::new(
            Interval::new(s(f(b.x.min) + f(o.x)), s(f(b.x.max) + f(o.x))),
            Interval::new(s(f(b.y.min) + f(o.y)), s(f(b.y.max) + f(o.y))),
            Interval::new(s(f(b.z.min) + f(o.z)), s(f(b.z.max) + f(o.z))),
        )
    };
    let mut pair = HittableList::empty();
    pair.add(sphere(v(0.0, 0.0, -5.0), 1.0));
    pair.add(sphere(v(3.0, 0.0, -5.0), 1.0));
    pair.translate(v(0.0, 20.0, 0.0), &shift);
    let moved = pair.into_hittable();
    assert_eq!(moved.bounding_box(), AABB::new(iv(-1.0, 4.0), iv(19.0, 21.0), iv(-6.0, -4.0)));
    let mut world = HittableList::empty();
    world.add(moved);
    world.add(sphere(v(0.0, 0.0, -5.0), 1.0));
    world.add(sphere(v(-9.0, -9.0, -5.0), 1.0));
    let plain = world.into_hittable();
    let tree = world.create_bvh(&size);
    for (x, y) in [(0.0, 20.0), (3.0, 20.5), (0.0, 0.0), (1.5, 20.0), (-9.0, -9.0), (0.0, 10.0)] {
        let ray = Ray::new(v(x, y, 0.0), v(0.0, 0.0, -1.0));
        let by_scan = ask(&plain, &ray, iv(0.001, f64::INFINITY));
        let by_tree = ask(&tree, &ray, iv(0.001, f64::INFINITY));
        assert_eq!(by_scan.map(|h| h.t), by_tree.map(|h| h.t));
    }
    let at_moved = Ray::new(v(0.0, 20.0, 0.0), v(0.0, 0.0, -1.0));
    let hit = ask(&tree, &at_moved, iv(0.001, f64::INFINITY)).expect("the moved sphere is hit");
    assert_eq!(hit.t, s(4.0));
    assert_eq!(hit.point, v(0.0, 20.0, -4.0));
}

#[test]
fn a_medium_is_added_with_the_box_of_its_boundary() {
    let mut list = HittableList::empty();
    let boundary = sphere(v(0.0, 0.0, 0.0), 2.0);
    list.add_solid_medium(boundary.clone(), s(-1.0 / 0.01), v(1.0, 1.0, 1.0));
    match &*list.objects[0] {
        Hittables::Medium(m) => {
            assert!(Arc::ptr_eq(&m.boundary, &boundary));
            assert_eq!(m.neg_inv_density, s(-100.0));
        }
        _ => panic!("a medium was expected"),
    }
    assert_eq!(*list.bounding_box(), AABB::new(iv(-2.0, 2.0), iv(-2.0, 2.0), iv(-2.0, 2.0)));
}

#[test]
fn a_nested_hierarchy_is_an_object_with_the_box_of_its_root() {
    let mut inner = HittableList::empty();
    inner.add(sphere(v(0.0, 0.0, 0.0), 1.0));
    inner.add(sphere(v(4.0, 0.0, 0.0), 1.0));
    let tree = inner.create_bvh(&size);
    assert_eq!(tree.bounding_box(), AABB::new(iv(-1.0, 5.0), iv(-1.0, 1.0), iv(-1.0, 1.0)));
    let mut world = HittableList::empty();
    world.add(Arc::new(tree));
    world.add_moving_sphere(
        v(0.0, 5.0, 0.0),
        v(0.0, 1.0, 0.0),
        s(1.0),
        grey(),
        v(-1.0, 4.0, -1.0),
        v(1.0, 6.0, 1.0),
        v(-1.0, 5.0, -1.0),
        v(1.0, 7.0, 1.0),
    );
    assert_eq!(*world.bounding_box(), AABB::new(iv(-1.0, 5.0), iv(-1.0, 7.0), iv(-1.0, 1.0)));
    let ray = Ray::new(v(4.0, 0.0, 10.0), v(0.0, 0.0, -1.0));
    assert_eq!(world.hit(&ray, iv(0.001, f64::INFINITY), &ask).unwrap().t, s(9.0));
}
