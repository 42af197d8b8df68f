use raytracer::aabb::AABB;
use raytracer::constant_medium::{Flight, Medium};
use raytracer::hit_record::{HitRecord, Surface};
use raytracer::hittables::{HittableList, Hittables};
use raytracer::interval::Interval;
use raytracer::materials::Materials;
use raytracer::quad::{Frame, Quad};
use raytracer::ray::Ray;
use raytracer::scalar::Scalar;
use raytracer::sphere::Sphere;
use raytracer::translation::{RotateY, Translate};
use raytracer::vec3::{Point3, Vec3};
use std::sync::Arc;

fn s(x: f64) -> Scalar {
    Scalar::from_bits(x.to_bits())
}

fn f(x: Scalar) -> f64 {
    f64::from_bits(x.to_bits())
}

fn v(x: f64, y: f64, z: f64) -> Vec3 {
    Vec3::new(s(x), s(y), s(z))
}

fn iv(min: f64, max: f64) -> Interval {
    Interval::new(s(min), s(max))
}

fn plus(a: Vec3, b: Vec3) -> Vec3 {
    v(f(a.x) + f(b.x), f(a.y) + f(b.y), f(a.z) + f(b.z))
}

fn minus(a: Vec3, b: Vec3) -> Vec3 {
    v(f(a.x) - f(b.x), f(a.y) - f(b.y), f(a.z) - f(b.z))
}

fn times(k: f64, a: Vec3) -> Vec3 {
    v(f(a.x) * k, f(a.y) * k, f(a.z) * k)
}

fn over(a: Vec3, k: f64) -> Vec3 {
    v(f(a.x) / k, f(a.y) / k, f(a.z) / k)
}

fn dot(a: Vec3, b: Vec3) -> f64 {
    f(a.x) * f(b.x) + f(a.y) * f(b.y) + f(a.z) * f(b.z)
}

fn cross(a: Vec3, b: Vec3) -> Vec3 {
    v(
        f(a.y) * f(b.z) - f(a.z) * f(b.y),
        f(a.z) * f(b.x) - f(a.x) * f(b.z),
        f(a.x) * f(b.y) - f(a.y) * f(b.x),
    )
}

fn at(ray: &Ray, t: f64) -> Point3 {
    plus(ray.origin, times(t, ray.direction))
}

fn size(i: Interval) -> Scalar {
    s(f(i.max) - f(i.min))
}

fn widen(i: Interval, thickness: Scalar) -> Interval {
    let padding = (f(thickness) - (f(i.max) - f(i.min))) / 2.;
    Interval::new(s(f(i.min) - padding), s(f(i.max) + padding))
}

fn grey() -> Arc<Materials> {
    Materials::lambertian_solid(v(0.5, 0.5, 0.5))
}

fn static_sphere(center: Point3, radius: f64) -> Sphere {
    let rvec = v(radius, radius, radius);
    Sphere::new_static(center, s(radius), grey(), minus(center, rvec), plus(center, rvec))
}

fn sphere_hit(sphere: &Sphere, ray: &Ray, interval: Interval) -> Option<HitRecord> {
    let center = at(&sphere.center, f(ray.time));
    let radius = f(sphere.radius);
    let oc = minus(center, ray.origin);
    let a = dot(ray.direction, ray.direction);
    let h = dot(ray.direction, oc);
    let c = dot(oc, oc) - radius * radius;
    let discriminant = h * h - a * c;
    let sqrtd = discriminant.sqrt();
    let surface = |t: Scalar| {
        let point = at(ray, f(t));
        let normal = over(minus(point, center), radius);
        let theta = (-f(normal.y)).acos();
        let phi = (-f(normal.z)).atan2(f(normal.x)) + std::f64::consts::PI;
        Surface {
            point,
            outward_normal: normal,
            reversed_normal: times(-1.0, normal),
            facing: s(dot(ray.direction, normal)),
            u: s(phi / (2. * std::f64::consts::PI)),
            v: s(theta / std::f64::consts::PI),
        }
    };
    sphere.hit(interval, s(discriminant), s((h - sqrtd) / a), s((h + sqrtd) / a), &surface)
}

fn quad_frame(q: Point3, u: Vec3, w: Vec3) -> Frame {
    let n = cross(u, w);
    let normal = over(n, dot(n, n).sqrt());
    Frame {
        corner_u: plus(q, u),
        corner_v: plus(q, w),
        corner_uv: plus(plus(q, u), w),
        normal,
        d: s(dot(normal, q)),
        w: over(n, dot(n, n)),
    }
}

fn quad(q: Point3, u: Vec3, w: Vec3) -> Quad {
    Quad::new(q, u, w, grey(), &quad_frame(q, u, w), &size, &widen)
}

fn quad_hit(quad: &Quad, ray: &Ray, interval: Interval) -> Option<HitRecord> {
    let denom = dot(quad.normal, ray.direction);
    let t = (f(quad.d) - dot(quad.normal, ray.origin)) / denom;
    let intersection = at(ray, t);
    let planar = minus(intersection, quad.q);
    let alpha = dot(quad.w, cross(planar, quad.v));
    let beta = dot(quad.w, cross(quad.u, planar));
    quad.hit(interval, s(denom), s(t), s(alpha), s(beta), intersection, times(-1.0, quad.normal))
}

#[test]
fn sphere_is_hit_head_on() {
    let sphere = static_sphere(v(0.0, 0.0, -1.0), 0.5);
    let ray = Ray::new(v(0.0, 0.0, 0.0), v(0.0, 0.0, -1.0));
    let hit = sphere_hit(&sphere, &ray, iv(0.001, f64::INFINITY)).expect("the ray hits");
    assert_eq!(hit.t, s(0.5));
    assert_eq!(hit.normal, v(0.0, 0.0, 1.0));
    assert_eq!(hit.point, v(0.0, 0.0, -0.5));
    assert!(hit.front_face);
    assert!(Arc::ptr_eq(&hit.mat, &sphere.mat));
}

#[test]
fn sphere_is_missed_beside() {
    let sphere = static_sphere(v(0.0, 0.0, -1.0), 0.5);
    let ray = Ray::new(v(0.0, 1.0, 0.0), v(0.0, 0.0, -1.0));
    assert!(sphere_hit(&sphere, &ray, iv(0.001, f64::INFINITY)).is_none());
}

#[test]
fn sphere_far_root_is_taken_from_inside() {
    let sphere = static_sphere(v(0.0, 0.0, 0.0), 2.0);
    let ray = Ray::new(v(0.0, 0.0, 0.0), v(1.0, 0.0, 0.0));
    let hit = sphere_hit(&sphere, &ray, iv(0.001, f64::INFINITY)).expect("the ray leaves the sphere");
    assert_eq!(hit.t, s(2.0));
    assert!(!hit.front_face);
    assert_eq!(hit.normal, v(-1.0, -0.0, -0.0));
}

#[test]
fn sphere_roots_outside_the_interval_do_not_count() {
    let sphere = static_sphere(v(0.0, 0.0, -5.0), 1.0);
    let ray = Ray::new(v(0.0, 0.0, 0.0), v(0.0, 0.0, -1.0));
    assert_eq!(sphere_hit(&sphere, &ray, iv(0.001, 100.0)).unwrap().t, s(4.0));
    assert_eq!(sphere_hit(&sphere, &ray, iv(4.5, 100.0)).unwrap().t, s(6.0));
    assert!(sphere_hit(&sphere, &ray, iv(0.001, 4.0)).is_none());
    assert!(sphere_hit(&sphere, &ray, iv(4.0, 6.0)).is_none());
    assert!(sphere_hit(&sphere, &ray, iv(6.5, 100.0)).is_none());
}

#[test]
fn sphere_decision_by_the_numbers() {
    let sphere = static_sphere(v(0.0, 0.0, 0.0), 1.0);
    let surface = |t: Scalar| Surface {
        point: v(f(t), 0.0, 0.0),
        outward_normal: v(1.0, 0.0, 0.0),
        reversed_normal: v(-1.0, 0.0, 0.0),
        facing: s(-1.0),
        u: s(0.25),
        v: s(0.75),
    };
    let i = iv(0.0, 10.0);
    assert!(sphere.hit(i, s(-1.0), s(1.0), s(2.0), &surface).is_none());
    assert!(sphere.hit(i, s(f64::NAN), s(f64::NAN), s(f64::NAN), &surface).is_none());
    let near = sphere.hit(i, s(0.0), s(1.0), s(2.0), &surface).unwrap();
    assert_eq!((near.t, near.point, near.u, near.v), (s(1.0), v(1.0, 0.0, 0.0), s(0.25), s(0.75)));
    assert_eq!(near.normal, v(1.0, 0.0, 0.0));
    assert!(near.front_face);
    assert_eq!(sphere.hit(i, s(4.0), s(-1.0), s(2.0), &surface).unwrap().t, s(2.0));
    assert!(sphere.hit(i, s(4.0), s(0.0), s(10.0), &surface).is_none());
    assert!(sphere.hit(i, s(4.0), s(-2.0), s(-1.0), &surface).is_none());
}

#[test]
fn static_sphere_box_is_the_box_of_its_corners() {
    let sphere = static_sphere(v(1.0, 2.0, 3.0), 0.5);
    assert_eq!(*sphere.bounding_box(), AABB::new(iv(0.5, 1.5), iv(1.5, 2.5), iv(2.5, 3.5)));
    assert_eq!(sphere.center, Ray::new(v(1.0, 2.0, 3.0), v(0.0, 0.0, 0.0)));
    assert_eq!(sphere.radius, s(0.5));
}

#[test]
fn moving_sphere_box_spans_both_ends() {
    let sphere = Sphere::new_moving(
        v(0.0, 0.0, 0.0),
        v(2.0, 0.0, 0.0),
        s(1.0),
        grey(),
        v(-1.0, -1.0, -1.0),
        v(1.0, 1.0, 1.0),
        v(1.0, -1.0, -1.0),
        v(3.0, 1.0, 1.0),
    );
    assert_eq!(*sphere.bounding_box(), AABB::new(iv(-1.0, 3.0), iv(-1.0, 1.0), iv(-1.0, 1.0)));
    assert_eq!(sphere.center, Ray::new(v(0.0, 0.0, 0.0), v(2.0, 0.0, 0.0)));
}

#[test]
fn moving_sphere_is_hit_where_it_is_at_the_time_of_the_ray() {
    let sphere = Sphere::new_moving(
        v(0.0, 0.0, -5.0),
        v(4.0, 0.0, 0.0),
        s(1.0),
        grey(),
        v(-1.0, -1.0, -6.0),
        v(1.0, 1.0, -4.0),
        v(3.0, -1.0, -6.0),
        v(5.0, 1.0, -4.0),
    );
    let early = Ray::new_time(v(0.0, 0.0, 0.0), v(0.0, 0.0, -1.0), s(0.0));
    let late = Ray::new_time(v(0.0, 0.0, 0.0), v(0.0, 0.0, -1.0), s(1.0));
    assert_eq!(sphere_hit(&sphere, &early, iv(0.001, f64::INFINITY)).unwrap().t, s(4.0));
    assert!(sphere_hit(&sphere, &late, iv(0.001, f64::INFINITY)).is_none());
}

#[test]
fn quad_is_hit_inside_and_missed_outside() {
    let q = quad(v(-1.0, -1.0, -2.0), v(2.0, 0.0, 0.0), v(0.0, 2.0, 0.0));
    let ray = Ray::new(v(0.5, -0.5, 0.0), v(0.0, 0.0, -1.0));
    let hit = quad_hit(&q, &ray, iv(0.001, f64::INFINITY)).expect("the ray hits the quad");
    assert_eq!(hit.t, s(2.0));
    assert_eq!(hit.point, v(0.5, -0.5, -2.0));
    assert_eq!((hit.u, hit.v), (s(0.75), s(0.25)));
    assert_eq!(hit.normal, v(0.0, 0.0, 1.0));
    assert!(hit.front_face);
    let beside = Ray::new(v(1.5, 0.0, 0.0), v(0.0, 0.0, -1.0));
    assert!(quad_hit(&q, &beside, iv(0.001, f64::INFINITY)).is_none());
}

#[test]
fn quad_is_never_hit_by_a_parallel_ray() {
    let q = quad(v(-1.0, -1.0, -2.0), v(2.0, 0.0, 0.0), v(0.0, 2.0, 0.0));
    for offset in [-5.0, -2.0, -1.999, 0.0, 3.0] {
        for direction in [v(1.0, 0.0, 0.0), v(0.0, -1.0, 0.0), v(3.0, 4.0, 0.0)] {
            let ray = Ray::new(v(0.0, 0.0, offset), direction);
            assert!(quad_hit(&q, &ray, Interval::universe()).is_none());
        }
    }
}

#[test]
fn quad_decision_by_the_numbers() {
    let q = quad(v(0.0, 0.0, 0.0), v(1.0, 0.0, 0.0), v(0.0, 1.0, 0.0));
    let i = iv(0.0, 10.0);
    let p = v(0.5, 0.5, 0.0);
    let back = v(0.0, 0.0, -1.0);
    for denom in [0.0, -0.0, 9.9e-9, -9.9e-9] {
        assert!(q.hit(i, s(denom), s(1.0), s(0.5), s(0.5), p, back).is_none());
    }
    assert!(q.hit(i, s(1e-8), s(1.0), s(0.5), s(0.5), p, back).is_some());
    assert!(q.hit(i, s(1.0), s(10.0), s(0.5), s(0.5), p, back).is_some());
    assert!(q.hit(i, s(1.0), s(0.0), s(0.5), s(0.5), p, back).is_some());
    assert!(q.hit(i, s(1.0), s(10.5), s(0.5), s(0.5), p, back).is_none());
    assert!(q.hit(i, s(1.0), s(-0.5), s(0.5), s(0.5), p, back).is_none());
    assert!(q.hit(i, s(1.0), s(f64::NAN), s(0.5), s(0.5), p, back).is_none());
    assert!(q.hit(i, s(1.0), s(1.0), s(0.0), s(1.0), p, back).is_some());
    assert!(q.hit(i, s(1.0), s(1.0), s(1.001), s(0.5), p, back).is_none());
    assert!(q.hit(i, s(1.0), s(1.0), s(0.5), s(-0.001), p, back).is_none());
    let from_behind = q.hit(i, s(1.0), s(2.0), s(0.25), s(0.75), p, back).unwrap();
    assert!(!from_behind.front_face);
    assert_eq!(from_behind.normal, back);
    assert_eq!((from_behind.t, from_behind.u, from_behind.v), (s(2.0), s(0.25), s(0.75)));
    let from_front = q.hit(i, s(-1.0), s(2.0), s(0.25), s(0.75), p, back).unwrap();
    assert!(from_front.front_face);
    assert_eq!(from_front.normal, q.normal);
}

#[test]
fn quad_interior_is_the_closed_unit_square() {
    assert!(Quad::is_interior(s(0.0), s(0.0)));
    assert!(Quad::is_interior(s(1.0), s(1.0)));
    assert!(Quad::is_interior(s(0.5), s(0.25)));
    assert!(!Quad::is_interior(s(-0.1), s(0.5)));
    assert!(!Quad::is_interior(s(0.5), s(1.1)));
    assert!(!Quad::is_interior(s(f64::NAN), s(0.5)));
}

#[test]
fn quad_box_is_padded_where_it_is_flat() {
    let q = quad(v(-1.0, -1.0, -2.0), v(2.0, 0.0, 0.0), v(0.0, 2.0, 0.0));
    let b = q.bounding_box();
    assert_eq!(b.x, iv(-1.0, 1.0));
    assert_eq!(b.y, iv(-1.0, 1.0));
    assert_eq!(b.z, iv(-2.0 - 0.00005, -2.0 + 0.00005));
    assert_eq!(q.normal, v(0.0, 0.0, 1.0));
    assert_eq!(q.d, s(-2.0));
}

#[test]
fn quad_box_spans_both_diagonals() {
    let q = quad(v(0.0, 0.0, 0.0), v(2.0, 1.0, 0.0), v(-1.0, 1.0, 3.0));
    let b = q.bounding_box();
    assert_eq!(b.x, iv(-1.0, 2.0));
    assert_eq!(b.y, iv(0.0, 2.0));
    assert_eq!(b.z, iv(0.0, 3.0));
}

#[test]
fn face_normal_is_turned_against_the_ray() {
    let outward = v(0.0, 1.0, 0.0);
    let reversed = v(0.0, -1.0, 0.0);
    let mut h = HitRecord::on(
        s(1.0),
        &Surface {
            point: v(0.0, 0.0, 0.0),
            outward_normal: outward,
            reversed_normal: reversed,
            facing: s(-0.5),
            u: s(0.0),
            v: s(0.0),
        },
        grey(),
    );
    assert!(h.front_face);
    assert_eq!(h.normal, outward);
    h.set_face_normal(s(0.5), &outward, &reversed);
    assert!(!h.front_face);
    assert_eq!(h.normal, reversed);
    h.set_face_normal(s(0.0), &outward, &reversed);
    assert!(!h.front_face);
    h.set_face_normal(s(f64::NAN), &outward, &reversed);
    assert!(!h.front_face);
    assert_eq!(h.t, s(1.0));
}

#[test]
fn translate_takes_the_ray_back_and_the_point_forward() {
    let sphere = Arc::new(Hittables::Sphere(static_sphere(v(0.0, 0.0, -1.0), 0.5)));
    let offset = v(3.0, 0.0, 0.0);
    let shift = |b: AABB, o: Vec3| {
        AABB::new(
            Interval::new(s(f(b.x.min) + f(o.x)), s(f(b.x.max) + f(o.x))),
            Interval::new(s(f(b.y.min) + f(o.y)), s(f(b.y.max) + f(o.y))),
            Interval::new(s(f(b.z.min) + f(o.z)), s(f(b.z.max) + f(o.z))),
        )
    };
    let moved = Translate::new(sphere, offset, &shift);
    assert_eq!(*moved.bounding_box(), AABB::new(iv(2.5, 3.5), iv(-0.5, 0.5), iv(-1.5, -0.5)));
    let inner = |o: &Hittables, r: &Ray, i: Interval| match o {
        Hittables::Sphere(sp) => sphere_hit(sp, r, i),
        _ => None,
    };
    let ray = Ray::new(v(3.0, 0.0, 0.0), v(0.0, 0.0, -1.0));
    let hit = moved.hit(&ray, iv(0.001, f64::INFINITY), &minus, &plus, &inner).expect("hit");
    assert_eq!(hit.t, s(0.5));
    assert_eq!(hit.point, v(3.0, 0.0, -0.5));
    assert_eq!(hit.normal, v(0.0, 0.0, 1.0));
    let unmoved = Ray::new(v(0.0, 0.0, 0.0), v(0.0, 0.0, -1.0));
    assert!(moved.hit(&unmoved, iv(0.001, f64::INFINITY), &minus, &plus, &inner).is_none());
}

fn quarter_turn_corner(b: AABB, x: bool, y: bool, z: bool) -> Point3 {
    let px = if x { f(b.x.max) } else { f(b.x.min) };
    let py = if y { f(b.y.max) } else { f(b.y.min) };
    let pz = if z { f(b.z.max) } else { f(b.z.min) };
    v(pz, py, -px)
}

#[test]
fn rotate_box_is_the_box_of_the_turned_corners() {
    let sphere = Arc::new(Hittables::Sphere(static_sphere(v(2.0, 0.0, 0.0), 0.5)));
    let turned = RotateY::new(sphere, s(1.0), s(0.0), &quarter_turn_corner);
    assert_eq!(*turned.bounding_box(), AABB::new(iv(-0.5, 0.5), iv(-0.5, 0.5), iv(-2.5, -1.5)));
    assert_eq!((turned.sin_theta, turned.cos_theta), (s(1.0), s(0.0)));
}

#[test]
fn rotate_turns_the_ray_in_and_the_hit_out() {
    let sphere = Arc::new(Hittables::Sphere(static_sphere(v(2.0, 0.0, 0.0), 0.5)));
    let turned = RotateY::new(sphere, s(1.0), s(0.0), &quarter_turn_corner);
    let into_object = |sin: Scalar, cos: Scalar, p: Vec3| {
        v(f(cos) * f(p.x) - f(sin) * f(p.z), f(p.y), f(sin) * f(p.x) + f(cos) * f(p.z))
    };
    let into_world = |sin: Scalar, cos: Scalar, p: Vec3| {
        v(f(cos) * f(p.x) + f(sin) * f(p.z), f(p.y), -f(sin) * f(p.x) + f(cos) * f(p.z))
    };
    let inner = |o: &Hittables, r: &Ray, i: Interval| match o {
        Hittables::Sphere(sp) => sphere_hit(sp, r, i),
        _ => None,
    };
    let ray = Ray::new(v(0.0, 0.0, 0.0), v(0.0, 0.0, -1.0));
    let hit = turned
        .hit(&ray, iv(0.001, f64::INFINITY), &into_object, &into_world, &inner)
        .expect("the turned sphere lies on the negative z axis");
    assert_eq!(hit.t, s(1.5));
    assert_eq!(hit.point, v(0.0, 0.0, -1.5));
    assert_eq!(hit.normal, v(0.0, 0.0, 1.0));
}

#[test]
fn medium_segment_is_held_to_the_interval() {
    assert_eq!(Medium::segment(iv(0.001, 100.0), s(1.0), s(3.0)), Some((s(1.0), s(3.0))));
    assert_eq!(Medium::segment(iv(2.0, 100.0), s(1.0), s(3.0)), Some((s(2.0), s(3.0))));
    assert_eq!(Medium::segment(iv(0.001, 2.5), s(1.0), s(3.0)), Some((s(1.0), s(2.5))));
    assert_eq!(Medium::segment(iv(3.0, 100.0), s(1.0), s(3.0)), None);
    assert_eq!(Medium::segment(iv(0.001, 1.0), s(1.0), s(3.0)), None);
    assert_eq!(Medium::segment(iv(-5.0, 100.0), s(-2.0), s(3.0)), Some((s(0.0), s(3.0))));
    assert_eq!(Medium::segment(iv(-5.0, 100.0), s(-2.0), s(-1.0)), Some((s(0.0), s(-1.0))));
    assert_eq!(Medium::segment(iv(0.0, 100.0), s(f64::NAN), s(3.0)), Some((s(f64::NAN), s(3.0))));
}

fn fog() -> Medium {
    let boundary = Arc::new(Hittables::Sphere(static_sphere(v(0.0, 0.0, -5.0), 1.0)));
    Medium::solid(boundary, s(-1.0 / 0.5), v(1.0, 1.0, 1.0))
}

fn ask_sphere(o: &Hittables, r: &Ray, i: Interval) -> Option<HitRecord> {
    match o {
        Hittables::Sphere(sp) => sphere_hit(sp, r, i),
        _ => None,
    }
}

fn past(t: Scalar) -> Scalar {
    s(f(t) + 0.0001)
}

#[test]
fn medium_scatters_within_the_boundary() {
    let medium = fog();
    let ray = Ray::new_time(v(0.0, 0.0, 0.0), v(0.0, 0.0, -1.0), s(0.5));
    let flight = |r: &Ray, t1: Scalar, t2: Scalar| {
        let length = dot(r.direction, r.direction).sqrt();
        let hit_distance = 0.5;
        let t = f(t1) + hit_distance / length;
        Flight {
            hit_distance: s(hit_distance),
            distance_inside_boundary: s((f(t2) - f(t1)) * length),
            t: s(t),
            point: at(r, t),
        }
    };
    let hit = medium.hit(&ray, iv(0.001, f64::INFINITY), &ask_sphere, &past, &flight).expect("scattered");
    assert_eq!(hit.t, s(4.5));
    assert_eq!(hit.point, v(0.0, 0.0, -4.5));
    assert_eq!(hit.normal, v(1.0, 0.0, 0.0));
    assert!(hit.front_face);
    assert!(Arc::ptr_eq(&hit.mat, &medium.phase_function));
    assert!(matches!(*hit.mat, Materials::Isotropic(_)));
}

#[test]
fn medium_lets_a_long_flight_pass() {
    let medium = fog();
    let ray = Ray::new(v(0.0, 0.0, 0.0), v(0.0, 0.0, -1.0));
    let long_flight = |r: &Ray, t1: Scalar, t2: Scalar| Flight {
        hit_distance: s(2.5),
        distance_inside_boundary: s(f(t2) - f(t1)),
        t: s(f(t1) + 2.5),
        point: at(r, f(t1) + 2.5),
    };
    assert!(medium.hit(&ray, iv(0.001, f64::INFINITY), &ask_sphere, &past, &long_flight).is_none());
    let exact_flight = |r: &Ray, t1: Scalar, t2: Scalar| Flight {
        hit_distance: s(f(t2) - f(t1)),
        distance_inside_boundary: s(f(t2) - f(t1)),
        t: t2,
        point: at(r, f(t2)),
    };
    let hit = medium.hit(&ray, iv(0.001, f64::INFINITY), &ask_sphere, &past, &exact_flight).unwrap();
    assert_eq!(hit.t, s(6.0));
}

#[test]
fn medium_is_missed_where_the_boundary_is() {
    let medium = fog();
    let flight = |r: &Ray, t1: Scalar, _t2: Scalar| Flight {
        hit_distance: s(0.0),
        distance_inside_boundary: s(1.0),
        t: t1,
        point: at(r, f(t1)),
    };
    let beside = Ray::new(v(0.0, 3.0, 0.0), v(0.0, 0.0, -1.0));
    assert!(medium.hit(&beside, iv(0.001, f64::INFINITY), &ask_sphere, &past, &flight).is_none());
    let ray = Ray::new(v(0.0, 0.0, 0.0), v(0.0, 0.0, -1.0));
    assert!(medium.hit(&ray, iv(0.001, 3.0), &ask_sphere, &past, &flight).is_none());
    let behind = Ray::new(v(0.0, 0.0, -8.0), v(0.0, 0.0, -1.0));
    assert!(medium.hit(&behind, iv(0.001, f64::INFINITY), &ask_sphere, &past, &flight).is_none());
    let ray = Ray::new(v(0.0, 0.0, 0.0), v(0.0, 0.0, -1.0));
    assert!(medium.hit(&ray, iv(6.0, 9.0), &ask_sphere, &past, &flight).is_none());
}

#[test]
fn medium_scatters_a_ray_that_starts_inside() {
    let medium = fog();
    let seen = std::cell::Cell::new((s(9.0), s(9.0)));
    let flight = |r: &Ray, t1: Scalar, t2: Scalar| {
        seen.set((t1, t2));
        Flight {
            hit_distance: s(0.25),
            distance_inside_boundary: s(f(t2) - f(t1)),
            t: s(f(t1) + 0.25),
            point: at(r, f(t1) + 0.25),
        }
    };
    let from_inside = Ray::new(v(0.0, 0.0, -5.0), v(0.0, 0.0, -1.0));
    let hit = medium
        .hit(&from_inside, iv(0.001, f64::INFINITY), &ask_sphere, &past, &flight)
        .expect("a ray that starts in the medium is scattered in it");
    assert_eq!(seen.get(), (s(0.001), s(1.0)));
    assert_eq!(hit.t, s(0.001 + 0.25));
    assert_eq!(hit.point, at(&from_inside, 0.001 + 0.25));
    assert!(f(hit.point.z) < -5.25 && f(hit.point.z) > -5.26);
    assert!(Arc::ptr_eq(&hit.mat, &medium.phase_function));
    let entered_before = Ray::new(v(0.0, 0.0, 0.0), v(0.0, 0.0, -1.0));
    let hit = medium
        .hit(&entered_before, iv(4.5, 5.5), &ask_sphere, &past, &flight)
        .expect("the interval begins inside the medium");
    assert_eq!(seen.get(), (s(4.5), s(5.5)));
    assert_eq!(hit.t, s(4.75));
    let without_start = Ray::new(v(0.0, 0.0, -5.0), v(0.0, 0.0, -1.0));
    medium.hit(&without_start, iv(-3.0, f64::INFINITY), &ask_sphere, &past, &flight).unwrap();
    assert_eq!(seen.get(), (s(0.0), s(1.0)));
}

#[test]
fn a_thick_medium_scatters_a_ray_from_its_middle() {
    let boundary = Arc::new(Hittables::Sphere(static_sphere(v(0.0, 0.0, 0.0), 1.0)));
    let medium = Medium::solid(boundary, s(-1.0 / 1e9), v(1.0, 1.0, 1.0));
    let ray = Ray::new(v(0.0, 0.0, 0.0), v(0.0, 0.0, -1.0));
    for draw in [1e-300, 0.001, 0.5, 0.999999] {
        let flight = |r: &Ray, t1: Scalar, t2: Scalar| {
            let length = dot(r.direction, r.direction).sqrt();
            let hit_distance = f(medium.neg_inv_density) * f64::ln(draw);
            let t = f(t1) + hit_distance / length;
            Flight {
                hit_distance: s(hit_distance),
                distance_inside_boundary: s((f(t2) - f(t1)) * length),
                t: s(t),
                point: at(r, t),
            }
        };
        let hit = medium
            .hit(&ray, iv(0.001, f64::INFINITY), &ask_sphere, &past, &flight)
            .expect("the mist is thick");
        assert!(s(0.001).le(hit.t) && hit.t.le(s(1.0)));
    }
}

#[test]
fn medium_box_is_the_box_of_its_boundary() {
    let expected = AABB::new(iv(-1.0, 1.0), iv(-1.0, 1.0), iv(-6.0, -4.0));
    assert_eq!(fog().bounding_box(), expected);
    assert_eq!(Hittables::Medium(fog()).bounding_box(), expected);
    assert_eq!(fog().neg_inv_density, s(-2.0));
}

#[test]
fn box_has_six_sides_in_order() {
    let extent = |hi: Scalar, lo: Scalar| s(f(hi) - f(lo));
    let flip = |a: Vec3| times(-1.0, a);
    let sides: HittableList = Quad::create_box(
        v(1.0, 2.0, 3.0),
        v(0.0, 0.0, 0.0),
        grey(),
        &extent,
        &flip,
        &quad_frame,
        &size,
        &widen,
    );
    let expected = [
        (v(0.0, 0.0, 3.0), v(1.0, 0.0, 0.0), v(0.0, 2.0, 0.0)),
        (v(1.0, 0.0, 3.0), v(-0.0, -0.0, -3.0), v(0.0, 2.0, 0.0)),
        (v(1.0, 0.0, 0.0), v(-1.0, -0.0, -0.0), v(0.0, 2.0, 0.0)),
        (v(0.0, 0.0, 0.0), v(0.0, 0.0, 3.0), v(0.0, 2.0, 0.0)),
        (v(0.0, 2.0, 3.0), v(1.0, 0.0, 0.0), v(-0.0, -0.0, -3.0)),
        (v(0.0, 0.0, 0.0), v(1.0, 0.0, 0.0), v(0.0, 0.0, 3.0)),
    ];
    assert_eq!(sides.objects.len(), 6);
    for (side, (q, u, w)) in sides.objects.iter().zip(expected.iter()) {
        match &**side {
            Hittables::Quad(quad) => {
                assert_eq!((quad.q, quad.u, quad.v), (*q, *u, *w));
            }
            _ => panic!("a side of a box is a quad"),
        }
    }
    let b = sides.bounding_box();
    assert_eq!(b.x, iv(0.0 - 0.00005, 1.0 + 0.00005));
    assert_eq!(b.y, iv(0.0 - 0.00005, 2.0 + 0.00005));
    assert_eq!(b.z, iv(0.0 - 0.00005, 3.0 + 0.00005));
}
