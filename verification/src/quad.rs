//! Flat parallelograms.

use vstd::prelude::*;
use std::sync::Arc;
use crate::aabb::AABB;
use crate::bvh::bounds_of;
use crate::hit_record::{HitRecord, Surface};
use crate::hittables::{HittableList, Hittables};
use crate::interval::Interval;
use crate::materials::Materials;
use crate::scalar::Scalar;
use crate::shared::share;
use crate::translation::{greater, lesser};
use crate::vec3::{Point3, Vec3};

verus! {

/// The pattern of `1e-8`: a ray whose direction has a lesser dot product with
/// the plane's normal, in absolute value, counts as parallel to the plane.
pub const PARALLEL_BITS: u64 = 0x3e45_798e_e230_8c3a;

/// The parallelogram with corner `q` and edges `u` and `v`, in the plane of
/// points `p` with `normal . p == d`. `w` is the normal of `u` and `v`, not
/// normalized, over its own squared length.
#[derive(Debug)]
pub struct Quad {
    pub q: Point3,
    pub u: Vec3,
    pub v: Vec3,
    pub w: Vec3,
    pub normal: Vec3,
    pub d: Scalar,
    pub mat: Arc<Materials>,
    pub bbox: AABB,
}

/// What is computed from a quad's corner and edges: the three other corners,
/// the unit normal, the plane constant and the vector `w`.
#[derive(Clone, Copy, Debug, PartialEq, Eq, Structural)]
pub struct Frame {
    pub corner_u: Point3,
    pub corner_v: Point3,
    pub corner_uv: Point3,
    pub normal: Vec3,
    pub d: Scalar,
    pub w: Vec3,
}

/// Whether plane coordinates lie on the parallelogram: both within `[0, 1]`.
/// Another flat shape differs from the quad in this condition alone.
pub open spec fn spec_is_interior(alpha: Scalar, beta: Scalar) -> bool {
    let unit = Interval { min: Scalar::zero(), max: Scalar::one() };
    unit.contains(alpha) && unit.contains(beta)
}

/// Whether a ray is taken for parallel to a plane, `denom` being the dot
/// product of the plane's normal with the ray's direction.
pub open spec fn parallel(denom: Scalar) -> bool {
    denom.abs().lt(Scalar { bits: PARALLEL_BITS })
}

/// Whether `h` is the quad with corner `q`, edges `u` and `v` and material
/// `mat`, as `Quad::new` makes it from what `frame` computes.
pub open spec fn is_side<
    R: Fn(Point3, Vec3, Vec3) -> Frame,
    F: Fn(Interval) -> Scalar,
    G: Fn(Interval, Scalar) -> Interval,
>(
    h: Arc<Hittables>,
    q: Point3,
    u: Vec3,
    v: Vec3,
    mat: Arc<Materials>,
    frame: &R,
    size: &F,
    widen: &G,
) -> bool {
    *h matches Hittables::Quad(quad) && exists|f: Frame| #[trigger]
        call_ensures(*frame, (q, u, v), f) && quad.is_made_from(q, u, v, mat, f, size, widen)
}

/// The vector of length `e` along the x axis.
pub open spec fn along_x(e: Scalar) -> Vec3 {
    Vec3 { x: e, y: Scalar { bits: 0 }, z: Scalar { bits: 0 } }
}

/// The vector of length `e` along the y axis.
pub open spec fn along_y(e: Scalar) -> Vec3 {
    Vec3 { x: Scalar { bits: 0 }, y: e, z: Scalar { bits: 0 } }
}

/// The vector of length `e` along the z axis.
pub open spec fn along_z(e: Scalar) -> Vec3 {
    Vec3 { x: Scalar { bits: 0 }, y: Scalar { bits: 0 }, z: e }
}

/// Whether `sides` is the closed box with the opposite corners `a` and `b`:
/// six quads, front, right, back, left, top and bottom, in this order, whose
/// edges are the box's extents along the axes (`extent` gives the extent from
/// the greater and the lesser bound) or, as `flip` gives them, their
/// negations.
pub open spec fn box_is<
    D: Fn(Scalar, Scalar) -> Scalar,
    N: Fn(Vec3) -> Vec3,
    R: Fn(Point3, Vec3, Vec3) -> Frame,
    F: Fn(Interval) -> Scalar,
    G: Fn(Interval, Scalar) -> Interval,
>(
    a: Point3,
    b: Point3,
    mat: Arc<Materials>,
    extent: &D,
    flip: &N,
    frame: &R,
    size: &F,
    widen: &G,
    sides: HittableList,
) -> bool {
    let min = lesser(a, b);
    let max = greater(a, b);
    exists|ex: Scalar, ey: Scalar, ez: Scalar, back: Vec3, down: Vec3|
        #![trigger
            call_ensures(*extent, (max.x, min.x), ex),
            call_ensures(*extent, (max.y, min.y), ey),
            call_ensures(*extent, (max.z, min.z), ez),
            call_ensures(*flip, (along_x(ex),), back),
            call_ensures(*flip, (along_z(ez),), down)]
        {
            let dx = along_x(ex);
            let dy = along_y(ey);
            let dz = along_z(ez);
            &&& call_ensures(*extent, (max.x, min.x), ex)
            &&& call_ensures(*extent, (max.y, min.y), ey)
            &&& call_ensures(*extent, (max.z, min.z), ez)
            &&& call_ensures(*flip, (dx,), back)
            &&& call_ensures(*flip, (dz,), down)
            &&& sides.objects.len() == 6
            &&& sides.bbox == bounds_of(sides.objects@)
            &&& is_side(
                sides.objects[0],
                Point3 { x: min.x, y: min.y, z: max.z },
                dx,
                dy,
                mat,
                frame,
                size,
                widen,
            )
            &&& is_side(
                sides.objects[1],
                Point3 { x: max.x, y: min.y, z: max.z },
                down,
                dy,
                mat,
                frame,
                size,
                widen,
            )
            &&& is_side(
                sides.objects[2],
                Point3 { x: max.x, y: min.y, z: min.z },
                back,
                dy,
                mat,
                frame,
                size,
                widen,
            )
            &&& is_side(
                sides.objects[3],
                Point3 { x: min.x, y: min.y, z: min.z },
                dz,
                dy,
                mat,
                frame,
                size,
                widen,
            )
            &&& is_side(
                sides.objects[4],
                Point3 { x: min.x, y: max.y, z: max.z },
                dx,
                down,
                mat,
                frame,
                size,
                widen,
            )
            &&& is_side(
                sides.objects[5],
                Point3 { x: min.x, y: min.y, z: min.z },
                dx,
                dz,
                mat,
                frame,
                size,
                widen,
            )
        }
}

impl Quad {
    /// The box of the quad before padding: the span of the boxes of its two
    /// diagonals.
    pub open spec fn span(q: Point3, frame: Frame) -> AABB {
        AABB::from_boxes(
            &AABB::from_points(q, frame.corner_uv),
            &AABB::from_points(frame.corner_u, frame.corner_v),
        )
    }

    /// Whether the quad is the one with corner `q`, edges `u` and `v` and
    /// material `mat`, as `new` makes it from `frame`: its box is the span of
    /// its diagonals, padded by `size` and `widen` to the least thickness.
    pub open spec fn is_made_from<F: Fn(Interval) -> Scalar, G: Fn(Interval, Scalar) -> Interval>(
        &self,
        q: Point3,
        u: Vec3,
        v: Vec3,
        mat: Arc<Materials>,
        frame: Frame,
        size: &F,
        widen: &G,
    ) -> bool {
        &&& self.q == q
        &&& self.u == u
        &&& self.v == v
        &&& self.w == frame.w
        &&& self.normal == frame.normal
        &&& self.d == frame.d
        &&& self.mat == mat
        &&& AABB::padded_is(Quad::span(q, frame).x, size, widen, self.bbox.x)
        &&& AABB::padded_is(Quad::span(q, frame).y, size, widen, self.bbox.y)
        &&& AABB::padded_is(Quad::span(q, frame).z, size, widen, self.bbox.z)
    }

    /// Whether the ray hits, by the numbers of `hit`.
    pub open spec fn accepts(interval: Interval, denom: Scalar, t: Scalar, alpha: Scalar, beta: Scalar)
        -> bool {
        !parallel(denom) && interval.contains(t) && spec_is_interior(alpha, beta)
    }

    /// The quad with corner `q` and edges `u` and `v`. `frame` holds what
    /// follows from them by arithmetic. The bounding box spans the boxes of
    /// the two diagonals and is then padded to the least thickness, `size`
    /// measuring a range and `widen` bringing one to a given thickness.
    pub fn new<F: Fn(Interval) -> Scalar, G: Fn(Interval, Scalar) -> Interval>(
        q: Point3,
        u: Vec3,
        v: Vec3,
        mat: Arc<Materials>,
        frame: &Frame,
        size: &F,
        widen: &G,
    ) -> (quad: Quad)
        requires
            forall|i: Interval| call_requires(*size, (i,)),
            forall|i: Interval, d: Scalar| call_requires(*widen, (i, d)),
        ensures
            quad.is_made_from(q, u, v, mat, *frame, size, widen),
    {
        let diag1 = AABB::from_points(q, frame.corner_uv);
        let diag2 = AABB::from_points(frame.corner_u, frame.corner_v);
        let mut bbox = AABB::from_boxes(&diag1, &diag2);
        bbox.pad_to_minimums(size, widen);
        Quad { q, u, v, w: frame.w, normal: frame.normal, d: frame.d, mat, bbox }
    }

    /// The padded box of the quad.
    pub fn bounding_box(&self) -> (b: &AABB)
        ensures
            *b == self.bbox,
    {
        &self.bbox
    }

    fn add_side<
        R: Fn(Point3, Vec3, Vec3) -> Frame,
        F: Fn(Interval) -> Scalar,
        G: Fn(Interval, Scalar) -> Interval,
    >(
        sides: &mut HittableList,
        q: Point3,
        u: Vec3,
        v: Vec3,
        mat: &Arc<Materials>,
        frame: &R,
        size: &F,
        widen: &G,
    )
        requires
            old(sides).bbox == bounds_of(old(sides).objects@),
            forall|q: Point3, u: Vec3, v: Vec3| call_requires(*frame, (q, u, v)),
            forall|i: Interval| call_requires(*size, (i,)),
            forall|i: Interval, d: Scalar| call_requires(*widen, (i, d)),
        ensures
            final(sides).objects.len() == old(sides).objects.len() + 1,
            final(sides).objects@.drop_last() == old(sides).objects@,
            is_side(final(sides).objects@.last(), q, u, v, *mat, frame, size, widen),
            final(sides).bbox == bounds_of(final(sides).objects@),
    {
        let f = frame(q, u, v);
        sides.add_quad(q, u, v, share(mat), &f, size, widen);
    }

    /// The closed box with the opposite corners `a` and `b`, given in either
    /// order: six quads of material `mat`.
    ///
    /// `extent(hi, lo)` is the extent of the box along an axis, from its
    /// greater and lesser bound there; `flip` negates a vector; `frame`
    /// computes what `new` needs of a quad from its corner and edges.
    pub fn create_box<
        D: Fn(Scalar, Scalar) -> Scalar,
        N: Fn(Vec3) -> Vec3,
        R: Fn(Point3, Vec3, Vec3) -> Frame,
        F: Fn(Interval) -> Scalar,
        G: Fn(Interval, Scalar) -> Interval,
    >(
        a: Point3,
        b: Point3,
        mat: Arc<Materials>,
        extent: &D,
        flip: &N,
        frame: &R,
        size: &F,
        widen: &G,
    ) -> (sides: HittableList)
        requires
            forall|hi: Scalar, lo: Scalar| call_requires(*extent, (hi, lo)),
            forall|v: Vec3| call_requires(*flip, (v,)),
            forall|q: Point3, u: Vec3, v: Vec3| call_requires(*frame, (q, u, v)),
            forall|i: Interval| call_requires(*size, (i,)),
            forall|i: Interval, d: Scalar| call_requires(*widen, (i, d)),
        ensures
            box_is(a, b, mat, extent, flip, frame, size, widen, sides),
    {
        let mut sides = HittableList::empty();
        assert(sides.objects@ =~= Seq::empty());
        let min = Point3 { x: a.x.min(b.x), y: a.y.min(b.y), z: a.z.min(b.z) };
        let max = Point3 { x: a.x.max(b.x), y: a.y.max(b.y), z: a.z.max(b.z) };
        let ex = extent(max.x, min.x);
        let ey = extent(max.y, min.y);
        let ez = extent(max.z, min.z);
        let dx = Vec3 { x: ex, y: Scalar::zero(), z: Scalar::zero() };
        let dy = Vec3 { x: Scalar::zero(), y: ey, z: Scalar::zero() };
        let dz = Vec3 { x: Scalar::zero(), y: Scalar::zero(), z: ez };
        let back = flip(dx);
        let down = flip(dz);
        Quad::add_side(&mut sides, Point3 { x: min.x, y: min.y, z: max.z }, dx, dy, &mat, frame, size, widen);
        let ghost s1 = sides.objects@;
        Quad::add_side(&mut sides, Point3 { x: max.x, y: min.y, z: max.z }, down, dy, &mat, frame, size, widen);
        let ghost s2 = sides.objects@;
        Quad::add_side(&mut sides, Point3 { x: max.x, y: min.y, z: min.z }, back, dy, &mat, frame, size, widen);
        let ghost s3 = sides.objects@;
        Quad::add_side(&mut sides, Point3 { x: min.x, y: min.y, z: min.z }, dz, dy, &mat, frame, size, widen);
        let ghost s4 = sides.objects@;
        Quad::add_side(&mut sides, Point3 { x: min.x, y: max.y, z: max.z }, dx, down, &mat, frame, size, widen);
        let ghost s5 = sides.objects@;
        Quad::add_side(&mut sides, Point3 { x: min.x, y: min.y, z: min.z }, dx, dz, &mat, frame, size, widen);
        proof {
            let s6 = sides.objects@;
            assert(s6[5] == s6.last());
            assert(s6[4] == s5.last() && s5 == s6.drop_last());
            assert(s6[3] == s4.last() && s4 == s5.drop_last());
            assert(s6[2] == s3.last() && s3 == s4.drop_last());
            assert(s6[1] == s2.last() && s2 == s3.drop_last());
            assert(s6[0] == s1.last() && s1 == s2.drop_last());
            assert(min == lesser(a, b));
            assert(max == greater(a, b));
            assert(dx == along_x(ex) && dy == along_y(ey) && dz == along_z(ez));
        }
        sides
    }

    /// Whether the plane coordinates `alpha` and `beta` lie on the quad.
    pub fn is_interior(alpha: Scalar, beta: Scalar) -> (r: bool)
        ensures
            r == spec_is_interior(alpha, beta),
    {
        let unit = Interval::new(Scalar::zero(), Scalar::one());
        unit.contains(alpha) && unit.contains(beta)
    }

    /// Where a ray hits the quad within `interval`.
    ///
    /// `denom` is the dot product of the normal with the ray's direction, `t`
    /// the ray parameter at which the ray meets the plane, `alpha` and `beta`
    /// the plane coordinates of that point, `point` the point, and `reversed`
    /// the normal negated. The ray misses if it is parallel to the plane, if
    /// `t` is outside the interval, bounds included, or if the point is off
    /// the quad. The record carries the plane coordinates as surface
    /// coordinates, and the normal turned against the ray.
    pub fn hit(
        &self,
        interval: Interval,
        denom: Scalar,
        t: Scalar,
        alpha: Scalar,
        beta: Scalar,
        point: Point3,
        reversed: Vec3,
    ) -> (result: Option<HitRecord>)
        ensures
            result == (if Quad::accepts(interval, denom, t, alpha, beta) {
                Some(
                    HitRecord::spec_on(
                        t,
                        Surface {
                            point,
                            outward_normal: self.normal,
                            reversed_normal: reversed,
                            facing: denom,
                            u: alpha,
                            v: beta,
                        },
                        self.mat,
                    ),
                )
            } else {
                None
            }),
    {
        if denom.abs().lt(Scalar::from_bits(PARALLEL_BITS)) {
            return None;
        }
        if !interval.contains(t) {
            return None;
        }
        if !Quad::is_interior(alpha, beta) {
            return None;
        }
        let s = Surface {
            point,
            outward_normal: self.normal,
            reversed_normal: reversed,
            facing: denom,
            u: alpha,
            v: beta,
        };
        Some(HitRecord::on(t, &s, crate::shared::share(&self.mat)))
    }
}

/// A ray that runs exactly along a quad's plane (the dot product of its
/// direction with the normal is zero, of either sign) never hits the quad,
/// whatever the other numbers are.
pub proof fn lemma_parallel_ray_misses(
    interval: Interval,
    denom: Scalar,
    t: Scalar,
    alpha: Scalar,
    beta: Scalar,
)
    requires
        denom.same_value(Scalar::zero()),
    ensures
        !Quad::accepts(interval, denom, t, alpha, beta),
{
}

/// The hit of a quad does not depend on where the interval ends, but for
/// being cut off there: a ray hits within an interval exactly if it hits
/// within the interval without upper end, at a parameter that is at most the
/// upper end.
pub proof fn lemma_quad_hit_is_steady(
    lo: Scalar,
    hi: Scalar,
    denom: Scalar,
    t: Scalar,
    alpha: Scalar,
    beta: Scalar,
)
    ensures
        Quad::accepts(Interval { min: lo, max: hi }, denom, t, alpha, beta) <==> Quad::accepts(
            Interval { min: lo, max: Scalar::infinity() },
            denom,
            t,
            alpha,
            beta,
        ) && t.le(hi),
{
}

} // verus!
