//! What holds of the light that the integrator gathers, whatever the
//! arithmetic: bounds that the scene keeps, and that the image is a function
//! of the camera, the scene and the draws.
//!
//! The integrator adds and scales through the functions handed to it. Each
//! statement here names what it needs of them.

use vstd::prelude::*;
use crate::camera::{reach, Camera};
use crate::hit_record::HitRecord;
use crate::hittables::Hittables;
use crate::interval::Interval;
use crate::materials::{black, Materials};
use crate::ray::Ray;
use crate::scalar::Scalar;
use crate::texture::Textures;
use crate::vec3::{Color3, Point3};

verus! {

/// What one step of the integrator found: the hit, if any; the light that the
/// material gives off; what became of the ray; and the light that arrives
/// along the scattered ray.
pub struct Step {
    pub found: Option<HitRecord>,
    pub emitted: Color3,
    pub scattered: Option<(Color3, Ray)>,
    pub incoming: Color3,
}

/// Whether nothing that `hit` finds in `world` is a light.
pub open spec fn no_lights<H: Fn(&Hittables, &Ray, Interval) -> Option<HitRecord>>(
    world: &Hittables,
    hit: &H,
) -> bool {
    forall|r: &Ray, i: Interval, found: HitRecord| #[trigger]
        call_ensures(*hit, (world, r, i), Some(found)) ==> !(*found.mat is Diffuse)
}

/// Whether `world` is closed about every ray: whether `hit` never finds
/// nothing, so that no ray sees the background.
pub open spec fn closed<H: Fn(&Hittables, &Ray, Interval) -> Option<HitRecord>>(
    world: &Hittables,
    hit: &H,
) -> bool {
    forall|r: &Ray, i: Interval| !(#[trigger] call_ensures(*hit, (world, r, i), None))
}

/// Whether every tint that `surface` scatters with meets `dim`.
pub open spec fn tints_meet<S: Fn(&Materials, &Ray, &HitRecord) -> Option<(Color3, Ray)>>(
    surface: &S,
    dim: spec_fn(Color3) -> bool,
) -> bool {
    forall|m: &Materials, r: &Ray, h: &HitRecord, tint: Color3, onward: Ray| #[trigger]
        call_ensures(*surface, (m, r, h), Some((tint, onward))) ==> dim(tint)
}

/// Whether `blend`, given no emission, a tint that meets `dim` and incoming
/// light that is `within`, gives light that is `within`.
pub open spec fn blend_keeps<B: Fn(Color3, Color3, Color3) -> Color3>(
    blend: &B,
    dim: spec_fn(Color3) -> bool,
    within: spec_fn(Color3) -> bool,
) -> bool {
    forall|tint: Color3, incoming: Color3, c: Color3| #[trigger]
        call_ensures(*blend, (black(), tint, incoming), c) && dim(tint) && within(incoming)
            ==> within(c)
}

/// Whether `x` is a number from zero up to, and not including, one.
pub open spec fn below_one(x: Scalar) -> bool {
    Scalar::zero().le(x) && x.lt(Scalar::one())
}

/// Whether each part of `tint` is a number from zero up to, and not
/// including, one: the tint of a surface that takes in some of the light.
pub open spec fn dims(tint: Color3) -> bool {
    below_one(tint.x) && below_one(tint.y) && below_one(tint.z)
}

/// Whether each part of `c` is a number from zero up to the same part of
/// `bound`.
pub open spec fn at_most(c: Color3, bound: Color3) -> bool {
    &&& Scalar::zero().le(c.x) && c.x.le(bound.x)
    &&& Scalar::zero().le(c.y) && c.y.le(bound.y)
    &&& Scalar::zero().le(c.z) && c.z.le(bound.z)
}

/// Whether the functions that the integrator asks answer alike when asked
/// alike: each has one answer to each question.
pub open spec fn light_is_settled<
    H: Fn(&Hittables, &Ray, Interval) -> Option<HitRecord>,
    L: Fn(&Textures, Scalar, Scalar, &Point3) -> Color3,
    S: Fn(&Materials, &Ray, &HitRecord) -> Option<(Color3, Ray)>,
    B: Fn(Color3, Color3, Color3) -> Color3,
>(hit: &H, lookup: &L, surface: &S, blend: &B) -> bool {
    &&& forall|w: &Hittables, r: &Ray, i: Interval, a: Option<HitRecord>, b: Option<HitRecord>|
        #![trigger call_ensures(*hit, (w, r, i), a), call_ensures(*hit, (w, r, i), b)]
        call_ensures(*hit, (w, r, i), a) && call_ensures(*hit, (w, r, i), b) ==> a == b
    &&& forall|t: &Textures, u: Scalar, v: Scalar, p: &Point3, a: Color3, b: Color3|
        #![trigger call_ensures(*lookup, (t, u, v, p), a), call_ensures(*lookup, (t, u, v, p), b)]
        call_ensures(*lookup, (t, u, v, p), a) && call_ensures(*lookup, (t, u, v, p), b) ==> a == b
    &&& forall|
        m: &Materials,
        r: &Ray,
        h: &HitRecord,
        a: Option<(Color3, Ray)>,
        b: Option<(Color3, Ray)>,
    |
        #![trigger call_ensures(*surface, (m, r, h), a), call_ensures(*surface, (m, r, h), b)]
        call_ensures(*surface, (m, r, h), a) && call_ensures(*surface, (m, r, h), b) ==> a == b
    &&& forall|e: Color3, t: Color3, i: Color3, a: Color3, b: Color3|
        #![trigger call_ensures(*blend, (e, t, i), a), call_ensures(*blend, (e, t, i), b)]
        call_ensures(*blend, (e, t, i), a) && call_ensures(*blend, (e, t, i), b) ==> a == b
}

/// Whether the functions that make the samples of a pixel answer alike when
/// asked alike. For `get_ray` this says that the same draws are made for the
/// same pixel.
pub open spec fn samples_are_settled<
    R: Fn(usize, usize) -> Ray,
    A: Fn(Color3, Color3) -> Color3,
    M: Fn(Color3, Scalar) -> Color3,
>(get_ray: &R, gather: &A, scale: &M) -> bool {
    &&& forall|i: usize, j: usize, a: Ray, b: Ray|
        #![trigger call_ensures(*get_ray, (i, j), a), call_ensures(*get_ray, (i, j), b)]
        call_ensures(*get_ray, (i, j), a) && call_ensures(*get_ray, (i, j), b) ==> a == b
    &&& forall|x: Color3, y: Color3, a: Color3, b: Color3|
        #![trigger call_ensures(*gather, (x, y), a), call_ensures(*gather, (x, y), b)]
        call_ensures(*gather, (x, y), a) && call_ensures(*gather, (x, y), b) ==> a == b
    &&& forall|x: Color3, k: Scalar, a: Color3, b: Color3|
        #![trigger call_ensures(*scale, (x, k), a), call_ensures(*scale, (x, k), b)]
        call_ensures(*scale, (x, k), a) && call_ensures(*scale, (x, k), b) ==> a == b
}

/// Whether `step` is a step that leads to `color` for `ray` with `depth` left.
pub open spec fn step_is<
    H: Fn(&Hittables, &Ray, Interval) -> Option<HitRecord>,
    L: Fn(&Textures, Scalar, Scalar, &Point3) -> Color3,
    S: Fn(&Materials, &Ray, &HitRecord) -> Option<(Color3, Ray)>,
    B: Fn(Color3, Color3, Color3) -> Color3,
>(
    camera: Camera,
    ray: Ray,
    world: &Hittables,
    depth: i32,
    hit: &H,
    lookup: &L,
    surface: &S,
    blend: &B,
    color: Color3,
    step: Step,
) -> bool {
    &&& call_ensures(*hit, (world, &ray, reach()), step.found)
    &&& match step.found {
        None => color == camera.background_color,
        Some(hr) => {
            &&& hr.mat.emitted_is(hr.u, hr.v, &hr.point, lookup, step.emitted)
            &&& hr.mat.scatter_is(&ray, &hr, surface, step.scattered)
            &&& match step.scattered {
                None => color == step.emitted,
                Some((attenuation, onward)) => {
                    &&& camera.color_is(
                        onward,
                        world,
                        (depth - 1) as i32,
                        hit,
                        lookup,
                        surface,
                        blend,
                        step.incoming,
                    )
                    &&& call_ensures(*blend, (step.emitted, attenuation, step.incoming), color)
                },
            }
        },
    }
}

/// With depth left, the light along a ray comes of one step of the
/// integrator.
pub proof fn lemma_light_comes_of_a_step<
    H: Fn(&Hittables, &Ray, Interval) -> Option<HitRecord>,
    L: Fn(&Textures, Scalar, Scalar, &Point3) -> Color3,
    S: Fn(&Materials, &Ray, &HitRecord) -> Option<(Color3, Ray)>,
    B: Fn(Color3, Color3, Color3) -> Color3,
>(
    camera: Camera,
    ray: Ray,
    world: &Hittables,
    depth: i32,
    hit: &H,
    lookup: &L,
    surface: &S,
    blend: &B,
    color: Color3,
) -> (step: Step)
    requires
        depth > 0,
        camera.color_is(ray, world, depth, hit, lookup, surface, blend, color),
    ensures
        step_is(camera, ray, world, depth, hit, lookup, surface, blend, color, step),
{
    let found = choose|found: Option<HitRecord>| #[trigger]
        call_ensures(*hit, (world, &ray, reach()), found) && match found {
            None => color == camera.background_color,
            Some(hr) => exists|emitted: Color3, scattered: Option<(Color3, Ray)>|
                #![trigger
                    hr.mat.emitted_is(hr.u, hr.v, &hr.point, lookup, emitted),
                    hr.mat.scatter_is(&ray, &hr, surface, scattered)]
                hr.mat.emitted_is(hr.u, hr.v, &hr.point, lookup, emitted) && hr.mat.scatter_is(
                    &ray,
                    &hr,
                    surface,
                    scattered,
                ) && match scattered {
                    None => color == emitted,
                    Some((attenuation, onward)) => exists|incoming: Color3|
                        camera.color_is(
                            onward,
                            world,
                            (depth - 1) as i32,
                            hit,
                            lookup,
                            surface,
                            blend,
                            incoming,
                        ) && #[trigger] call_ensures(*blend, (emitted, attenuation, incoming), color),
                },
        };
    match found {
        None => Step { found, emitted: black(), scattered: None, incoming: black() },
        Some(hr) => {
            let (emitted, scattered) = choose|emitted: Color3, scattered: Option<(Color3, Ray)>|
                #![trigger
                    hr.mat.emitted_is(hr.u, hr.v, &hr.point, lookup, emitted),
                    hr.mat.scatter_is(&ray, &hr, surface, scattered)]
                hr.mat.emitted_is(hr.u, hr.v, &hr.point, lookup, emitted) && hr.mat.scatter_is(
                    &ray,
                    &hr,
                    surface,
                    scattered,
                ) && match scattered {
                    None => color == emitted,
                    Some((attenuation, onward)) => exists|incoming: Color3|
                        camera.color_is(
                            onward,
                            world,
                            (depth - 1) as i32,
                            hit,
                            lookup,
                            surface,
                            blend,
                            incoming,
                        ) && #[trigger] call_ensures(*blend, (emitted, attenuation, incoming), color),
                };
            match scattered {
                None => Step { found, emitted, scattered, incoming: black() },
                Some((attenuation, onward)) => {
                    let incoming = choose|incoming: Color3|
                        camera.color_is(
                            onward,
                            world,
                            (depth - 1) as i32,
                            hit,
                            lookup,
                            surface,
                            blend,
                            incoming,
                        ) && #[trigger] call_ensures(*blend, (emitted, attenuation, incoming), color);
                    Step { found, emitted, scattered, incoming }
                },
            }
        },
    }
}

/// In a scene without lights no light leaves a set of colours that holds
/// black and the background and that `blend` keeps to.
///
/// `within` is the set, and `dim` a condition that every tint of a scattering
/// meets. Where black and the background are `within`, and `blend` makes of a
/// tint that meets `dim` and of incoming light that is `within` light that is
/// `within`, the light along every ray is `within`, at every depth. Of a
/// closed scene the background need not be `within`: no ray sees it.
pub proof fn lemma_light_stays_within<
    H: Fn(&Hittables, &Ray, Interval) -> Option<HitRecord>,
    L: Fn(&Textures, Scalar, Scalar, &Point3) -> Color3,
    S: Fn(&Materials, &Ray, &HitRecord) -> Option<(Color3, Ray)>,
    B: Fn(Color3, Color3, Color3) -> Color3,
>(
    camera: Camera,
    ray: Ray,
    world: &Hittables,
    depth: i32,
    hit: &H,
    lookup: &L,
    surface: &S,
    blend: &B,
    dim: spec_fn(Color3) -> bool,
    within: spec_fn(Color3) -> bool,
    color: Color3,
)
    requires
        within(black()),
        within(camera.background_color) || closed(world, hit),
        no_lights(world, hit),
        tints_meet(surface, dim),
        blend_keeps(blend, dim, within),
        camera.color_is(ray, world, depth, hit, lookup, surface, blend, color),
    ensures
        within(color),
    decreases depth,
{
    if depth > 0 {
        let step = lemma_light_comes_of_a_step(
            camera,
            ray,
            world,
            depth,
            hit,
            lookup,
            surface,
            blend,
            color,
        );
        match step.found {
            None => {},
            Some(hr) => {
                assert(step.emitted == black());
                match step.scattered {
                    None => {},
                    Some((attenuation, onward)) => {
                        lemma_light_stays_within(
                            camera,
                            onward,
                            world,
                            (depth - 1) as i32,
                            hit,
                            lookup,
                            surface,
                            blend,
                            dim,
                            within,
                            step.incoming,
                        );
                        assert(call_ensures(*surface, (&*hr.mat, &ray, &hr), step.scattered));
                        assert(dim(attenuation));
                    },
                }
            },
        }
    }
}

/// In a scene without lights that is seen against a black background, or
/// is closed about every ray whatever the background, no light arrives at any
/// depth: where no material that is hit is a light and `blend` makes black of
/// black emission and black incoming light, the answer is black.
pub proof fn lemma_dark_scene_stays_dark<
    H: Fn(&Hittables, &Ray, Interval) -> Option<HitRecord>,
    L: Fn(&Textures, Scalar, Scalar, &Point3) -> Color3,
    S: Fn(&Materials, &Ray, &HitRecord) -> Option<(Color3, Ray)>,
    B: Fn(Color3, Color3, Color3) -> Color3,
>(
    camera: Camera,
    ray: Ray,
    world: &Hittables,
    depth: i32,
    hit: &H,
    lookup: &L,
    surface: &S,
    blend: &B,
    color: Color3,
)
    requires
        camera.background_color == black() || closed(world, hit),
        no_lights(world, hit),
        forall|tint: Color3, c: Color3| #[trigger]
            call_ensures(*blend, (black(), tint, black()), c) ==> c == black(),
        camera.color_is(ray, world, depth, hit, lookup, surface, blend, color),
    ensures
        color == black(),
{
    lemma_light_stays_within(
        camera,
        ray,
        world,
        depth,
        hit,
        lookup,
        surface,
        blend,
        |t: Color3| true,
        |c: Color3| c == black(),
        color,
    );
}

/// In a scene of surfaces that take in some of the light, without lights, no
/// more light arrives than the background gives.
///
/// Where the parts of the background are numbers from zero on, every tint of
/// a scattering has its parts in `[0, 1)`, and `blend` makes of such a tint
/// and of incoming light between zero and the background light between zero
/// and the background, each part of the light along every ray lies between
/// zero and that part of the background, at every depth. Against a black
/// background, that light is zero.
pub proof fn lemma_light_is_at_most_the_background<
    H: Fn(&Hittables, &Ray, Interval) -> Option<HitRecord>,
    L: Fn(&Textures, Scalar, Scalar, &Point3) -> Color3,
    S: Fn(&Materials, &Ray, &HitRecord) -> Option<(Color3, Ray)>,
    B: Fn(Color3, Color3, Color3) -> Color3,
>(
    camera: Camera,
    ray: Ray,
    world: &Hittables,
    depth: i32,
    hit: &H,
    lookup: &L,
    surface: &S,
    blend: &B,
    color: Color3,
)
    requires
        at_most(camera.background_color, camera.background_color),
        no_lights(world, hit),
        tints_meet(surface, |t: Color3| dims(t)),
        blend_keeps(
            blend,
            |t: Color3| dims(t),
            |c: Color3| at_most(c, camera.background_color),
        ),
        camera.color_is(ray, world, depth, hit, lookup, surface, blend, color),
    ensures
        at_most(color, camera.background_color),
        camera.background_color == black() ==> color.x.same_value(Scalar::zero())
            && color.y.same_value(Scalar::zero()) && color.z.same_value(Scalar::zero()),
{
    lemma_light_stays_within(
        camera,
        ray,
        world,
        depth,
        hit,
        lookup,
        surface,
        blend,
        |t: Color3| dims(t),
        |c: Color3| at_most(c, camera.background_color),
        color,
    );
}

/// A ray that hits nothing brings the background itself, unblended, as long
/// as there is depth.
pub proof fn lemma_a_ray_that_gets_out_sees_the_background<
    H: Fn(&Hittables, &Ray, Interval) -> Option<HitRecord>,
    L: Fn(&Textures, Scalar, Scalar, &Point3) -> Color3,
    S: Fn(&Materials, &Ray, &HitRecord) -> Option<(Color3, Ray)>,
    B: Fn(Color3, Color3, Color3) -> Color3,
>(
    camera: Camera,
    ray: Ray,
    world: &Hittables,
    depth: i32,
    hit: &H,
    lookup: &L,
    surface: &S,
    blend: &B,
    color: Color3,
)
    requires
        depth > 0,
        forall|found: Option<HitRecord>| #[trigger]
            call_ensures(*hit, (world, &ray, reach()), found) ==> found.is_none(),
        camera.color_is(ray, world, depth, hit, lookup, surface, blend, color),
    ensures
        color == camera.background_color,
{
    let step = lemma_light_comes_of_a_step(
        camera,
        ray,
        world,
        depth,
        hit,
        lookup,
        surface,
        blend,
        color,
    );
}

/// Whether `to` is what `k` blendings with `tint`, without emission, make of
/// the light `from`.
pub open spec fn faded<B: Fn(Color3, Color3, Color3) -> Color3>(
    blend: &B,
    tint: Color3,
    from: Color3,
    k: nat,
    to: Color3,
) -> bool
    decreases k,
{
    if k == 0 {
        to == from
    } else {
        exists|mid: Color3|
            faded(blend, tint, from, (k - 1) as nat, mid) && #[trigger] call_ensures(
                *blend,
                (black(), tint, mid),
                to,
            )
    }
}

/// Whether `to` is what at most `n` blendings with `tint` make of `from`.
pub open spec fn fades<B: Fn(Color3, Color3, Color3) -> Color3>(
    blend: &B,
    tint: Color3,
    from: Color3,
    n: int,
    to: Color3,
) -> bool {
    exists|k: nat| k <= n && #[trigger] faded(blend, tint, from, k, to)
}

/// In a scene of surfaces of one tint, without lights, the light along a ray
/// is the background, or black, blended with the tint once for each
/// scattering on the way: the background after fewer scatterings than there
/// is depth, where the ray gets out of the scene; black after at most as many
/// as there is depth, where it is absorbed or the depth runs out.
pub proof fn lemma_light_is_the_background_faded<
    H: Fn(&Hittables, &Ray, Interval) -> Option<HitRecord>,
    L: Fn(&Textures, Scalar, Scalar, &Point3) -> Color3,
    S: Fn(&Materials, &Ray, &HitRecord) -> Option<(Color3, Ray)>,
    B: Fn(Color3, Color3, Color3) -> Color3,
>(
    camera: Camera,
    ray: Ray,
    world: &Hittables,
    depth: i32,
    hit: &H,
    lookup: &L,
    surface: &S,
    blend: &B,
    tint: Color3,
    color: Color3,
)
    requires
        no_lights(world, hit),
        tints_meet(surface, |t: Color3| t == tint),
        camera.color_is(ray, world, depth, hit, lookup, surface, blend, color),
    ensures
        fades(blend, tint, camera.background_color, depth - 1, color) || fades(
            blend,
            tint,
            black(),
            depth as int,
            color,
        ) || (depth < 0 && color == black()),
    decreases depth,
{
    let sky = camera.background_color;
    if depth <= 0 {
        assert(faded(blend, tint, black(), 0, black()));
    } else {
        let step = lemma_light_comes_of_a_step(
            camera,
            ray,
            world,
            depth,
            hit,
            lookup,
            surface,
            blend,
            color,
        );
        match step.found {
            None => {
                assert(faded(blend, tint, sky, 0, sky));
            },
            Some(hr) => {
                assert(step.emitted == black());
                match step.scattered {
                    None => {
                        assert(faded(blend, tint, black(), 0, black()));
                    },
                    Some((attenuation, onward)) => {
                        assert(call_ensures(*surface, (&*hr.mat, &ray, &hr), step.scattered));
                        assert(attenuation == tint);
                        lemma_light_is_the_background_faded(
                            camera,
                            onward,
                            world,
                            (depth - 1) as i32,
                            hit,
                            lookup,
                            surface,
                            blend,
                            tint,
                            step.incoming,
                        );
                        if fades(blend, tint, sky, depth - 2, step.incoming) {
                            let k = choose|k: nat|
                                k <= depth - 2 && #[trigger] faded(
                                    blend,
                                    tint,
                                    sky,
                                    k,
                                    step.incoming,
                                );
                            assert(faded(blend, tint, sky, k + 1, color));
                        } else {
                            assert(depth - 1 >= 0);
                            assert(fades(blend, tint, black(), depth - 1, step.incoming));
                            let k = choose|k: nat|
                                k <= depth - 1 && #[trigger] faded(
                                    blend,
                                    tint,
                                    black(),
                                    k,
                                    step.incoming,
                                );
                            assert(faded(blend, tint, black(), k + 1, color));
                        }
                    },
                }
            },
        }
    }
}

/// The light along a ray is a function of the ray, the scene, the depth and
/// the answers of the functions asked: where each of them has one answer to
/// each question, any two results of the integrator are the same.
pub proof fn lemma_light_is_determined<
    H: Fn(&Hittables, &Ray, Interval) -> Option<HitRecord>,
    L: Fn(&Textures, Scalar, Scalar, &Point3) -> Color3,
    S: Fn(&Materials, &Ray, &HitRecord) -> Option<(Color3, Ray)>,
    B: Fn(Color3, Color3, Color3) -> Color3,
>(
    camera: Camera,
    ray: Ray,
    world: &Hittables,
    depth: i32,
    hit: &H,
    lookup: &L,
    surface: &S,
    blend: &B,
    one: Color3,
    other: Color3,
)
    requires
        light_is_settled(hit, lookup, surface, blend),
        camera.color_is(ray, world, depth, hit, lookup, surface, blend, one),
        camera.color_is(ray, world, depth, hit, lookup, surface, blend, other),
    ensures
        one == other,
    decreases depth,
{
    if depth > 0 {
        let a = lemma_light_comes_of_a_step(camera, ray, world, depth, hit, lookup, surface, blend, one);
        let b = lemma_light_comes_of_a_step(
            camera,
            ray,
            world,
            depth,
            hit,
            lookup,
            surface,
            blend,
            other,
        );
        assert(a.found == b.found);
        match a.found {
            None => {},
            Some(hr) => {
                assert(a.emitted == b.emitted);
                assert(a.scattered == b.scattered);
                match a.scattered {
                    None => {},
                    Some((attenuation, onward)) => {
                        lemma_light_is_determined(
                            camera,
                            onward,
                            world,
                            (depth - 1) as i32,
                            hit,
                            lookup,
                            surface,
                            blend,
                            a.incoming,
                            b.incoming,
                        );
                    },
                }
            },
        }
    }
}

/// What the taking of one sample found: the ray, the light along it, and the
/// sum with that light added.
pub struct Sample {
    pub ray: Ray,
    pub light: Color3,
    pub sum: Color3,
}

/// The number of samples that have been taken of a pixel once its sum is
/// done, counted from `taken`.
pub open spec fn taken_at_the_end(camera: Camera, taken: int) -> int {
    if taken >= camera.samples_per_pixel {
        taken
    } else {
        camera.samples_per_pixel as int
    }
}

/// Whether `gather`, given a sum of `k` samples that meets `sums` and light
/// that is `within`, gives a sum of `k + 1` samples that meets `sums`.
pub open spec fn gather_keeps<A: Fn(Color3, Color3) -> Color3>(
    gather: &A,
    within: spec_fn(Color3) -> bool,
    sums: spec_fn(int, Color3) -> bool,
) -> bool {
    forall|k: int, sum: Color3, light: Color3, next: Color3|
        #![trigger call_ensures(*gather, (sum, light), next), sums(k, sum)]
        call_ensures(*gather, (sum, light), next) && sums(k, sum) && within(light) ==> sums(
            k + 1,
            next,
        )
}

/// Whether `scale`, given a sum of `n` samples that meets `sums` and the
/// factor `by`, gives a pixel that meets `shown`.
pub open spec fn scale_keeps<M: Fn(Color3, Scalar) -> Color3>(
    scale: &M,
    by: Scalar,
    n: int,
    sums: spec_fn(int, Color3) -> bool,
    shown: spec_fn(Color3) -> bool,
) -> bool {
    forall|sum: Color3, pixel: Color3| #[trigger]
        call_ensures(*scale, (sum, by), pixel) && sums(n, sum) ==> shown(pixel)
}

/// While samples are left to take, the sum of a pixel comes of taking one.
pub proof fn lemma_sum_comes_of_a_sample<
    R: Fn(usize, usize) -> Ray,
    A: Fn(Color3, Color3) -> Color3,
    H: Fn(&Hittables, &Ray, Interval) -> Option<HitRecord>,
    L: Fn(&Textures, Scalar, Scalar, &Point3) -> Color3,
    S: Fn(&Materials, &Ray, &HitRecord) -> Option<(Color3, Ray)>,
    B: Fn(Color3, Color3, Color3) -> Color3,
>(
    camera: Camera,
    world: &Hittables,
    i: usize,
    j: usize,
    taken: int,
    so_far: Color3,
    get_ray: &R,
    gather: &A,
    hit: &H,
    lookup: &L,
    surface: &S,
    blend: &B,
    sum: Color3,
) -> (sample: Sample)
    requires
        taken < camera.samples_per_pixel,
        camera.samples_add_to(
            world,
            i,
            j,
            taken,
            so_far,
            get_ray,
            gather,
            hit,
            lookup,
            surface,
            blend,
            sum,
        ),
    ensures
        call_ensures(*get_ray, (i, j), sample.ray),
        camera.color_is(
            sample.ray,
            world,
            camera.max_depth,
            hit,
            lookup,
            surface,
            blend,
            sample.light,
        ),
        call_ensures(*gather, (so_far, sample.light), sample.sum),
        camera.samples_add_to(
            world,
            i,
            j,
            taken + 1,
            sample.sum,
            get_ray,
            gather,
            hit,
            lookup,
            surface,
            blend,
            sum,
        ),
{
    let (r, c, next) = choose|r: Ray, c: Color3, next: Color3|
        #![trigger call_ensures(*get_ray, (i, j), r), call_ensures(*gather, (so_far, c), next)]
        call_ensures(*get_ray, (i, j), r) && camera.color_is(
            r,
            world,
            camera.max_depth,
            hit,
            lookup,
            surface,
            blend,
            c,
        ) && call_ensures(*gather, (so_far, c), next) && camera.samples_add_to(
            world,
            i,
            j,
            taken + 1,
            next,
            get_ray,
            gather,
            hit,
            lookup,
            surface,
            blend,
            sum,
        );
    Sample { ray: r, light: c, sum: next }
}

/// In a scene without lights, the sum of a pixel's samples keeps to what
/// `gather` keeps to.
///
/// `sums(k, s)` is a condition on the sum `s` of `k` samples. Where the light
/// of every sample is `within` (see `lemma_light_stays_within`) and `gather`
/// keeps `sums`, a sum that starts from one that meets `sums` ends in one that
/// does.
pub proof fn lemma_sum_stays_within<
    R: Fn(usize, usize) -> Ray,
    A: Fn(Color3, Color3) -> Color3,
    H: Fn(&Hittables, &Ray, Interval) -> Option<HitRecord>,
    L: Fn(&Textures, Scalar, Scalar, &Point3) -> Color3,
    S: Fn(&Materials, &Ray, &HitRecord) -> Option<(Color3, Ray)>,
    B: Fn(Color3, Color3, Color3) -> Color3,
>(
    camera: Camera,
    world: &Hittables,
    i: usize,
    j: usize,
    taken: int,
    so_far: Color3,
    get_ray: &R,
    gather: &A,
    hit: &H,
    lookup: &L,
    surface: &S,
    blend: &B,
    dim: spec_fn(Color3) -> bool,
    within: spec_fn(Color3) -> bool,
    sums: spec_fn(int, Color3) -> bool,
    sum: Color3,
)
    requires
        within(black()),
        within(camera.background_color) || closed(world, hit),
        no_lights(world, hit),
        tints_meet(surface, dim),
        blend_keeps(blend, dim, within),
        gather_keeps(gather, within, sums),
        sums(taken, so_far),
        camera.samples_add_to(
            world,
            i,
            j,
            taken,
            so_far,
            get_ray,
            gather,
            hit,
            lookup,
            surface,
            blend,
            sum,
        ),
    ensures
        sums(taken_at_the_end(camera, taken), sum),
    decreases camera.samples_per_pixel - taken,
{
    if taken < camera.samples_per_pixel {
        let sample = lemma_sum_comes_of_a_sample(
            camera,
            world,
            i,
            j,
            taken,
            so_far,
            get_ray,
            gather,
            hit,
            lookup,
            surface,
            blend,
            sum,
        );
        lemma_light_stays_within(
            camera,
            sample.ray,
            world,
            camera.max_depth,
            hit,
            lookup,
            surface,
            blend,
            dim,
            within,
            sample.light,
        );
        lemma_sum_stays_within(
            camera,
            world,
            i,
            j,
            taken + 1,
            sample.sum,
            get_ray,
            gather,
            hit,
            lookup,
            surface,
            blend,
            dim,
            within,
            sums,
            sum,
        );
    }
}

/// In a scene without lights, every pixel of a scanline keeps to what the
/// arithmetic keeps to.
///
/// Where the light of every sample is `within`, `gather` keeps `sums` from
/// black on, and `scale` makes of a sum of all samples that meets `sums` a
/// pixel that meets `shown`, every pixel of the line meets `shown`.
pub proof fn lemma_line_stays_within<
    R: Fn(usize, usize) -> Ray,
    A: Fn(Color3, Color3) -> Color3,
    M: Fn(Color3, Scalar) -> Color3,
    H: Fn(&Hittables, &Ray, Interval) -> Option<HitRecord>,
    L: Fn(&Textures, Scalar, Scalar, &Point3) -> Color3,
    S: Fn(&Materials, &Ray, &HitRecord) -> Option<(Color3, Ray)>,
    B: Fn(Color3, Color3, Color3) -> Color3,
>(
    camera: Camera,
    world: &Hittables,
    j: usize,
    get_ray: &R,
    gather: &A,
    scale: &M,
    hit: &H,
    lookup: &L,
    surface: &S,
    blend: &B,
    dim: spec_fn(Color3) -> bool,
    within: spec_fn(Color3) -> bool,
    sums: spec_fn(int, Color3) -> bool,
    shown: spec_fn(Color3) -> bool,
    line: Seq<Color3>,
)
    requires
        within(black()),
        within(camera.background_color) || closed(world, hit),
        no_lights(world, hit),
        tints_meet(surface, dim),
        blend_keeps(blend, dim, within),
        gather_keeps(gather, within, sums),
        sums(0, black()),
        scale_keeps(scale, camera.pixel_samples_scale, taken_at_the_end(camera, 0), sums, shown),
        camera.line_is(world, j, get_ray, gather, scale, hit, lookup, surface, blend, line),
    ensures
        line.len() == camera.image_width,
        forall|i: int| 0 <= i < line.len() ==> shown(#[trigger] line[i]),
{
    assert forall|i: int| 0 <= i < line.len() implies shown(#[trigger] line[i]) by {
        let pixel = line[i];
        assert(camera.pixel_is(
            world,
            i as usize,
            j,
            get_ray,
            gather,
            scale,
            hit,
            lookup,
            surface,
            blend,
            pixel,
        ));
        let sum = choose|sum: Color3| #[trigger]
            call_ensures(*scale, (sum, camera.pixel_samples_scale), pixel)
                && camera.samples_add_to(
                world,
                i as usize,
                j,
                0,
                black(),
                get_ray,
                gather,
                hit,
                lookup,
                surface,
                blend,
                sum,
            );
        lemma_sum_stays_within(
            camera,
            world,
            i as usize,
            j,
            0,
            black(),
            get_ray,
            gather,
            hit,
            lookup,
            surface,
            blend,
            dim,
            within,
            sums,
            sum,
        );
    }
}

/// A dark scene renders black: without lights, against a black background or
/// closed about every ray whatever the background, where `blend` makes black
/// of black emission and black incoming light, `gather` makes black of black
/// and black, and `scale` makes black of black, every pixel of every scanline
/// is black, whatever the depth and the number of samples.
pub proof fn lemma_dark_scene_renders_black<
    R: Fn(usize, usize) -> Ray,
    A: Fn(Color3, Color3) -> Color3,
    M: Fn(Color3, Scalar) -> Color3,
    H: Fn(&Hittables, &Ray, Interval) -> Option<HitRecord>,
    L: Fn(&Textures, Scalar, Scalar, &Point3) -> Color3,
    S: Fn(&Materials, &Ray, &HitRecord) -> Option<(Color3, Ray)>,
    B: Fn(Color3, Color3, Color3) -> Color3,
>(
    camera: Camera,
    world: &Hittables,
    j: usize,
    get_ray: &R,
    gather: &A,
    scale: &M,
    hit: &H,
    lookup: &L,
    surface: &S,
    blend: &B,
    line: Seq<Color3>,
)
    requires
        camera.background_color == black() || closed(world, hit),
        no_lights(world, hit),
        forall|tint: Color3, c: Color3| #[trigger]
            call_ensures(*blend, (black(), tint, black()), c) ==> c == black(),
        forall|c: Color3| #[trigger] call_ensures(*gather, (black(), black()), c) ==> c == black(),
        forall|c: Color3| #[trigger]
            call_ensures(*scale, (black(), camera.pixel_samples_scale), c) ==> c == black(),
        camera.line_is(world, j, get_ray, gather, scale, hit, lookup, surface, blend, line),
    ensures
        line.len() == camera.image_width,
        forall|i: int| 0 <= i < line.len() ==> #[trigger] line[i] == black(),
{
    lemma_line_stays_within(
        camera,
        world,
        j,
        get_ray,
        gather,
        scale,
        hit,
        lookup,
        surface,
        blend,
        |t: Color3| true,
        |c: Color3| c == black(),
        |k: int, s: Color3| s == black(),
        |c: Color3| c == black(),
        line,
    );
}

/// The sum of a pixel's samples is a function of the pixel, the scene and the
/// answers of the functions asked.
pub proof fn lemma_sum_is_determined<
    R: Fn(usize, usize) -> Ray,
    A: Fn(Color3, Color3) -> Color3,
    M: Fn(Color3, Scalar) -> Color3,
    H: Fn(&Hittables, &Ray, Interval) -> Option<HitRecord>,
    L: Fn(&Textures, Scalar, Scalar, &Point3) -> Color3,
    S: Fn(&Materials, &Ray, &HitRecord) -> Option<(Color3, Ray)>,
    B: Fn(Color3, Color3, Color3) -> Color3,
>(
    camera: Camera,
    world: &Hittables,
    i: usize,
    j: usize,
    taken: int,
    so_far: Color3,
    get_ray: &R,
    gather: &A,
    scale: &M,
    hit: &H,
    lookup: &L,
    surface: &S,
    blend: &B,
    one: Color3,
    other: Color3,
)
    requires
        light_is_settled(hit, lookup, surface, blend),
        samples_are_settled(get_ray, gather, scale),
        camera.samples_add_to(
            world,
            i,
            j,
            taken,
            so_far,
            get_ray,
            gather,
            hit,
            lookup,
            surface,
            blend,
            one,
        ),
        camera.samples_add_to(
            world,
            i,
            j,
            taken,
            so_far,
            get_ray,
            gather,
            hit,
            lookup,
            surface,
            blend,
            other,
        ),
    ensures
        one == other,
    decreases camera.samples_per_pixel - taken,
{
    if taken < camera.samples_per_pixel {
        let a = lemma_sum_comes_of_a_sample(
            camera,
            world,
            i,
            j,
            taken,
            so_far,
            get_ray,
            gather,
            hit,
            lookup,
            surface,
            blend,
            one,
        );
        let b = lemma_sum_comes_of_a_sample(
            camera,
            world,
            i,
            j,
            taken,
            so_far,
            get_ray,
            gather,
            hit,
            lookup,
            surface,
            blend,
            other,
        );
        assert(a.ray == b.ray);
        lemma_light_is_determined(
            camera,
            a.ray,
            world,
            camera.max_depth,
            hit,
            lookup,
            surface,
            blend,
            a.light,
            b.light,
        );
        assert(a.sum == b.sum);
        lemma_sum_is_determined(
            camera,
            world,
            i,
            j,
            taken + 1,
            a.sum,
            get_ray,
            gather,
            scale,
            hit,
            lookup,
            surface,
            blend,
            one,
            other,
        );
    }
}

/// A scanline is a function of the camera, the scene and the draws: where
/// each function that is asked has one answer to each question, any two
/// renderings of a scanline are the same, pixel for pixel and bit for bit.
pub proof fn lemma_line_is_determined<
    R: Fn(usize, usize) -> Ray,
    A: Fn(Color3, Color3) -> Color3,
    M: Fn(Color3, Scalar) -> Color3,
    H: Fn(&Hittables, &Ray, Interval) -> Option<HitRecord>,
    L: Fn(&Textures, Scalar, Scalar, &Point3) -> Color3,
    S: Fn(&Materials, &Ray, &HitRecord) -> Option<(Color3, Ray)>,
    B: Fn(Color3, Color3, Color3) -> Color3,
>(
    camera: Camera,
    world: &Hittables,
    j: usize,
    get_ray: &R,
    gather: &A,
    scale: &M,
    hit: &H,
    lookup: &L,
    surface: &S,
    blend: &B,
    one: Seq<Color3>,
    other: Seq<Color3>,
)
    requires
        light_is_settled(hit, lookup, surface, blend),
        samples_are_settled(get_ray, gather, scale),
        camera.line_is(world, j, get_ray, gather, scale, hit, lookup, surface, blend, one),
        camera.line_is(world, j, get_ray, gather, scale, hit, lookup, surface, blend, other),
    ensures
        one == other,
{
    assert forall|i: int| 0 <= i < one.len() implies one[i] == other[i] by {
        assert(camera.pixel_is(
            world,
            i as usize,
            j,
            get_ray,
            gather,
            scale,
            hit,
            lookup,
            surface,
            blend,
            one[i],
        ));
        assert(camera.pixel_is(
            world,
            i as usize,
            j,
            get_ray,
            gather,
            scale,
            hit,
            lookup,
            surface,
            blend,
            other[i],
        ));
        let a = choose|sum: Color3| #[trigger]
            call_ensures(*scale, (sum, camera.pixel_samples_scale), one[i])
                && camera.samples_add_to(
                world,
                i as usize,
                j,
                0,
                black(),
                get_ray,
                gather,
                hit,
                lookup,
                surface,
                blend,
                sum,
            );
        let b = choose|sum: Color3| #[trigger]
            call_ensures(*scale, (sum, camera.pixel_samples_scale), other[i])
                && camera.samples_add_to(
                world,
                i as usize,
                j,
                0,
                black(),
                get_ray,
                gather,
                hit,
                lookup,
                surface,
                blend,
                sum,
            );
        lemma_sum_is_determined(
            camera,
            world,
            i as usize,
            j,
            0,
            black(),
            get_ray,
            gather,
            scale,
            hit,
            lookup,
            surface,
            blend,
            a,
            b,
        );
    }
    assert(one =~= other);
}

/// The image is a function of the camera, the scene and the draws, and of
/// nothing else: not of the number of workers, nor of the order in which they
/// work. Any two images of which each line is what `render_line` makes of its
/// scanline are the same, bit for bit, where each function that is asked has
/// one answer to each question.
pub proof fn lemma_image_is_determined<
    R: Fn(usize, usize) -> Ray,
    A: Fn(Color3, Color3) -> Color3,
    M: Fn(Color3, Scalar) -> Color3,
    H: Fn(&Hittables, &Ray, Interval) -> Option<HitRecord>,
    L: Fn(&Textures, Scalar, Scalar, &Point3) -> Color3,
    S: Fn(&Materials, &Ray, &HitRecord) -> Option<(Color3, Ray)>,
    B: Fn(Color3, Color3, Color3) -> Color3,
>(
    camera: Camera,
    world: &Hittables,
    get_ray: &R,
    gather: &A,
    scale: &M,
    hit: &H,
    lookup: &L,
    surface: &S,
    blend: &B,
    one: Seq<Seq<Color3>>,
    other: Seq<Seq<Color3>>,
)
    requires
        light_is_settled(hit, lookup, surface, blend),
        samples_are_settled(get_ray, gather, scale),
        one.len() == camera.image_height,
        other.len() == camera.image_height,
        forall|j: int|
            0 <= j < camera.image_height ==> camera.line_is(
                world,
                j as usize,
                get_ray,
                gather,
                scale,
                hit,
                lookup,
                surface,
                blend,
                #[trigger] one[j],
            ),
        forall|j: int|
            0 <= j < camera.image_height ==> camera.line_is(
                world,
                j as usize,
                get_ray,
                gather,
                scale,
                hit,
                lookup,
                surface,
                blend,
                #[trigger] other[j],
            ),
    ensures
        one == other,
{
    assert forall|j: int| 0 <= j < one.len() implies one[j] == other[j] by {
        lemma_line_is_determined(
            camera,
            world,
            j as usize,
            get_ray,
            gather,
            scale,
            hit,
            lookup,
            surface,
            blend,
            one[j],
            other[j],
        );
    }
    assert(one =~= other);
}

} // verus!
