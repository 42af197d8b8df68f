//! The camera and the path-tracing integrator.

use vstd::prelude::*;
use crate::hit_record::HitRecord;
use crate::hittables::Hittables;
use crate::interval::Interval;
use crate::materials::{black, Materials};
use crate::ray::Ray;
use crate::scalar::Scalar;
use crate::texture::Textures;
use crate::vec3::{Color3, Point3, Vec3};

verus! {

/// The pattern of `0.001`, the least ray parameter at which a hit counts. It
/// keeps a ray from hitting the surface it starts on.
pub const NEAREST_BITS: u64 = 0x3f50_624d_d2f1_a9fc;

/// What a camera is set up from.
#[derive(Clone, Copy, Debug)]
pub struct CamArgs {
    pub aspect_ratio: Scalar,
    pub image_width: usize,
    pub samples_per_pixel: i32,
    pub max_depth: i32,
    pub vfov: Scalar,
    pub look_from: Point3,
    pub look_at: Point3,
    pub v_up: Vec3,
    pub defocus_angle: Scalar,
    pub focus_dist: Scalar,
    pub background: Color3,
    pub thread_num: usize,
}

/// The geometry of the viewport, computed from the arguments and the image
/// height.
#[derive(Clone, Copy, Debug, PartialEq, Eq, Structural)]
pub struct Optics {
    pub pixel_samples_scale: Scalar,
    pub pixel00_loc: Point3,
    pub pixel_delta_u: Vec3,
    pub pixel_delta_v: Vec3,
    pub defocus_disk_u: Vec3,
    pub defocus_disk_v: Vec3,
}

/// A camera, ready to render.
#[derive(Clone, Copy, Debug)]
pub struct Camera {
    pub samples_per_pixel: i32,
    pub max_depth: i32,
    pub image_width: usize,
    pub image_height: usize,
    pub pixel_samples_scale: Scalar,
    pub center: Point3,
    pub pixel00_loc: Point3,
    pub pixel_delta_u: Vec3,
    pub pixel_delta_v: Vec3,
    pub defocus_angle: Scalar,
    pub defocus_disk_u: Vec3,
    pub defocus_disk_v: Vec3,
    pub background_color: Color3,
    pub thread_num: usize,
}

/// The range of ray parameters over which the integrator looks for a hit:
/// from `0.001` on, without end.
pub open spec fn reach() -> Interval {
    Interval { min: Scalar { bits: NEAREST_BITS }, max: Scalar::infinity() }
}

/// The height of an image in rows, from the quotient of its width and aspect
/// ratio: at least one row.
pub open spec fn rows(raw_height: usize) -> usize {
    if raw_height < 1 {
        1
    } else {
        raw_height
    }
}

/// The first scanline of the band of worker `thread`, when `height` lines
/// are dealt out to `workers` workers.
pub open spec fn band_start(height: usize, workers: usize, thread: usize) -> int
    recommends
        workers > 0,
{
    thread * (height as int / workers as int)
}

/// The number of scanlines in the band of worker `thread`: the same for
/// all, but for the last worker, who takes what is left.
pub open spec fn band_len(height: usize, workers: usize, thread: usize) -> int
    recommends
        0 <= thread < workers,
{
    if thread == workers - 1 {
        height - thread * (height as int / workers as int)
    } else {
        height as int / workers as int
    }
}

/// `n` empty lines.
pub open spec fn blank(n: nat) -> Seq<Seq<Color3>> {
    Seq::new(n, |i: int| Seq::<Color3>::empty())
}

/// The colours of each line.
pub open spec fn rows_of(lines: Seq<Vec<Color3>>) -> Seq<Seq<Color3>> {
    Seq::new(lines.len(), |i: int| lines[i]@)
}

/// `lines` after each line of `rendered`, in order, has been put in its
/// place.
pub open spec fn placed(lines: Seq<Seq<Color3>>, rendered: Seq<(usize, Vec<Color3>)>) -> Seq<
    Seq<Color3>,
>
    decreases rendered.len(),
{
    if rendered.len() == 0 {
        lines
    } else {
        placed(lines.update(rendered[0].0 as int, rendered[0].1@), rendered.drop_first())
    }
}

/// The number of scanlines dealt out to the workers before worker `thread`;
/// all of them, once every worker has had its band.
pub open spec fn lines_before(height: usize, workers: usize, thread: usize) -> int
    recommends
        workers > 0,
{
    if thread >= workers {
        height as int
    } else {
        band_start(height, workers, thread)
    }
}

impl Camera {
    /// Whether `color` is what `ray_color` may answer.
    pub open spec fn color_is<
        H: Fn(&Hittables, &Ray, Interval) -> Option<HitRecord>,
        L: Fn(&Textures, Scalar, Scalar, &Point3) -> Color3,
        S: Fn(&Materials, &Ray, &HitRecord) -> Option<(Color3, Ray)>,
        B: Fn(Color3, Color3, Color3) -> Color3,
    >(
        &self,
        ray: Ray,
        world: &Hittables,
        depth: i32,
        hit: &H,
        lookup: &L,
        surface: &S,
        blend: &B,
        color: Color3,
    ) -> bool
        decreases depth,
    {
        if depth <= 0 {
            color == black()
        } else {
            exists|found: Option<HitRecord>| #[trigger]
                call_ensures(*hit, (world, &ray, reach()), found) && match found {
                    None => color == self.background_color,
                    Some(hr) => exists|emitted: Color3, scattered: Option<(Color3, Ray)>|
                        #![trigger
                            hr.mat.emitted_is(hr.u, hr.v, &hr.point, lookup, emitted),
                            hr.mat.scatter_is(&ray, &hr, surface, scattered)]
                        hr.mat.emitted_is(hr.u, hr.v, &hr.point, lookup, emitted)
                            && hr.mat.scatter_is(&ray, &hr, surface, scattered) && match scattered {
                            None => color == emitted,
                            Some((attenuation, onward)) => exists|incoming: Color3|
                                self.color_is(
                                    onward,
                                    world,
                                    (depth - 1) as i32,
                                    hit,
                                    lookup,
                                    surface,
                                    blend,
                                    incoming,
                                ) && #[trigger] call_ensures(
                                    *blend,
                                    (emitted, attenuation, incoming),
                                    color,
                                ),
                        },
                }
        }
    }

    /// Whether `sum` is what the samples of pixel `(i, j)` from `taken` up to
    /// the camera's number of samples may add up to, starting from `so_far`.
    pub open spec fn samples_add_to<
        R: Fn(usize, usize) -> Ray,
        A: Fn(Color3, Color3) -> Color3,
        H: Fn(&Hittables, &Ray, Interval) -> Option<HitRecord>,
        L: Fn(&Textures, Scalar, Scalar, &Point3) -> Color3,
        S: Fn(&Materials, &Ray, &HitRecord) -> Option<(Color3, Ray)>,
        B: Fn(Color3, Color3, Color3) -> Color3,
    >(
        &self,
        world: &Hittables,
        i: usize,
        j: usize,
        taken: int,
        so_far: Color3,
        get_ray: &R,
        gather: &A,
        hit: &H,
        lookup: &L,
        surface: &S,
        blend: &B,
        sum: Color3,
    ) -> bool
        decreases self.samples_per_pixel - taken,
    {
        if taken >= self.samples_per_pixel {
            sum == so_far
        } else {
            exists|r: Ray, c: Color3, next: Color3|
                #![trigger call_ensures(*get_ray, (i, j), r), call_ensures(*gather, (so_far, c), next)]
                call_ensures(*get_ray, (i, j), r) && self.color_is(
                    r,
                    world,
                    self.max_depth,
                    hit,
                    lookup,
                    surface,
                    blend,
                    c,
                ) && call_ensures(*gather, (so_far, c), next) && self.samples_add_to(
                    world,
                    i,
                    j,
                    taken + 1,
                    next,
                    get_ray,
                    gather,
                    hit,
                    lookup,
                    surface,
                    blend,
                    sum,
                )
        }
    }

    /// Whether `pixel` is what `render_line` may find for pixel `(i, j)`: the
    /// sum of the pixel's samples, starting from black, scaled by the
    /// camera's scale.
    pub open spec fn pixel_is<
        R: Fn(usize, usize) -> Ray,
        A: Fn(Color3, Color3) -> Color3,
        M: Fn(Color3, Scalar) -> Color3,
        H: Fn(&Hittables, &Ray, Interval) -> Option<HitRecord>,
        L: Fn(&Textures, Scalar, Scalar, &Point3) -> Color3,
        S: Fn(&Materials, &Ray, &HitRecord) -> Option<(Color3, Ray)>,
        B: Fn(Color3, Color3, Color3) -> Color3,
    >(
        &self,
        world: &Hittables,
        i: usize,
        j: usize,
        get_ray: &R,
        gather: &A,
        scale: &M,
        hit: &H,
        lookup: &L,
        surface: &S,
        blend: &B,
        pixel: Color3,
    ) -> bool {
        exists|sum: Color3| #[trigger]
            call_ensures(*scale, (sum, self.pixel_samples_scale), pixel) && self.samples_add_to(
                world,
                i,
                j,
                0,
                black(),
                get_ray,
                gather,
                hit,
                lookup,
                surface,
                blend,
                sum,
            )
    }

    /// Whether `line` is what `render_line` may make of scanline `j`: one
    /// pixel for each column of the image.
    pub open spec fn line_is<
        R: Fn(usize, usize) -> Ray,
        A: Fn(Color3, Color3) -> Color3,
        M: Fn(Color3, Scalar) -> Color3,
        H: Fn(&Hittables, &Ray, Interval) -> Option<HitRecord>,
        L: Fn(&Textures, Scalar, Scalar, &Point3) -> Color3,
        S: Fn(&Materials, &Ray, &HitRecord) -> Option<(Color3, Ray)>,
        B: Fn(Color3, Color3, Color3) -> Color3,
    >(
        &self,
        world: &Hittables,
        j: usize,
        get_ray: &R,
        gather: &A,
        scale: &M,
        hit: &H,
        lookup: &L,
        surface: &S,
        blend: &B,
        line: Seq<Color3>,
    ) -> bool {
        &&& line.len() == self.image_width
        &&& forall|i: int|
            0 <= i < self.image_width ==> self.pixel_is(
                world,
                i as usize,
                j,
                get_ray,
                gather,
                scale,
                hit,
                lookup,
                surface,
                blend,
                #[trigger] line[i],
            )
    }

    /// A camera for the given arguments.
    ///
    /// `raw_height` is the image width over the aspect ratio, cut to an
    /// integer; the image has that many rows, and one row if that is none.
    /// `optics` computes the viewport's geometry from the arguments and the
    /// number of rows. The camera stands at `look_from`.
    pub fn initilize<O: Fn(&CamArgs, usize) -> Optics>(args: CamArgs, raw_height: usize, optics: &O)
        -> (camera: Camera)
        requires
            forall|h: usize| call_requires(*optics, (&args, h)),
        ensures
            camera.image_width == args.image_width,
            camera.image_height == rows(raw_height),
            camera.samples_per_pixel == args.samples_per_pixel,
            camera.max_depth == args.max_depth,
            camera.center == args.look_from,
            camera.defocus_angle == args.defocus_angle,
            camera.background_color == args.background,
            camera.thread_num == args.thread_num,
            call_ensures(
                *optics,
                (&args, rows(raw_height)),
                Optics {
                    pixel_samples_scale: camera.pixel_samples_scale,
                    pixel00_loc: camera.pixel00_loc,
                    pixel_delta_u: camera.pixel_delta_u,
                    pixel_delta_v: camera.pixel_delta_v,
                    defocus_disk_u: camera.defocus_disk_u,
                    defocus_disk_v: camera.defocus_disk_v,
                },
            ),
    {
        let image_height = if raw_height < 1 {
            1
        } else {
            raw_height
        };
        let o = optics(&args, image_height);
        Camera {
            samples_per_pixel: args.samples_per_pixel,
            max_depth: args.max_depth,
            image_width: args.image_width,
            image_height,
            pixel_samples_scale: o.pixel_samples_scale,
            center: args.look_from,
            pixel00_loc: o.pixel00_loc,
            pixel_delta_u: o.pixel_delta_u,
            pixel_delta_v: o.pixel_delta_v,
            defocus_angle: args.defocus_angle,
            defocus_disk_u: o.defocus_disk_u,
            defocus_disk_v: o.defocus_disk_v,
            background_color: args.background,
            thread_num: args.thread_num,
        }
    }

    /// Where a camera ray starts: at the camera's centre when the defocus
    /// angle is at most zero; else at a point that `on_disk` draws on the
    /// defocus disk, and that is drawn in this case alone.
    pub fn ray_origin<D: Fn() -> Point3>(&self, on_disk: &D) -> (origin: Point3)
        requires
            call_requires(*on_disk, ()),
        ensures
            self.defocus_angle.le(Scalar::zero()) ==> origin == self.center,
            !self.defocus_angle.le(Scalar::zero()) ==> call_ensures(*on_disk, (), origin),
    {
        if self.defocus_angle.le(Scalar::zero()) {
            self.center
        } else {
            on_disk()
        }
    }

    /// The light that arrives along `ray`, followed through at most `depth`
    /// scatterings.
    ///
    /// With no depth left the answer is black. Else the scene is asked through
    /// `hit` for the nearest hit from parameter `0.001` on. A ray that hits
    /// nothing sees the background. At a hit, the material's emission is
    /// looked up (`lookup` reads a texture) and the material scatters the ray
    /// (`surface` is the law of a surface that is no light). An absorbed ray
    /// brings the emission alone; a scattered one brings what `blend` makes of
    /// the emission, the scattering's tint, and the light that arrives along
    /// the scattered ray with one less depth.
    pub fn ray_color<
        H: Fn(&Hittables, &Ray, Interval) -> Option<HitRecord>,
        L: Fn(&Textures, Scalar, Scalar, &Point3) -> Color3,
        S: Fn(&Materials, &Ray, &HitRecord) -> Option<(Color3, Ray)>,
        B: Fn(Color3, Color3, Color3) -> Color3,
    >(
        &self,
        ray: &Ray,
        world: &Hittables,
        depth: i32,
        hit: &H,
        lookup: &L,
        surface: &S,
        blend: &B,
    ) -> (color: Color3)
        requires
            forall|w: &Hittables, r: &Ray, i: Interval| call_requires(*hit, (w, r, i)),
            forall|t: &Textures, u: Scalar, v: Scalar, p: &Point3| call_requires(*lookup, (t, u, v, p)),
            forall|m: &Materials, r: &Ray, h: &HitRecord| call_requires(*surface, (m, r, h)),
            forall|e: Color3, a: Color3, c: Color3| call_requires(*blend, (e, a, c)),
        ensures
            self.color_is(*ray, world, depth, hit, lookup, surface, blend, color),
        decreases depth,
    {
        if depth <= 0 {
            return Vec3::zero();
        }
        let found = hit(world, ray, Interval::new(Scalar::from_bits(NEAREST_BITS), Scalar::infinity()));
        match found {
            Some(hr) => {
                let color_from_emission = hr.mat.emitted(hr.u, hr.v, &hr.point, lookup);
                let scattered = hr.mat.scatter(ray, &hr, surface);
                match scattered {
                    Some((attenuation, onward)) => {
                        let incoming = self.ray_color(
                            &onward,
                            world,
                            depth - 1,
                            hit,
                            lookup,
                            surface,
                            blend,
                        );
                        blend(color_from_emission, attenuation, incoming)
                    },
                    None => color_from_emission,
                }
            },
            None => self.background_color,
        }
    }

    fn sample_pixel<
        R: Fn(usize, usize) -> Ray,
        A: Fn(Color3, Color3) -> Color3,
        H: Fn(&Hittables, &Ray, Interval) -> Option<HitRecord>,
        L: Fn(&Textures, Scalar, Scalar, &Point3) -> Color3,
        S: Fn(&Materials, &Ray, &HitRecord) -> Option<(Color3, Ray)>,
        B: Fn(Color3, Color3, Color3) -> Color3,
    >(
        &self,
        world: &Hittables,
        i: usize,
        j: usize,
        taken: i32,
        so_far: Color3,
        get_ray: &R,
        gather: &A,
        hit: &H,
        lookup: &L,
        surface: &S,
        blend: &B,
    ) -> (sum: Color3)
        requires
            forall|a: usize, b: usize| call_requires(*get_ray, (a, b)),
            forall|a: Color3, b: Color3| call_requires(*gather, (a, b)),
            forall|w: &Hittables, r: &Ray, i: Interval| call_requires(*hit, (w, r, i)),
            forall|t: &Textures, u: Scalar, v: Scalar, p: &Point3| call_requires(*lookup, (t, u, v, p)),
            forall|m: &Materials, r: &Ray, h: &HitRecord| call_requires(*surface, (m, r, h)),
            forall|e: Color3, a: Color3, c: Color3| call_requires(*blend, (e, a, c)),
        ensures
            self.samples_add_to(
                world,
                i,
                j,
                taken as int,
                so_far,
                get_ray,
                gather,
                hit,
                lookup,
                surface,
                blend,
                sum,
            ),
    {
        let mut k: i32 = taken;
        let mut sum: Color3 = so_far;
        while k < self.samples_per_pixel
            invariant
                forall|a: usize, b: usize| call_requires(*get_ray, (a, b)),
                forall|a: Color3, b: Color3| call_requires(*gather, (a, b)),
                forall|w: &Hittables, r: &Ray, i: Interval| call_requires(*hit, (w, r, i)),
                forall|t: &Textures, u: Scalar, v: Scalar, p: &Point3|
                    call_requires(*lookup, (t, u, v, p)),
                forall|m: &Materials, r: &Ray, h: &HitRecord| call_requires(*surface, (m, r, h)),
                forall|e: Color3, a: Color3, c: Color3| call_requires(*blend, (e, a, c)),
                forall|end: Color3| #[trigger]
                    self.samples_add_to(
                        world,
                        i,
                        j,
                        k as int,
                        sum,
                        get_ray,
                        gather,
                        hit,
                        lookup,
                        surface,
                        blend,
                        end,
                    ) ==> self.samples_add_to(
                        world,
                        i,
                        j,
                        taken as int,
                        so_far,
                        get_ray,
                        gather,
                        hit,
                        lookup,
                        surface,
                        blend,
                        end,
                    ),
            decreases self.samples_per_pixel - k,
        {
            let r = get_ray(i, j);
            let c = self.ray_color(&r, world, self.max_depth, hit, lookup, surface, blend);
            let next = gather(sum, c);
            proof {
                assert forall|end: Color3| #[trigger]
                    self.samples_add_to(
                        world,
                        i,
                        j,
                        k + 1,
                        next,
                        get_ray,
                        gather,
                        hit,
                        lookup,
                        surface,
                        blend,
                        end,
                    ) implies self.samples_add_to(
                    world,
                    i,
                    j,
                    taken as int,
                    so_far,
                    get_ray,
                    gather,
                    hit,
                    lookup,
                    surface,
                    blend,
                    end,
                ) by {
                    assert(self.samples_add_to(
                        world,
                        i,
                        j,
                        k as int,
                        sum,
                        get_ray,
                        gather,
                        hit,
                        lookup,
                        surface,
                        blend,
                        end,
                    ));
                }
            }
            sum = next;
            k += 1;
        }
        assert(self.samples_add_to(
            world,
            i,
            j,
            k as int,
            sum,
            get_ray,
            gather,
            hit,
            lookup,
            surface,
            blend,
            sum,
        ));
        sum
    }

    /// The colours of scanline `j`, one for each column of the image.
    ///
    /// For each pixel the camera's number of samples is taken: `get_ray`
    /// makes a ray through the pixel, `ray_color` follows it with the
    /// camera's depth, and `gather` adds the colour to the pixel's sum, which
    /// starts black. `scale` then scales the sum by the camera's scale.
    pub fn render_line<
        R: Fn(usize, usize) -> Ray,
        A: Fn(Color3, Color3) -> Color3,
        M: Fn(Color3, Scalar) -> Color3,
        H: Fn(&Hittables, &Ray, Interval) -> Option<HitRecord>,
        L: Fn(&Textures, Scalar, Scalar, &Point3) -> Color3,
        S: Fn(&Materials, &Ray, &HitRecord) -> Option<(Color3, Ray)>,
        B: Fn(Color3, Color3, Color3) -> Color3,
    >(
        &self,
        world: &Hittables,
        j: usize,
        get_ray: &R,
        gather: &A,
        scale: &M,
        hit: &H,
        lookup: &L,
        surface: &S,
        blend: &B,
    ) -> (scan_line: Vec<Color3>)
        requires
            forall|a: usize, b: usize| call_requires(*get_ray, (a, b)),
            forall|a: Color3, b: Color3| call_requires(*gather, (a, b)),
            forall|a: Color3, b: Scalar| call_requires(*scale, (a, b)),
            forall|w: &Hittables, r: &Ray, i: Interval| call_requires(*hit, (w, r, i)),
            forall|t: &Textures, u: Scalar, v: Scalar, p: &Point3| call_requires(*lookup, (t, u, v, p)),
            forall|m: &Materials, r: &Ray, h: &HitRecord| call_requires(*surface, (m, r, h)),
            forall|e: Color3, a: Color3, c: Color3| call_requires(*blend, (e, a, c)),
        ensures
            self.line_is(world, j, get_ray, gather, scale, hit, lookup, surface, blend, scan_line@),
    {
        let mut scan_line: Vec<Color3> = Vec::new();
        let mut i: usize = 0;
        while i < self.image_width
            invariant
                i <= self.image_width,
                scan_line.len() == i,
                forall|a: usize, b: usize| call_requires(*get_ray, (a, b)),
                forall|a: Color3, b: Color3| call_requires(*gather, (a, b)),
                forall|a: Color3, b: Scalar| call_requires(*scale, (a, b)),
                forall|w: &Hittables, r: &Ray, i: Interval| call_requires(*hit, (w, r, i)),
                forall|t: &Textures, u: Scalar, v: Scalar, p: &Point3|
                    call_requires(*lookup, (t, u, v, p)),
                forall|m: &Materials, r: &Ray, h: &HitRecord| call_requires(*surface, (m, r, h)),
                forall|e: Color3, a: Color3, c: Color3| call_requires(*blend, (e, a, c)),
                forall|k: int|
                    0 <= k < i ==> self.pixel_is(
                        world,
                        k as usize,
                        j,
                        get_ray,
                        gather,
                        scale,
                        hit,
                        lookup,
                        surface,
                        blend,
                        #[trigger] scan_line[k],
                    ),
            decreases self.image_width - i,
        {
            let sum = self.sample_pixel(
                world,
                i,
                j,
                0,
                Vec3::zero(),
                get_ray,
                gather,
                hit,
                lookup,
                surface,
                blend,
            );
            let pixel = scale(sum, self.pixel_samples_scale);
            scan_line.push(pixel);
            i += 1;
        }
        scan_line
    }

    /// The scanlines of worker `thread`, each with its place in the image, in
    /// the order of the image; the lines themselves are as `render_line`
    /// makes them.
    pub fn render_band<
        R: Fn(usize, usize) -> Ray,
        A: Fn(Color3, Color3) -> Color3,
        M: Fn(Color3, Scalar) -> Color3,
        H: Fn(&Hittables, &Ray, Interval) -> Option<HitRecord>,
        L: Fn(&Textures, Scalar, Scalar, &Point3) -> Color3,
        S: Fn(&Materials, &Ray, &HitRecord) -> Option<(Color3, Ray)>,
        B: Fn(Color3, Color3, Color3) -> Color3,
    >(
        &self,
        world: &Hittables,
        thread: usize,
        get_ray: &R,
        gather: &A,
        scale: &M,
        hit: &H,
        lookup: &L,
        surface: &S,
        blend: &B,
    ) -> (local_results: Vec<(usize, Vec<Color3>)>)
        requires
            thread < self.thread_num,
            forall|a: usize, b: usize| call_requires(*get_ray, (a, b)),
            forall|a: Color3, b: Color3| call_requires(*gather, (a, b)),
            forall|a: Color3, b: Scalar| call_requires(*scale, (a, b)),
            forall|w: &Hittables, r: &Ray, i: Interval| call_requires(*hit, (w, r, i)),
            forall|t: &Textures, u: Scalar, v: Scalar, p: &Point3| call_requires(*lookup, (t, u, v, p)),
            forall|m: &Materials, r: &Ray, h: &HitRecord| call_requires(*surface, (m, r, h)),
            forall|e: Color3, a: Color3, c: Color3| call_requires(*blend, (e, a, c)),
        ensures
            local_results.len() == band_len(self.image_height, self.thread_num, thread),
            forall|k: int|
                0 <= k < local_results.len() ==> (#[trigger] local_results[k]).0 == band_start(
                    self.image_height,
                    self.thread_num,
                    thread,
                ) + k && self.line_is(
                    world,
                    local_results[k].0,
                    get_ray,
                    gather,
                    scale,
                    hit,
                    lookup,
                    surface,
                    blend,
                    local_results[k].1@,
                ),
    {
        let (first, lines_to_do) = self.band(thread);
        let mut local_results: Vec<(usize, Vec<Color3>)> = Vec::new();
        let mut j: usize = 0;
        while j < lines_to_do
            invariant
                j <= lines_to_do,
                first + lines_to_do <= self.image_height,
                first == band_start(self.image_height, self.thread_num, thread),
                local_results.len() == j,
                forall|a: usize, b: usize| call_requires(*get_ray, (a, b)),
                forall|a: Color3, b: Color3| call_requires(*gather, (a, b)),
                forall|a: Color3, b: Scalar| call_requires(*scale, (a, b)),
                forall|w: &Hittables, r: &Ray, i: Interval| call_requires(*hit, (w, r, i)),
                forall|t: &Textures, u: Scalar, v: Scalar, p: &Point3|
                    call_requires(*lookup, (t, u, v, p)),
                forall|m: &Materials, r: &Ray, h: &HitRecord| call_requires(*surface, (m, r, h)),
                forall|e: Color3, a: Color3, c: Color3| call_requires(*blend, (e, a, c)),
                forall|k: int|
                    0 <= k < j ==> (#[trigger] local_results[k]).0 == first + k && self.line_is(
                        world,
                        local_results[k].0,
                        get_ray,
                        gather,
                        scale,
                        hit,
                        lookup,
                        surface,
                        blend,
                        local_results[k].1@,
                    ),
            decreases lines_to_do - j,
        {
            let line_idx = first + j;
            let scan_line = self.render_line(
                world,
                line_idx,
                get_ray,
                gather,
                scale,
                hit,
                lookup,
                surface,
                blend,
            );
            local_results.push((line_idx, scan_line));
            j += 1;
        }
        local_results
    }

    /// The image, put together from scanlines that come with their places:
    /// `image_height` lines, each the last of `rendered` with that place, or
    /// an empty line where there is none.
    pub fn assemble(&self, rendered: Vec<(usize, Vec<Color3>)>) -> (lines: Vec<Vec<Color3>>)
        requires
            forall|k: int| 0 <= k < rendered.len() ==> (#[trigger] rendered[k]).0 < self.image_height,
        ensures
            rows_of(lines@) == placed(blank(self.image_height as nat), rendered@),
            lines.len() == self.image_height,
    {
        let mut lines: Vec<Vec<Color3>> = Vec::new();
        let mut n: usize = 0;
        while n < self.image_height
            invariant
                n <= self.image_height,
                lines.len() == n,
                rows_of(lines@) == blank(n as nat),
            decreases self.image_height - n,
        {
            let ghost had = lines@;
            lines.push(Vec::new());
            assert(rows_of(lines@) =~= blank((n + 1) as nat)) by {
                assert forall|i: int| 0 <= i < n + 1 implies rows_of(lines@)[i] == blank(
                    (n + 1) as nat,
                )[i] by {
                    if i < n {
                        assert(lines@[i] == had[i]);
                        assert(rows_of(had)[i] == blank(n as nat)[i]);
                    }
                }
            }
            n += 1;
        }
        let mut rest = rendered;
        while rest.len() > 0
            invariant
                lines.len() == self.image_height,
                forall|k: int| 0 <= k < rest.len() ==> (#[trigger] rest[k]).0 < self.image_height,
                placed(rows_of(lines@), rest@) == placed(
                    blank(self.image_height as nat),
                    rendered@,
                ),
            decreases rest.len(),
        {
            let ghost before = rest@;
            let ghost had = lines@;
            let (idx, line) = rest.remove(0);
            assert(before[0].0 < self.image_height);
            lines.set(idx, line);
            assert(rest@ =~= before.drop_first());
            assert(rows_of(lines@) =~= rows_of(had).update(before[0].0 as int, before[0].1@));
        }
        lines
    }

    /// The whole image: the bands of all workers, rendered one after the
    /// other and put together. The image has `image_height` lines, and line
    /// `j` is what `render_line` makes of scanline `j`. Without workers
    /// nothing is rendered and every line is empty.
    pub fn calculate_img<
        R: Fn(usize, usize) -> Ray,
        A: Fn(Color3, Color3) -> Color3,
        M: Fn(Color3, Scalar) -> Color3,
        H: Fn(&Hittables, &Ray, Interval) -> Option<HitRecord>,
        L: Fn(&Textures, Scalar, Scalar, &Point3) -> Color3,
        S: Fn(&Materials, &Ray, &HitRecord) -> Option<(Color3, Ray)>,
        B: Fn(Color3, Color3, Color3) -> Color3,
    >(
        &self,
        world: &Hittables,
        get_ray: &R,
        gather: &A,
        scale: &M,
        hit: &H,
        lookup: &L,
        surface: &S,
        blend: &B,
    ) -> (lines: Vec<Vec<Color3>>)
        requires
            forall|a: usize, b: usize| call_requires(*get_ray, (a, b)),
            forall|a: Color3, b: Color3| call_requires(*gather, (a, b)),
            forall|a: Color3, b: Scalar| call_requires(*scale, (a, b)),
            forall|w: &Hittables, r: &Ray, i: Interval| call_requires(*hit, (w, r, i)),
            forall|t: &Textures, u: Scalar, v: Scalar, p: &Point3| call_requires(*lookup, (t, u, v, p)),
            forall|m: &Materials, r: &Ray, h: &HitRecord| call_requires(*surface, (m, r, h)),
            forall|e: Color3, a: Color3, c: Color3| call_requires(*blend, (e, a, c)),
        ensures
            lines.len() == self.image_height,
            self.thread_num == 0 ==> rows_of(lines@) == blank(self.image_height as nat),
            forall|j: int|
                self.thread_num > 0 && 0 <= j < self.image_height ==> self.line_is(
                    world,
                    j as usize,
                    get_ray,
                    gather,
                    scale,
                    hit,
                    lookup,
                    surface,
                    blend,
                    (#[trigger] lines[j])@,
                ),
    {
        if self.thread_num == 0 {
            let lines = self.assemble(Vec::new());
            assert(placed(blank(self.image_height as nat), Seq::empty()) == blank(
                self.image_height as nat,
            ));
            return lines;
        }
        let mut rendered: Vec<(usize, Vec<Color3>)> = Vec::new();
        let mut thread: usize = 0;
        while thread < self.thread_num
            invariant
                thread <= self.thread_num,
                self.thread_num > 0,
                rendered.len() == lines_before(self.image_height, self.thread_num, thread),
                forall|a: usize, b: usize| call_requires(*get_ray, (a, b)),
                forall|a: Color3, b: Color3| call_requires(*gather, (a, b)),
                forall|a: Color3, b: Scalar| call_requires(*scale, (a, b)),
                forall|w: &Hittables, r: &Ray, i: Interval| call_requires(*hit, (w, r, i)),
                forall|t: &Textures, u: Scalar, v: Scalar, p: &Point3|
                    call_requires(*lookup, (t, u, v, p)),
                forall|m: &Materials, r: &Ray, h: &HitRecord| call_requires(*surface, (m, r, h)),
                forall|e: Color3, a: Color3, c: Color3| call_requires(*blend, (e, a, c)),
                forall|k: int|
                    0 <= k < rendered.len() ==> (#[trigger] rendered[k]).0 == k && self.line_is(
                        world,
                        rendered[k].0,
                        get_ray,
                        gather,
                        scale,
                        hit,
                        lookup,
                        surface,
                        blend,
                        rendered[k].1@,
                    ),
            decreases self.thread_num - thread,
        {
            proof {
                lemma_bands_fit(self.image_height, self.thread_num, thread);
            }
            let ghost before = rendered@;
            let mut band = self.render_band(
                world,
                thread,
                get_ray,
                gather,
                scale,
                hit,
                lookup,
                surface,
                blend,
            );
            let ghost added = band@;
            rendered.append(&mut band);
            proof {
                assert forall|k: int| 0 <= k < rendered.len() implies (#[trigger] rendered[k]).0 == k
                    && self.line_is(
                    world,
                    rendered[k].0,
                    get_ray,
                    gather,
                    scale,
                    hit,
                    lookup,
                    surface,
                    blend,
                    rendered[k].1@,
                ) by {
                    if k < before.len() {
                        assert(rendered[k] == before[k]);
                    } else {
                        assert(rendered[k] == added[k - before.len()]);
                    }
                }
            }
            thread += 1;
        }
        let ghost all = rendered@;
        let lines = self.assemble(rendered);
        proof {
            lemma_placed_in_order(blank(self.image_height as nat), all, 0);
            assert forall|j: int| 0 <= j < self.image_height implies self.line_is(
                world,
                j as usize,
                get_ray,
                gather,
                scale,
                hit,
                lookup,
                surface,
                blend,
                (#[trigger] lines[j])@,
            ) by {
                assert(rows_of(lines@)[j] == all[j].1@);
                assert(all[j].0 == j);
            }
        }
        lines
    }

    /// The band of scanlines that worker `thread` renders: its first line and
    /// the number of its lines. The lines are dealt out in equal bands, in
    /// order; what is left over goes to the last worker.
    pub fn band(&self, thread: usize) -> (lines: (usize, usize))
        requires
            thread < self.thread_num,
        ensures
            lines.0 == band_start(self.image_height, self.thread_num, thread),
            lines.1 == band_len(self.image_height, self.thread_num, thread),
            lines.0 + lines.1 <= self.image_height,
    {
        let lines_per_thread = self.image_height / self.thread_num;
        proof {
            lemma_bands_fit(self.image_height, self.thread_num, thread);
        }
        let first = thread * lines_per_thread;
        let lines_to_do = if thread == self.thread_num - 1 {
            self.image_height - first
        } else {
            lines_per_thread
        };
        (first, lines_to_do)
    }
}

/// The bands of the workers lie in the image, one after the other without gap
/// or overlap: the first starts at line 0, each next one where the one before
/// ends, and the last ends with the image.
pub proof fn lemma_bands_fit(height: usize, workers: usize, thread: usize)
    requires
        thread < workers,
    ensures
        0 <= band_start(height, workers, thread) <= height,
        0 <= band_len(height, workers, thread),
        band_start(height, workers, thread) + band_len(height, workers, thread) <= height,
        band_start(height, workers, 0) == 0,
        thread + 1 < workers ==> band_start(height, workers, thread) + band_len(
            height,
            workers,
            thread,
        ) == band_start(height, workers, (thread + 1) as usize),
        thread == workers - 1 ==> band_start(height, workers, thread) + band_len(
            height,
            workers,
            thread,
        ) == height,
{
    let per = height as int / workers as int;
    assert(0 <= per && per * workers <= height) by (nonlinear_arith)
        requires
            per == height as int / workers as int,
            workers > 0,
            height >= 0,
    ;
    assert(thread * per <= (workers - 1) * per) by (nonlinear_arith)
        requires
            0 <= thread <= workers - 1,
            0 <= per,
    ;
    assert((workers - 1) * per + per == workers * per) by (nonlinear_arith);
    assert((thread + 1) * per == thread * per + per) by (nonlinear_arith);
    assert(0 <= thread * per) by (nonlinear_arith)
        requires
            0 <= thread,
            0 <= per,
    ;
}

/// Scanlines that come in the order of the image, one for each place from
/// `done` on, take those places and leave the lines before them alone.
pub proof fn lemma_placed_in_order(
    lines: Seq<Seq<Color3>>,
    rendered: Seq<(usize, Vec<Color3>)>,
    done: int,
)
    requires
        0 <= done,
        lines.len() == done + rendered.len(),
        forall|k: int| 0 <= k < rendered.len() ==> (#[trigger] rendered[k]).0 == done + k,
    ensures
        placed(lines, rendered).len() == lines.len(),
        forall|j: int| 0 <= j < done ==> #[trigger] placed(lines, rendered)[j] == lines[j],
        forall|j: int|
            done <= j < lines.len() ==> #[trigger] placed(lines, rendered)[j] == rendered[j
                - done].1@,
    decreases rendered.len(),
{
    if rendered.len() > 0 {
        let next = lines.update(rendered[0].0 as int, rendered[0].1@);
        let rest = rendered.drop_first();
        assert forall|k: int| 0 <= k < rest.len() implies (#[trigger] rest[k]).0 == done + 1 + k by {
            assert(rest[k] == rendered[k + 1]);
        }
        lemma_placed_in_order(next, rest, done + 1);
        assert forall|j: int| done <= j < lines.len() implies #[trigger] placed(lines, rendered)[j]
            == rendered[j - done].1@ by {
            if j > done {
                assert(rest[j - done - 1] == rendered[j - done]);
            }
        }
    }
}

/// With no depth to spend, no light arrives: the answer is black whatever the
/// scene.
pub proof fn lemma_no_depth_no_light<
    H: Fn(&Hittables, &Ray, Interval) -> Option<HitRecord>,
    L: Fn(&Textures, Scalar, Scalar, &Point3) -> Color3,
    S: Fn(&Materials, &Ray, &HitRecord) -> Option<(Color3, Ray)>,
    B: Fn(Color3, Color3, Color3) -> Color3,
>(
    camera: Camera,
    ray: Ray,
    world: &Hittables,
    depth: i32,
    hit: &H,
    lookup: &L,
    surface: &S,
    blend: &B,
    color: Color3,
)
    requires
        depth <= 0,
        camera.color_is(ray, world, depth, hit, lookup, surface, blend, color),
    ensures
        color == black(),
{
}

} // verus!
