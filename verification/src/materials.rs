//! The scattering laws of the five kinds of surface.

use vstd::prelude::*;
use std::sync::Arc;
use crate::hit_record::HitRecord;
use crate::ray::Ray;
use crate::scalar::{Scalar, ONE_BITS};
use crate::texture::{is_solid, Textures};
use crate::vec3::{Color3, Point3, Vec3};

verus! {

/// A diffuse surface, coloured by a texture.
#[derive(Debug)]
pub struct Lambertian {
    pub texture: Arc<Textures>,
}

/// A mirror of colour `albedo`, blurred by `fuzz`.
#[derive(Clone, Copy, Debug)]
pub struct Metal {
    pub albedo: Color3,
    pub fuzz: Scalar,
}

/// A clear solid such as glass, with its index of refraction.
#[derive(Clone, Copy, Debug)]
pub struct Dielectric {
    pub refraction_index: Scalar,
}

/// A light: a surface that emits the colour of its texture and scatters
/// nothing.
#[derive(Debug)]
pub struct Diffuse {
    pub texture: Arc<Textures>,
}

/// The phase function of a medium that scatters alike in all directions.
#[derive(Debug)]
pub struct Isotropic {
    pub tex: Arc<Textures>,
}

/// The materials a surface can have.
#[derive(Debug)]
pub enum Materials {
    Lambertian(Lambertian),
    Dielectric(Dielectric),
    Metal(Metal),
    Diffuse(Diffuse),
    Isotropic(Isotropic),
}

/// White: the attenuation of a surface that absorbs nothing.
pub open spec fn white() -> Color3 {
    Color3 { x: Scalar { bits: ONE_BITS }, y: Scalar { bits: ONE_BITS }, z: Scalar { bits: ONE_BITS } }
}

/// Black: no light.
pub open spec fn black() -> Color3 {
    Color3 { x: Scalar { bits: 0 }, y: Scalar { bits: 0 }, z: Scalar { bits: 0 } }
}

/// `fuzz` held to `[0, 1]`: a value below zero becomes `0.0`, and a value not
/// below `1.0`, a NaN too, becomes `1.0`.
pub open spec fn capped_fuzz(fuzz: Scalar) -> Scalar {
    if fuzz.lt(Scalar::one()) {
        if fuzz.lt(Scalar::zero()) {
            Scalar::zero()
        } else {
            fuzz
        }
    } else {
        Scalar::one()
    }
}

impl Lambertian {
    /// A diffuse surface of one colour.
    pub fn solid(albedo: Color3) -> (m: Lambertian)
        ensures
            is_solid(m.texture, albedo),
    {
        Lambertian { texture: Textures::solid_color(albedo) }
    }

    /// A diffuse surface with the given texture.
    pub fn new(texture: Arc<Textures>) -> (m: Lambertian)
        ensures
            m.texture == texture,
    {
        Lambertian { texture }
    }

    /// The bounce off a diffuse surface. `candidate` is the normal plus a
    /// random unit vector and `attenuation` the texture's colour at the hit.
    /// The ray leaves the hit point along `candidate`, or along the normal
    /// when the candidate has all but vanished; it keeps the time of the
    /// incoming ray. A diffuse surface never absorbs.
    pub fn scatter(
        &self,
        ray_in: &Ray,
        hit_record: &HitRecord,
        candidate: Vec3,
        attenuation: Color3,
    ) -> (s: Option<(Color3, Ray)>)
        ensures
            s == Some(
                (
                    attenuation,
                    Ray {
                        origin: hit_record.point,
                        direction: if candidate.near_zero() {
                            hit_record.normal
                        } else {
                            candidate
                        },
                        time: ray_in.time,
                    },
                ),
            ),
    {
        let scatter_direction = if candidate.near_zero() {
            hit_record.normal
        } else {
            candidate
        };
        let scattered = Ray::new_time(hit_record.point, scatter_direction, ray_in.time);
        Some((attenuation, scattered))
    }
}

impl Metal {
    /// A mirror with the given colour and blur, taken as they are.
    pub fn new(albedo: Color3, fuzz: Scalar) -> (m: Metal)
        ensures
            m == (Metal { albedo, fuzz }),
    {
        Metal { albedo, fuzz }
    }

    /// The bounce off a mirror. `reflected` is the blurred mirror direction
    /// and `facing` its dot product with the normal. The ray leaves the hit
    /// point along `reflected`, tinted by the albedo, if that direction points
    /// away from the surface (`facing` above zero); else it is absorbed.
    pub fn scatter(&self, ray_in: &Ray, hit_record: &HitRecord, reflected: Vec3, facing: Scalar) -> (s:
        Option<(Color3, Ray)>)
        ensures
            s == (if facing.gt(Scalar::zero()) {
                Some(
                    (
                        self.albedo,
                        Ray { origin: hit_record.point, direction: reflected, time: ray_in.time },
                    ),
                )
            } else {
                None
            }),
    {
        let scattered = Ray::new_time(hit_record.point, reflected, ray_in.time);
        if facing.gt(Scalar::zero()) {
            Some((self.albedo, scattered))
        } else {
            None
        }
    }
}

impl Dielectric {
    /// A clear solid with the given index of refraction.
    pub fn new(refraction_index: Scalar) -> (m: Dielectric)
        ensures
            m == (Dielectric { refraction_index }),
    {
        Dielectric { refraction_index }
    }

    /// The ratio of the indices on the two sides of the surface as the ray
    /// meets it: `reciprocal`, which is one over the material's index, for a
    /// ray that enters through the front face, and the index itself for one
    /// that leaves.
    pub fn refraction_ratio(&self, front_face: bool, reciprocal: Scalar) -> (ri: Scalar)
        ensures
            ri == (if front_face { reciprocal } else { self.refraction_index }),
    {
        if front_face {
            reciprocal
        } else {
            self.refraction_index
        }
    }

    /// Whether `direction` is what `scatter` may send the ray along.
    pub open spec fn direction_is<F: Fn() -> Scalar>(
        bend: Scalar,
        reflectance: Scalar,
        draw: &F,
        reflected: Vec3,
        refracted: Vec3,
        direction: Vec3,
    ) -> bool {
        if bend.gt(Scalar::one()) {
            direction == reflected
        } else {
            exists|u: Scalar| #[trigger]
                call_ensures(*draw, (), u) && direction == if reflectance.gt(u) {
                    reflected
                } else {
                    refracted
                }
        }
    }

    /// The passage of a ray through a clear surface.
    ///
    /// `bend` is the refraction ratio times the sine of the angle of
    /// incidence. Above `1.0` no refracted ray exists and the ray is
    /// reflected. Otherwise one number is drawn, and the ray is reflected if
    /// `reflectance` exceeds it and refracted if not. The ray leaves the hit
    /// point at the incoming ray's time and loses no light.
    pub fn scatter<F: Fn() -> Scalar>(
        &self,
        ray_in: &Ray,
        hit_record: &HitRecord,
        bend: Scalar,
        reflectance: Scalar,
        draw: &F,
        reflected: Vec3,
        refracted: Vec3,
    ) -> (s: Option<(Color3, Ray)>)
        requires
            call_requires(*draw, ()),
        ensures
            s matches Some((attenuation, scattered)) && attenuation == white() && scattered.origin
                == hit_record.point && scattered.time == ray_in.time && Dielectric::direction_is(
                bend,
                reflectance,
                draw,
                reflected,
                refracted,
                scattered.direction,
            ),
    {
        let direction = if bend.gt(Scalar::one()) {
            reflected
        } else {
            let u = draw();
            if reflectance.gt(u) {
                reflected
            } else {
                refracted
            }
        };
        let scattered = Ray::new_time(hit_record.point, direction, ray_in.time);
        Some((Color3 { x: Scalar::one(), y: Scalar::one(), z: Scalar::one() }, scattered))
    }
}

impl Diffuse {
    /// A light of one colour.
    pub fn solid(color: Color3) -> (m: Diffuse)
        ensures
            is_solid(m.texture, color),
    {
        Diffuse { texture: Textures::solid_color(color) }
    }
}

impl Isotropic {
    /// A medium of one colour.
    pub fn solid(albedo: Color3) -> (m: Isotropic)
        ensures
            is_solid(m.tex, albedo),
    {
        Isotropic { tex: Textures::solid_color(albedo) }
    }

    /// A scattering inside a medium: the ray goes on from the hit point along
    /// `direction`, a random unit vector, whatever way it came, tinted by
    /// `attenuation`, the texture's colour at the hit.
    pub fn scatter(&self, ray: &Ray, hit_record: &HitRecord, direction: Vec3, attenuation: Color3) -> (s:
        Option<(Color3, Ray)>)
        ensures
            s == Some((attenuation, Ray { origin: hit_record.point, direction, time: ray.time })),
    {
        let scattered = Ray::new_time(hit_record.point, direction, ray.time);
        Some((attenuation, scattered))
    }
}

impl Materials {
    /// Whether `color` is what `emitted` may answer, given what `lookup` finds
    /// in a texture at surface coordinates and a point.
    pub open spec fn emitted_is<L: Fn(&Textures, Scalar, Scalar, &Point3) -> Color3>(
        &self,
        u: Scalar,
        v: Scalar,
        p: &Point3,
        lookup: &L,
        color: Color3,
    ) -> bool {
        match self {
            Materials::Diffuse(d) => call_ensures(*lookup, (&*d.texture, u, v, p), color),
            _ => color == black(),
        }
    }

    /// Whether `result` is what `scatter` may answer, given what `surface` does
    /// with a ray on a surface that is no light.
    pub open spec fn scatter_is<S: Fn(&Materials, &Ray, &HitRecord) -> Option<(Color3, Ray)>>(
        &self,
        ray: &Ray,
        hit_record: &HitRecord,
        surface: &S,
        result: Option<(Color3, Ray)>,
    ) -> bool {
        match self {
            Materials::Diffuse(_) => result.is_none(),
            _ => call_ensures(*surface, (self, ray, hit_record), result),
        }
    }

    /// A diffuse material of one colour.
    pub fn lambertian_solid(albedo: Color3) -> (m: Arc<Materials>)
        ensures
            *m matches Materials::Lambertian(l) && is_solid(l.texture, albedo),
    {
        Arc::new(Materials::Lambertian(Lambertian::solid(albedo)))
    }

    /// A diffuse material with the given texture.
    pub fn lambertian(texture: Arc<Textures>) -> (m: Arc<Materials>)
        ensures
            *m == Materials::Lambertian(Lambertian { texture }),
    {
        Arc::new(Materials::Lambertian(Lambertian::new(texture)))
    }

    /// A mirror; its blur is `fuzz` held to `[0, 1]`.
    pub fn metal(albedo: Color3, fuzz: Scalar) -> (m: Arc<Materials>)
        ensures
            *m == Materials::Metal(Metal { albedo, fuzz: capped_fuzz(fuzz) }),
    {
        let fuzz = if fuzz.lt(Scalar::one()) {
            if fuzz.lt(Scalar::zero()) {
                Scalar::zero()
            } else {
                fuzz
            }
        } else {
            Scalar::one()
        };
        Arc::new(Materials::Metal(Metal::new(albedo, fuzz)))
    }

    /// A clear solid.
    pub fn dielectric(refraction_index: Scalar) -> (m: Arc<Materials>)
        ensures
            *m == Materials::Dielectric(Dielectric { refraction_index }),
    {
        Arc::new(Materials::Dielectric(Dielectric::new(refraction_index)))
    }

    /// A light of one colour.
    pub fn emmiter_solid(color: Color3) -> (m: Arc<Materials>)
        ensures
            *m matches Materials::Diffuse(d) && is_solid(d.texture, color),
    {
        Arc::new(Materials::Diffuse(Diffuse::solid(color)))
    }

    /// The phase function of a medium of one colour.
    pub fn isotropic_solid(albedo: Color3) -> (m: Arc<Materials>)
        ensures
            *m matches Materials::Isotropic(i) && is_solid(i.tex, albedo),
    {
        Arc::new(Materials::Isotropic(Isotropic::solid(albedo)))
    }

    /// The light that the material gives off at surface coordinates `(u, v)`
    /// and point `p`: for a light, what `lookup` finds in its texture there;
    /// for every other material, black.
    pub fn emitted<L: Fn(&Textures, Scalar, Scalar, &Point3) -> Color3>(
        &self,
        u: Scalar,
        v: Scalar,
        p: &Point3,
        lookup: &L,
    ) -> (color: Color3)
        requires
            forall|t: &Textures| call_requires(*lookup, (t, u, v, p)),
        ensures
            self.emitted_is(u, v, p, lookup, color),
    {
        match self {
            Materials::Diffuse(d) => lookup(&*d.texture, u, v, p),
            _ => Color3 { x: Scalar::zero(), y: Scalar::zero(), z: Scalar::zero() },
        }
    }

    /// What becomes of a ray that meets the material at `hit_record`: the
    /// tint and the ray that goes on, or `None` if the ray is absorbed. A light
    /// absorbs every ray; for the others `surface` decides.
    pub fn scatter<S: Fn(&Materials, &Ray, &HitRecord) -> Option<(Color3, Ray)>>(
        &self,
        ray: &Ray,
        hit_record: &HitRecord,
        surface: &S,
    ) -> (result: Option<(Color3, Ray)>)
        requires
            forall|m: &Materials, r: &Ray, h: &HitRecord| call_requires(*surface, (m, r, h)),
        ensures
            self.scatter_is(ray, hit_record, surface, result),
    {
        match self {
            Materials::Diffuse(_) => None,
            _ => surface(self, ray, hit_record),
        }
    }
}

} // verus!
