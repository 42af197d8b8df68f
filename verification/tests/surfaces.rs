use raytracer::hit_record::{HitRecord, Surface};
use raytracer::material::Matte;
use raytracer::materials::{Dielectric, Diffuse, Isotropic, Lambertian, Materials, Metal};
use raytracer::perlin::{Perlin, POINT_COUNT};
use raytracer::random::gen_int;
use raytracer::ray::Ray;
use raytracer::scalar::Scalar;
use raytracer::texture::{CheckerTexture, ImageTexture, Solid, Textures};
use raytracer::vec3::{Color3, Point3, Vec3};
use std::cell::Cell;
use std::sync::Arc;

fn s(x: f64) -> Scalar {
    Scalar::from_bits(x.to_bits())
}

fn v(x: f64, y: f64, z: f64) -> Vec3 {
    Vec3::new(s(x), s(y), s(z))
}

fn record(mat: Arc<Materials>) -> HitRecord {
    HitRecord::on(
        s(2.0),
        &Surface {
            point: v(1.0, 2.0, 3.0),
            outward_normal: v(0.0, 1.0, 0.0),
            reversed_normal: v(0.0, -1.0, 0.0),
            facing: s(-1.0),
            u: s(0.25),
            v: s(0.75),
        },
        mat,
    )
}

fn incoming() -> Ray {
    Ray::new_time(v(1.0, 4.0, 3.0), v(0.0, -1.0, 0.0), s(0.375))
}

fn solid_of(t: &Textures) -> Color3 {
    match t {
        Textures::Solid(solid) => solid.value(),
        _ => panic!("a solid texture was expected"),
    }
}

fn lookup(t: &Textures, _u: Scalar, _v: Scalar, _p: &Point3) -> Color3 {
    solid_of(t)
}

#[test]
fn matte_absorbs() {
    let m = Matte::new();
    assert!(m.scatter(&incoming(), &record(Materials::dielectric(s(1.5)))).is_none());
}

#[test]
fn lambertian_scatters_along_the_candidate() {
    let m = Lambertian::solid(v(0.5, 0.25, 0.125));
    let h = record(Materials::dielectric(s(1.5)));
    let (tint, onward) = m.scatter(&incoming(), &h, v(0.5, 1.5, 0.0), v(0.5, 0.25, 0.125)).unwrap();
    assert_eq!(tint, v(0.5, 0.25, 0.125));
    assert_eq!(onward, Ray::new_time(v(1.0, 2.0, 3.0), v(0.5, 1.5, 0.0), s(0.375)));
}

#[test]
fn lambertian_falls_back_to_the_normal() {
    let m = Lambertian::solid(v(0.5, 0.5, 0.5));
    let h = record(Materials::dielectric(s(1.5)));
    let (_, onward) = m.scatter(&incoming(), &h, v(0.0, 0.0, 0.0), v(0.5, 0.5, 0.5)).unwrap();
    assert_eq!(onward.direction, v(0.0, 1.0, 0.0));
    let (_, onward) = m.scatter(&incoming(), &h, v(1e-9, -1e-9, 0.0), v(0.5, 0.5, 0.5)).unwrap();
    assert_eq!(onward.direction, v(0.0, 1.0, 0.0));
    let (_, onward) = m.scatter(&incoming(), &h, v(-0.5, -1.5, -2.0), v(0.5, 0.5, 0.5)).unwrap();
    assert_eq!(onward.direction, v(-0.5, -1.5, -2.0));
    let (_, onward) = m.scatter(&incoming(), &h, v(1e-9, 1e-8, 0.0), v(0.5, 0.5, 0.5)).unwrap();
    assert_eq!(onward.direction, v(1e-9, 1e-8, 0.0));
}

#[test]
fn near_zero_looks_at_every_component() {
    assert!(v(0.0, 0.0, 0.0).near_zero());
    assert!(v(9e-9, 9e-9, 9e-9).near_zero());
    assert!(v(-9e-9, 9e-9, -0.0).near_zero());
    assert!(!v(-5.0, -5.0, -5.0).near_zero());
    assert!(!v(0.0, -1e-8, 0.0).near_zero());
    assert!(!v(1e-8, 0.0, 0.0).near_zero());
    assert!(!v(0.0, 1.0, 0.0).near_zero());
    assert!(!v(0.0, 0.0, f64::NAN).near_zero());
}

#[test]
fn metal_fuzz_is_held_to_one() {
    let fuzz_of = |m: Arc<Materials>| match &*m {
        Materials::Metal(metal) => metal.fuzz,
        _ => panic!("a metal was expected"),
    };
    assert_eq!(fuzz_of(Materials::metal(v(0.8, 0.8, 0.9), s(0.3))), s(0.3));
    assert_eq!(fuzz_of(Materials::metal(v(0.8, 0.8, 0.9), s(1.0))), s(1.0));
    assert_eq!(fuzz_of(Materials::metal(v(0.8, 0.8, 0.9), s(7.0))), s(1.0));
    assert_eq!(fuzz_of(Materials::metal(v(0.8, 0.8, 0.9), s(f64::NAN))), s(1.0));
    assert_eq!(fuzz_of(Materials::metal(v(0.8, 0.8, 0.9), s(-2.0))), s(0.0));
    assert_eq!(fuzz_of(Materials::metal(v(0.8, 0.8, 0.9), s(0.0))), s(0.0));
    assert_eq!(fuzz_of(Materials::metal(v(0.8, 0.8, 0.9), s(f64::INFINITY))), s(1.0));
    assert_eq!(Metal::new(v(0.8, 0.8, 0.9), s(7.0)).fuzz, s(7.0));
}

#[test]
fn metal_absorbs_what_points_into_the_surface() {
    let m = Metal::new(v(0.8, 0.6, 0.2), s(0.0));
    let h = record(Materials::dielectric(s(1.5)));
    let (tint, onward) = m.scatter(&incoming(), &h, v(0.0, 1.0, 0.0), s(1.0)).unwrap();
    assert_eq!(tint, v(0.8, 0.6, 0.2));
    assert_eq!(onward, Ray::new_time(v(1.0, 2.0, 3.0), v(0.0, 1.0, 0.0), s(0.375)));
    assert!(m.scatter(&incoming(), &h, v(1.0, 0.0, 0.0), s(0.0)).is_none());
    assert!(m.scatter(&incoming(), &h, v(1.0, -0.5, 0.0), s(-0.5)).is_none());
    assert!(m.scatter(&incoming(), &h, v(1.0, 0.0, 0.0), s(f64::NAN)).is_none());
}

#[test]
fn dielectric_ratio_depends_on_the_face() {
    let m = Dielectric::new(s(1.5));
    assert_eq!(m.refraction_ratio(true, s(1.0 / 1.5)), s(1.0 / 1.5));
    assert_eq!(m.refraction_ratio(false, s(1.0 / 1.5)), s(1.5));
}

#[test]
fn dielectric_reflects_when_it_cannot_refract() {
    let m = Dielectric::new(s(1.5));
    let h = record(Materials::dielectric(s(1.5)));
    let drawn = Cell::new(0);
    let draw = || {
        drawn.set(drawn.get() + 1);
        s(0.0)
    };
    let reflected = v(0.0, 1.0, 0.0);
    let refracted = v(0.0, -1.0, 0.0);
    let (tint, onward) =
        m.scatter(&incoming(), &h, s(1.2), s(0.0), &draw, reflected, refracted).unwrap();
    assert_eq!(tint, v(1.0, 1.0, 1.0));
    assert_eq!(onward, Ray::new_time(v(1.0, 2.0, 3.0), reflected, s(0.375)));
    assert_eq!(drawn.get(), 0);
}

#[test]
fn dielectric_draws_between_reflection_and_refraction() {
    let m = Dielectric::new(s(1.5));
    let h = record(Materials::dielectric(s(1.5)));
    let reflected = v(0.0, 1.0, 0.0);
    let refracted = v(0.0, -1.0, 0.0);
    let low = || s(0.1);
    let high = || s(0.9);
    let even = || s(0.5);
    let direction = |r: Option<(Color3, Ray)>| r.unwrap().1.direction;
    assert_eq!(direction(m.scatter(&incoming(), &h, s(0.7), s(0.5), &low, reflected, refracted)), reflected);
    assert_eq!(direction(m.scatter(&incoming(), &h, s(0.7), s(0.5), &high, reflected, refracted)), refracted);
    assert_eq!(direction(m.scatter(&incoming(), &h, s(0.7), s(0.5), &even, reflected, refracted)), refracted);
    assert_eq!(direction(m.scatter(&incoming(), &h, s(1.0), s(0.5), &low, reflected, refracted)), reflected);
    assert_eq!(direction(m.scatter(&incoming(), &h, s(1.0), s(0.5), &high, reflected, refracted)), refracted);
}

#[test]
fn isotropic_scatters_anywhere() {
    let m = Isotropic::solid(v(0.2, 0.4, 0.9));
    let h = record(Materials::dielectric(s(1.5)));
    let (tint, onward) = m.scatter(&incoming(), &h, v(0.0, 0.0, -1.0), v(0.2, 0.4, 0.9)).unwrap();
    assert_eq!(tint, v(0.2, 0.4, 0.9));
    assert_eq!(onward, Ray::new_time(v(1.0, 2.0, 3.0), v(0.0, 0.0, -1.0), s(0.375)));
    assert_eq!(solid_of(&m.tex), v(0.2, 0.4, 0.9));
}

#[test]
fn only_lights_emit() {
    let p = v(1.0, 2.0, 3.0);
    let light = Materials::emmiter_solid(v(7.0, 6.0, 5.0));
    assert_eq!(light.emitted(s(0.0), s(0.0), &p, &lookup), v(7.0, 6.0, 5.0));
    for dark in [
        Materials::lambertian_solid(v(0.5, 0.5, 0.5)),
        Materials::metal(v(0.5, 0.5, 0.5), s(0.1)),
        Materials::dielectric(s(1.5)),
        Materials::isotropic_solid(v(0.5, 0.5, 0.5)),
    ] {
        assert_eq!(dark.emitted(s(0.0), s(0.0), &p, &lookup), v(0.0, 0.0, 0.0));
    }
    assert_eq!(solid_of(&Diffuse::solid(v(1.0, 2.0, 3.0)).texture), v(1.0, 2.0, 3.0));
}

#[test]
fn lights_scatter_nothing() {
    let asked = Cell::new(0);
    let surface = |_m: &Materials, r: &Ray, h: &HitRecord| {
        asked.set(asked.get() + 1);
        Some((v(0.5, 0.5, 0.5), Ray::new_time(h.point, h.normal, r.time)))
    };
    let light = Materials::emmiter_solid(v(7.0, 7.0, 7.0));
    let h = record(light.clone());
    assert!(light.scatter(&incoming(), &h, &surface).is_none());
    assert_eq!(asked.get(), 0);
    let grey = Materials::lambertian_solid(v(0.5, 0.5, 0.5));
    let (tint, onward) = grey.scatter(&incoming(), &h, &surface).unwrap();
    assert_eq!(asked.get(), 1);
    assert_eq!(tint, v(0.5, 0.5, 0.5));
    assert_eq!(onward, Ray::new_time(v(1.0, 2.0, 3.0), v(0.0, 1.0, 0.0), s(0.375)));
}

#[test]
fn material_constructors_keep_what_they_are_given() {
    match &*Materials::lambertian_solid(v(0.1, 0.2, 0.3)) {
        Materials::Lambertian(l) => assert_eq!(solid_of(&l.texture), v(0.1, 0.2, 0.3)),
        _ => panic!("a diffuse material was expected"),
    }
    let texture = Textures::rgb(s(0.9), s(0.8), s(0.7));
    match &*Materials::lambertian(texture.clone()) {
        Materials::Lambertian(l) => assert!(Arc::ptr_eq(&l.texture, &texture)),
        _ => panic!("a diffuse material was expected"),
    }
    match &*Materials::dielectric(s(1.5)) {
        Materials::Dielectric(d) => assert_eq!(d.refraction_index, s(1.5)),
        _ => panic!("a clear material was expected"),
    }
    match &*Materials::isotropic_solid(v(0.1, 0.2, 0.3)) {
        Materials::Isotropic(i) => assert_eq!(solid_of(&i.tex), v(0.1, 0.2, 0.3)),
        _ => panic!("a medium was expected"),
    }
    assert_eq!(solid_of(&Lambertian::new(texture.clone()).texture), v(0.9, 0.8, 0.7));
}

#[test]
fn checker_alternates_with_the_parity_of_the_cell() {
    let even = Textures::rgb(s(1.0), s(1.0), s(1.0));
    let odd = Textures::rgb(s(0.0), s(0.0), s(0.0));
    let checker = match &*Textures::checker(s(1.0 / 0.32), even.clone(), odd.clone()) {
        Textures::Checkered(c) => CheckerTexture {
            inv_scale: c.inv_scale,
            even: c.even.clone(),
            odd: c.odd.clone(),
        },
        _ => panic!("a checker was expected"),
    };
    assert_eq!(checker.inv_scale, s(1.0 / 0.32));
    assert!(Arc::ptr_eq(checker.pick(0, 0, 0), &even));
    assert!(Arc::ptr_eq(checker.pick(1, 0, 0), &odd));
    assert!(Arc::ptr_eq(checker.pick(1, 1, 0), &even));
    assert!(Arc::ptr_eq(checker.pick(1, 1, 1), &odd));
    assert!(Arc::ptr_eq(checker.pick(-1, 0, 0), &odd));
    assert!(Arc::ptr_eq(checker.pick(-1, -2, 3), &even));
    assert!(Arc::ptr_eq(checker.pick(-3, 0, 0), &odd));
    assert!(Arc::ptr_eq(checker.pick(i32::MAX, i32::MAX, 0), &even));
    assert!(Arc::ptr_eq(checker.pick(i32::MAX, i32::MAX, i32::MAX), &odd));
    assert!(Arc::ptr_eq(checker.pick(i32::MIN, i32::MAX, 0), &odd));
}

#[test]
fn image_pixels_are_found_by_column_and_row() {
    let pixels: Vec<Color3> = (0..6).map(|i| v(i as f64, 0.0, 0.0)).collect();
    let image = ImageTexture::new(3, 2, pixels).expect("three by two makes six");
    assert_eq!(image.pixel(0, 0), v(0.0, 0.0, 0.0));
    assert_eq!(image.pixel(2, 0), v(2.0, 0.0, 0.0));
    assert_eq!(image.pixel(0, 1), v(3.0, 0.0, 0.0));
    assert_eq!(image.pixel(2, 1), v(5.0, 0.0, 0.0));
    assert!(ImageTexture::new(3, 2, vec![v(0.0, 0.0, 0.0); 5]).is_none());
    assert!(ImageTexture::new(0, 0, vec![v(0.0, 0.0, 0.0); 1]).is_none());
}

#[test]
fn a_picture_without_rows_is_cyan() {
    let nothing = ImageTexture::new(0, 0, Vec::new()).expect("no pixels make an empty picture");
    assert_eq!(nothing.pixel(0, 0), v(0.0, 1.0, 1.0));
    let no_rows = ImageTexture::new(4, 0, Vec::new()).expect("no rows make an empty picture");
    assert_eq!(no_rows.pixel(9, 9), v(0.0, 1.0, 1.0));
}

#[test]
fn a_missing_picture_is_replaced_by_cyan() {
    assert_eq!(solid_of(&Textures::image(None)), v(0.0, 1.0, 1.0));
    let image = ImageTexture::new(1, 1, vec![v(0.25, 0.5, 0.75)]).unwrap();
    match &*Textures::image(Some(image)) {
        Textures::Img(i) => assert_eq!(i.pixel(0, 0), v(0.25, 0.5, 0.75)),
        _ => panic!("a picture was expected"),
    }
    assert_eq!(Solid { albedo: v(0.1, 0.2, 0.3) }.value(), v(0.1, 0.2, 0.3));
}

#[test]
fn random_integers_lie_in_their_range() {
    let mut rng = rand::thread_rng();
    let mut seen = [false; 10];
    for _ in 0..2000 {
        let n = gen_int(-3, 7, &mut rng);
        assert!((-3..7).contains(&n));
        seen[(n + 3) as usize] = true;
    }
    assert!(seen.iter().all(|&x| x));
    for _ in 0..20 {
        assert_eq!(gen_int(5, 6, &mut rng), 5);
        assert_eq!(gen_int(i32::MIN, i32::MIN + 1, &mut rng), i32::MIN);
    }
}

fn is_permutation(p: &[usize]) -> bool {
    let mut seen = vec![false; POINT_COUNT];
    for &x in p {
        if x >= POINT_COUNT || seen[x] {
            return false;
        }
        seen[x] = true;
    }
    p.len() == POINT_COUNT
}

#[test]
fn noise_tables_are_permutations() {
    let mut rng = rand::thread_rng();
    let p = Perlin::perlin_generate_perm(&mut rng);
    assert!(is_permutation(&p));
    let mut fixed: Vec<usize> = (0..POINT_COUNT).rev().collect();
    Perlin::permute(&mut fixed, &mut rng);
    assert!(is_permutation(&fixed));
    let randvec: Vec<Vec3> = (0..POINT_COUNT).map(|i| v(i as f64, 0.0, 0.0)).collect();
    let field = Perlin::new(randvec, &mut rng);
    assert!(is_permutation(&field.perm_x));
    assert!(is_permutation(&field.perm_y));
    assert!(is_permutation(&field.perm_z));
    assert_eq!(field.randvec.len(), POINT_COUNT);
}

#[test]
fn shuffling_moves_something() {
    let mut rng = rand::thread_rng();
    let mut moved = false;
    for _ in 0..8 {
        let p = Perlin::perlin_generate_perm(&mut rng);
        moved = moved || p.iter().enumerate().any(|(i, &x)| i != x);
    }
    assert!(moved);
}

#[test]
fn lattice_vectors_are_found_through_the_three_tables() {
    let mut rng = rand::thread_rng();
    let randvec: Vec<Vec3> = (0..POINT_COUNT).map(|i| v(i as f64, 0.0, 0.0)).collect();
    let field = Perlin::new(randvec, &mut rng);
    for (i, j, k) in [(0, 0, 0), (255, 255, 255), (1, 2, 3), (200, 17, 99)] {
        let class = field.perm_x[i] ^ field.perm_y[j] ^ field.perm_z[k];
        assert_eq!(field.lattice_vector(i, j, k), v(class as f64, 0.0, 0.0));
    }
    match &*Textures::noise(s(0.2), field) {
        Textures::Noise(n) => assert_eq!(n.scale, s(0.2)),
        _ => panic!("a noise texture was expected"),
    }
}
