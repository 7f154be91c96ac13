use raytracer::environment::EnvironmentMap;
use raytracer::geometry::Vec3;
use raytracer::lighting::{gather, occluded, LightSample};
use raytracer::scene::{checker_is_odd, nearest, Chord, Sphere};
use raytracer::shading::{reflect, Albedo, Material};
use raytracer::tracer::Tracer;
use std::cell::Cell;

type Vec3f = Vec3<f64>;

fn vec3f(x: f64, y: f64, z: f64) -> Vec3f {
    Vec3 { x, y, z }
}

fn close(a: f64, b: f64) -> bool {
    (a - b).abs() < 1e-9
}

fn normalize(v: Vec3f) -> Vec3f {
    let norm = f64::sqrt(v.dot_product(v));
    v.scale(1. / norm)
}

fn ivory() -> Material<f64> {
    Material {
        diffuse_color: vec3f(0.4, 0.4, 0.3),
        albedo: Albedo { diffuse: 0.6, specular: 0.3, reflection: 0.1, refraction: 0.0 },
        specular_exponent: 50.,
        refractive_index: 1.0,
    }
}

fn mirror() -> Material<f64> {
    Material {
        diffuse_color: vec3f(1.0, 1.0, 1.0),
        albedo: Albedo { diffuse: 0.0, specular: 10.0, reflection: 0.8, refraction: 0.0 },
        specular_exponent: 1425.,
        refractive_index: 1.0,
    }
}

fn ray_intersect(sphere: &Sphere<f64>, orig: Vec3f, dir: Vec3f) -> Option<f64> {
    let cut: Chord<f64> = sphere.chord(orig, dir)?;
    cut.first_crossing(f64::sqrt(cut.half_squared), 0.)
}

#[test]
fn ray_through_the_centre_crosses_at_both_ends_of_the_diameter() {
    let sphere = Sphere { center: vec3f(3., -4., 12.), radius: 2.5, material: ivory() };
    let orig = vec3f(0., 0., 0.);
    let dir = normalize(sphere.center);
    let cut = sphere.chord(orig, dir).unwrap();
    let half = f64::sqrt(cut.half_squared);
    assert!(close(cut.middle, 13.));
    assert!(close(half, 2.5));
    assert!(close(cut.first_crossing(half, 0.).unwrap(), 13. - 2.5));
    assert!(close(cut.first_crossing(half, 13.).unwrap(), 13. + 2.5));
}

#[test]
fn integer_ray_through_the_centre() {
    let sphere = Sphere {
        center: Vec3 { x: 0i64, y: 0, z: -5 },
        radius: 2,
        material: Material {
            diffuse_color: Vec3 { x: 0, y: 0, z: 0 },
            albedo: Albedo { diffuse: 0, specular: 0, reflection: 0, refraction: 0 },
            specular_exponent: 0,
            refractive_index: 1,
        },
    };
    let cut = sphere.chord(Vec3 { x: 0, y: 0, z: 0 }, Vec3 { x: 0, y: 0, z: -1 }).unwrap();
    assert_eq!(cut.middle, 5);
    assert_eq!(cut.half_squared, 4);
    assert_eq!(cut.first_crossing(2, 0), Some(3));
    assert_eq!(cut.first_crossing(2, 4), Some(7));
    assert_eq!(cut.first_crossing(2, 8), None);
}

#[test]
fn ray_that_passes_beside_the_sphere_has_no_chord() {
    let sphere = Sphere { center: vec3f(0., 0., -5.), radius: 2., material: ivory() };
    assert!(sphere.chord(vec3f(0., 2.5, 0.), vec3f(0., 0., -1.)).is_none());
    assert!(sphere.chord(vec3f(0., 2., 0.), vec3f(0., 0., -1.)).is_some());
}

#[test]
fn ray_from_inside_leaves_at_the_far_crossing() {
    let sphere = Sphere { center: vec3f(0., 0., -5.), radius: 2., material: ivory() };
    assert_eq!(ray_intersect(&sphere, vec3f(0., 0., -5.), vec3f(0., 0., -1.)), Some(2.));
    assert_eq!(ray_intersect(&sphere, vec3f(0., 0., -4.), vec3f(0., 0., -1.)), Some(3.));
}

#[test]
fn sphere_behind_the_ray_is_not_hit() {
    let sphere = Sphere { center: vec3f(0., 0., 5.), radius: 2., material: ivory() };
    assert_eq!(ray_intersect(&sphere, vec3f(0., 0., 0.), vec3f(0., 0., -1.)), None);
}

#[test]
fn nearest_takes_the_smallest_distance() {
    assert_eq!(nearest(&[Some(5.), Some(3.), Some(4.)], 1000.), Some(1));
    assert_eq!(nearest(&[None, Some(7.), None], 1000.), Some(1));
    assert_eq!(nearest(&[Some(2i64), Some(1), Some(3)], 1000), Some(1));
}

#[test]
fn nearest_keeps_the_earlier_of_two_equals() {
    assert_eq!(nearest(&[Some(5.), None, Some(3.), Some(3.)], 1000.), Some(2));
    assert_eq!(nearest(&[Some(3.), Some(3.)], 1000.), Some(0));
}

#[test]
fn nearest_stops_at_the_far_limit() {
    assert_eq!(nearest(&[Some(1000.), Some(1500.)], 1000.), None);
    assert_eq!(nearest(&[Some(1500.), Some(999.5)], 1000.), Some(1));
    assert_eq!(nearest(&[None, None], 1000.), None);
    assert_eq!(nearest::<f64>(&[], 1000.), None);
}

#[test]
fn nearest_never_takes_what_is_not_a_number() {
    assert_eq!(nearest(&[Some(f64::NAN), Some(5.)], 1000.), Some(1));
    assert_eq!(nearest(&[Some(5.), Some(f64::NAN)], 1000.), Some(0));
    assert_eq!(nearest(&[Some(f64::NAN)], 1000.), None);
}

#[test]
fn light_is_hidden_by_what_is_strictly_nearer() {
    assert!(occluded(Some(3.), 10.));
    assert!(!occluded(Some(10.), 10.));
    assert!(!occluded(Some(12.), 10.));
    assert!(!occluded(None, 10.));
    assert!(occluded(Some(1i64), 2));
}

#[test]
fn checkerboard_alternates_along_both_axes() {
    assert!(!checker_is_odd(0, 0));
    assert!(checker_is_odd(1, 0));
    assert!(checker_is_odd(0, 1));
    assert!(!checker_is_odd(1, 1));
    assert!(checker_is_odd(1000, -7));
    assert!(!checker_is_odd(1001, -7));
    assert!(!checker_is_odd(-3, -5));
    assert!(checker_is_odd(-3, -6));
    assert!(checker_is_odd(i64::MAX, i64::MAX - 1));
    assert!(!checker_is_odd(i64::MIN, i64::MIN));
    assert!(checker_is_odd(i64::MIN, i64::MAX));
}

#[test]
fn shadowed_light_adds_nothing() {
    // the shading point is the origin, one light is at z = 10 behind a
    // sphere, another at x = 10 in the open
    let blocker = Sphere { center: vec3f(0., 0., 5.), radius: 1., material: ivory() };
    let point = vec3f(0., 0., 0.);
    let normal = normalize(vec3f(1., 0., 1.));
    let lights = [(vec3f(0., 0., 10.), 1.5), (vec3f(10., 0., 0.), 2.)];
    let mut samples = Vec::new();
    for (position, intensity) in lights {
        let to_light = position - point;
        let light_dir = normalize(to_light);
        samples.push(LightSample {
            blocker: ray_intersect(&blocker, point, light_dir),
            light_distance: f64::sqrt(to_light.dot_product(to_light)),
            diffuse: intensity * f64::max(0., light_dir.dot_product(normal)),
            specular: intensity,
        });
    }
    assert_eq!(samples[0].blocker, Some(4.));
    assert_eq!(samples[1].blocker, None);
    assert!(samples[0].diffuse > 1.);
    let glow = gather(&samples, 0.);
    assert_eq!(glow.diffuse, samples[1].diffuse);
    assert_eq!(glow.specular, 2.);
    let alone = gather(&samples[1..], 0.);
    assert_eq!(alone.diffuse, glow.diffuse);
    assert_eq!(alone.specular, glow.specular);
    let dark = gather(&samples[..1], 0.);
    assert_eq!(dark.diffuse, 0.);
    assert_eq!(dark.specular, 0.);
}

#[test]
fn seen_lights_add_up_in_order() {
    let sample = |blocker: Option<i64>, diffuse: i64, specular: i64| LightSample {
        blocker,
        light_distance: 10,
        diffuse,
        specular,
    };
    let samples = [
        sample(None, 1, 10),
        sample(Some(9), 2, 20),
        sample(Some(10), 4, 40),
        sample(Some(11), 8, 80),
    ];
    let glow = gather(&samples, 0);
    assert_eq!(glow.diffuse, 13);
    assert_eq!(glow.specular, 130);
    let none = gather::<i64>(&[], 7);
    assert_eq!(none.diffuse, 7);
    assert_eq!(none.specular, 7);
}

struct Ray {
    orig: Vec3f,
    dir: Vec3f,
}

struct Hit {
    point: Vec3f,
    normal: Vec3f,
    material: Material<f64>,
}

fn hit_sphere(sphere: &Sphere<f64>, ray: &Ray) -> Option<Hit> {
    let found = nearest(&[ray_intersect(sphere, ray.orig, ray.dir)], 1000.)?;
    assert_eq!(found, 0);
    let distance = ray_intersect(sphere, ray.orig, ray.dir)?;
    let point = ray.orig + ray.dir.scale(distance);
    Some(Hit { point, normal: normalize(point - sphere.center), material: sphere.material })
}

fn leave(ray: &Ray, hit: &Hit) -> (Ray, Ray) {
    let mirrored = reflect(ray.dir, hit.normal);
    let bias = hit.normal.scale(0.001);
    let orig = if mirrored.dot_product(hit.normal) < 0. { hit.point - bias } else { hit.point + bias };
    (Ray { orig, dir: mirrored }, Ray { orig: hit.point - bias, dir: ray.dir })
}

#[test]
fn ivory_sphere_seen_straight_on() {
    let sphere = Sphere { center: vec3f(0., 0., -5.), radius: 2., material: ivory() };
    let light = (vec3f(0., 0., 0.), 1.);
    let met = Cell::new(None);
    let tracer = Tracer {
        max_depth: 4,
        intersect: |ray: &Ray| hit_sphere(&sphere, ray),
        background: |_ray: &Ray| vec3f(0., 0., 0.),
        scatter: |ray: &Ray, hit: &Hit| leave(ray, hit),
        shade: |ray: &Ray, hit: &Hit, mirrored: Vec3f, bent: Vec3f| {
            if met.get().is_none() {
                met.set(Some((hit.point, hit.normal)));
            }
            let light_dir = normalize(light.0 - hit.point);
            let diffuse = light.1 * f64::max(0., light_dir.dot_product(hit.normal));
            let specular = f64::max(0., reflect(light_dir, hit.normal).dot_product(ray.dir))
                .powf(hit.material.specular_exponent)
                * light.1;
            hit.material.blend(diffuse, specular, mirrored, bent)
        },
    };
    let color = tracer.cast_ray(&Ray { orig: vec3f(0., 0., 0.), dir: vec3f(0., 0., -1.) }, 0);
    let (point, normal) = met.get().unwrap();
    assert!(close(point.x, 0.) && close(point.y, 0.) && close(point.z, -3.));
    assert!(close(normal.x, 0.) && close(normal.y, 0.) && close(normal.z, 1.));
    // the light shines along the normal: full diffuse and full specular
    // light, and nothing comes from the reflected or the refracted ray
    assert!(close(color.x, 0.4 * 0.6 + 0.3));
    assert!(close(color.y, 0.4 * 0.6 + 0.3));
    assert!(close(color.z, 0.3 * 0.6 + 0.3));
}

#[test]
fn mirror_sphere_shows_the_environment_along_the_reflected_ray() {
    let sphere = Sphere { center: vec3f(0., 0., -5.), radius: 2., material: mirror() };
    let sky = vec3f(0.25, 0.5, 1.0);
    let map = EnvironmentMap::new(1, 1, vec![sky]).unwrap();
    let tracer = Tracer {
        max_depth: 4,
        intersect: |ray: &Ray| hit_sphere(&sphere, ray),
        background: |_ray: &Ray| *map.lookup(0, 0),
        scatter: |ray: &Ray, hit: &Hit| leave(ray, hit),
        shade: |_ray: &Ray, hit: &Hit, mirrored: Vec3f, bent: Vec3f| {
            hit.material.blend(0., 0., mirrored, bent)
        },
    };
    let color = tracer.cast_ray(&Ray { orig: vec3f(0., 0., 0.), dir: vec3f(0., 0., -1.) }, 0);
    assert!(close(color.x, 0.8 * 0.25));
    assert!(close(color.y, 0.8 * 0.5));
    assert!(close(color.z, 0.8 * 1.0));
}

#[test]
fn ray_that_meets_nothing_has_the_colour_of_the_environment() {
    let sphere = Sphere { center: vec3f(0., 0., -5.), radius: 2., material: ivory() };
    let sky = vec3f(0.2, 0.7, 0.8);
    let shaded = Cell::new(0);
    let tracer = Tracer {
        max_depth: 4,
        intersect: |ray: &Ray| hit_sphere(&sphere, ray),
        background: |_ray: &Ray| sky,
        scatter: |ray: &Ray, hit: &Hit| leave(ray, hit),
        shade: |_ray: &Ray, _hit: &Hit, _mirrored: Vec3f, _bent: Vec3f| {
            shaded.set(shaded.get() + 1);
            vec3f(9., 9., 9.)
        },
    };
    let color = tracer.cast_ray(&Ray { orig: vec3f(0., 0., 0.), dir: vec3f(0., 1., 0.) }, 0);
    assert_eq!(color, sky);
    assert_eq!(shaded.get(), 0);
}

#[test]
fn recursion_ends_past_depth_four() {
    // two mirrors that face each other: every ray meets a surface
    let deepest = Cell::new(0usize);
    let met = Cell::new(0usize);
    let escaped = Cell::new(0usize);
    let tracer = Tracer {
        max_depth: 4,
        intersect: |depth: &usize| {
            met.set(met.get() + 1);
            deepest.set(usize::max(deepest.get(), *depth));
            Some(())
        },
        background: |depth: &usize| {
            escaped.set(escaped.get() + 1);
            assert_eq!(*depth, 5);
            1u64
        },
        scatter: |depth: &usize, _hit: &()| (*depth + 1, *depth + 1),
        shade: |_depth: &usize, _hit: &(), mirrored: u64, bent: u64| mirrored + bent,
    };
    let color = tracer.cast_ray(&0usize, 0);
    assert_eq!(deepest.get(), 4);
    assert_eq!(met.get(), 1 + 2 + 4 + 8 + 16);
    assert_eq!(escaped.get(), 32);
    assert_eq!(color, 32);
}

#[test]
fn recursion_follows_the_reflection_five_levels() {
    let levels = Cell::new(0usize);
    let tracer = Tracer {
        max_depth: 4,
        intersect: |mirror_side: &bool| if *mirror_side { Some(()) } else { None },
        background: |_side: &bool| 1u64,
        scatter: |_side: &bool, _hit: &()| (true, false),
        shade: |_side: &bool, _hit: &(), mirrored: u64, _bent: u64| {
            levels.set(levels.get() + 1);
            mirrored
        },
    };
    assert_eq!(tracer.cast_ray(&true, 0), 1);
    assert_eq!(levels.get(), 5);
}

#[test]
fn ray_cast_past_the_depth_limit_is_not_intersected() {
    let tracer = Tracer {
        max_depth: 4,
        intersect: |_ray: &u8| -> Option<()> { panic!("no intersection past the limit") },
        background: |ray: &u8| *ray,
        scatter: |_ray: &u8, _hit: &()| (0u8, 0u8),
        shade: |_ray: &u8, _hit: &(), _mirrored: u8, _bent: u8| 0u8,
    };
    assert_eq!(tracer.cast_ray(&7u8, 5), 7);
    assert_eq!(tracer.cast_ray(&9u8, 6), 9);
}
