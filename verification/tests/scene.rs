use pathtracer::canvas::assemble;
use pathtracer::hittable::HitRecord;
use pathtracer::hittable_list::HittableList;
use pathtracer::integrator::{Light, Radiance};
use pathtracer::material::{Dielectric, Lambertian, Material, Metal, Refraction};
use pathtracer::ray::Ray;
use pathtracer::render::{
    clamp_channel, clamp_coordinate, parallel_create_picture, render_pixel, row_units, ImageData,
    Rgb8, CHANNEL_MAX_BITS,
};
use pathtracer::scalar::Scalar;
use pathtracer::sphere::{Crossing, Solved, Sphere};
use pathtracer::vec3::Vec3;
use random_fast_rng::{FastRng, Random};

// The arithmetic on doubles that a caller of the library supplies.

type V = [f64; 3];

fn s(x: f64) -> Scalar {
    Scalar::from_bits(x.to_bits())
}

fn n(x: Scalar) -> f64 {
    f64::from_bits(x.to_bits())
}

fn pack(a: V) -> Vec3 {
    Vec3::new(s(a[0]), s(a[1]), s(a[2]))
}

fn unpack(a: Vec3) -> V {
    [n(a.x()), n(a.y()), n(a.z())]
}

fn add(a: V, b: V) -> V {
    [a[0] + b[0], a[1] + b[1], a[2] + b[2]]
}

fn sub(a: V, b: V) -> V {
    [a[0] - b[0], a[1] - b[1], a[2] - b[2]]
}

fn scale(a: V, k: f64) -> V {
    [a[0] * k, a[1] * k, a[2] * k]
}

fn neg(a: V) -> V {
    [-a[0], -a[1], -a[2]]
}

fn dot(a: V, b: V) -> f64 {
    a[0] * b[0] + a[1] * b[1] + a[2] * b[2]
}

fn cross(a: V, b: V) -> V {
    [a[1] * b[2] - a[2] * b[1], a[2] * b[0] - a[0] * b[2], a[0] * b[1] - a[1] * b[0]]
}

fn unit(a: V) -> V {
    scale(a, 1.0 / dot(a, a).sqrt())
}

fn reflect(v: V, normal: V) -> V {
    sub(v, scale(normal, 2.0 * dot(v, normal)))
}

fn refract(uv: V, normal: V, etai_over_etat: f64) -> V {
    let cos_theta = dot(neg(uv), normal).min(1.0);
    let r_perp = scale(add(uv, scale(normal, cos_theta)), etai_over_etat);
    let r_parallel = scale(normal, -(1.0 - dot(r_perp, r_perp)).abs().sqrt());
    add(r_perp, r_parallel)
}

fn reflectance(cosine: f64, ref_idx: f64) -> f64 {
    let r0 = ((1.0 - ref_idx) / (1.0 + ref_idx)).powf(2.0);
    r0 + (1.0 - r0) * (1.0 - cosine).powf(5.0)
}

fn random_in_unit_sphere(rng: &mut FastRng) -> V {
    loop {
        let res: V = [
            rng.gen::<f64>() * 2.0 - 1.0,
            rng.gen::<f64>() * 2.0 - 1.0,
            rng.gen::<f64>() * 2.0 - 1.0,
        ];
        if dot(res, res) <= 1.0 {
            return res;
        }
    }
}

fn random_unit_vector(rng: &mut FastRng) -> V {
    loop {
        let res = random_in_unit_sphere(rng);
        if 1e-160 < dot(res, res) {
            return unit(res);
        }
    }
}

fn crossing(sphere: &Sphere, origin: V, direction: V, root: f64) -> Crossing {
    let p = add(origin, scale(direction, root));
    let outward = scale(sub(p, unpack(sphere.center())), 1.0 / n(sphere.radius()));
    Crossing { t: s(root), p: pack(p), outward_normal: pack(outward), facing: s(dot(direction, outward)) }
}

fn solve(sphere: &Sphere, r: Ray) -> Solved {
    let (origin, direction) = (unpack(r.origin()), unpack(r.direction()));
    let radius = n(sphere.radius());
    let oc = sub(origin, unpack(sphere.center()));
    let a = dot(direction, direction);
    let half_b = dot(oc, direction);
    let c = dot(oc, oc) - radius * radius;
    let discriminant = half_b * half_b - a * c;
    let sqrtd = discriminant.sqrt();
    Solved {
        discriminant: s(discriminant),
        near: crossing(sphere, origin, direction, (-half_b - sqrtd) / a),
        far: crossing(sphere, origin, direction, (-half_b + sqrtd) / a),
    }
}

fn world_hit(world: &HittableList, r: Ray, t_min: Scalar, t_max: Scalar) -> Option<HitRecord> {
    let solved: Vec<Solved> = world.objects().iter().map(|o| solve(o, r)).collect();
    world.hit(&solved, t_min, t_max)
}

fn scatter(r: Ray, rec: HitRecord, mut rng: FastRng) -> (Option<(Vec3, Ray)>, FastRng) {
    let out = scatter_with(r, rec, &mut rng);
    (out, rng)
}

fn scatter_with(r: Ray, rec: HitRecord, rng: &mut FastRng) -> Option<(Vec3, Ray)> {
    let normal = unpack(rec.normal);
    let direction = unpack(r.direction());
    match rec.mat {
        Material::Lambertian(m) => {
            let candidate = add(normal, random_unit_vector(rng));
            m.scatter(&rec, pack(candidate))
        }
        Material::Metal(m) => {
            let reflected = reflect(unit(direction), normal);
            let perturbed = add(reflected, scale(random_in_unit_sphere(rng), n(m.fuzz())));
            m.scatter(&rec, s(dot(perturbed, normal)), pack(perturbed))
        }
        Material::Dielectric(m) => {
            let ratio = n(m.refraction_ratio(rec.front_face, s(1.0 / n(m.ir()))));
            let unit_direction = unit(direction);
            let cos_theta = dot(neg(unit_direction), normal).min(1.0);
            let sin_theta = (1.0 - cos_theta * cos_theta).sqrt();
            let bend = Refraction {
                scaled_sine: s(ratio * sin_theta),
                reflectance: s(reflectance(cos_theta, n(m.ir()))),
                draw: s(rng.gen()),
                reflected: pack(reflect(unit_direction, normal)),
                refracted: pack(refract(unit_direction, normal, ratio)),
            };
            m.scatter(&rec, &bend)
        }
    }
}

fn color(path: &Radiance) -> V {
    let mut res = match path.light {
        Light::Black => [0.0, 0.0, 0.0],
        Light::Sky(d) => {
            let t = 0.5 * (unit(unpack(d))[1] + 1.0);
            add(scale([1.0, 1.0, 1.0], 1.0 - t), scale([0.5, 0.7, 1.0], t))
        }
    };
    for a in path.attenuations.iter().rev() {
        let a = unpack(*a);
        res = [a[0] * res[0], a[1] * res[1], a[2] * res[2]];
    }
    res
}

fn quantize(value: Scalar) -> u8 {
    (n(value) * 255.999) as u8
}

fn channel(value: f64) -> u8 {
    quantize(clamp_channel(s(value)))
}

fn develop(samples: Vec<Radiance>) -> Vec3 {
    let mut sum = [0.0, 0.0, 0.0];
    for path in &samples {
        sum = add(sum, color(path));
    }
    let k = 1.0 / (samples.len() as f64);
    pack([(sum[0] * k).sqrt(), (sum[1] * k).sqrt(), (sum[2] * k).sqrt()])
}

struct Camera {
    origin: V,
    lower_left_corner: V,
    horizontal: V,
    vertical: V,
}

fn camera(look_from: V, look_at: V, vup: V, vfov: f64, aspect_ratio: f64, focus_dist: f64) -> Camera {
    let viewport_height = 2.0 * (vfov.to_radians() / 2.0).tan();
    let viewport_width = aspect_ratio * viewport_height;
    let w = unit(sub(look_from, look_at));
    let u = unit(cross(vup, w));
    let v = cross(w, u);
    let horizontal = scale(u, focus_dist * viewport_width);
    let vertical = scale(v, focus_dist * viewport_height);
    let lower_left_corner = sub(
        sub(sub(look_from, scale(horizontal, 0.5)), scale(vertical, 0.5)),
        scale(w, focus_dist),
    );
    Camera { origin: look_from, lower_left_corner, horizontal, vertical }
}

fn get_ray(cam: &Camera, u: f64, v: f64) -> Ray {
    let target = add(add(cam.lower_left_corner, scale(cam.horizontal, u)), scale(cam.vertical, v));
    Ray::new(pack(cam.origin), pack(sub(target, cam.origin)))
}

fn gray() -> Material {
    Material::Lambertian(Lambertian::new(pack([0.5, 0.5, 0.5])))
}

fn ball(center: V, radius: f64, mat: Material) -> Sphere {
    Sphere::new(pack(center), s(radius), mat)
}

fn ray(origin: V, direction: V) -> Ray {
    Ray::new(pack(origin), pack(direction))
}

fn hit_alone(sphere: &Sphere, r: Ray, t_min: f64, t_max: f64) -> Option<HitRecord> {
    sphere.hit(&solve(sphere, r), s(t_min), s(t_max))
}

/// A small generator of test values in `[0, 1)`.
fn next(state: &mut u64) -> f64 {
    *state = state.wrapping_mul(6364136223846793005).wrapping_add(1442695040888963407);
    ((*state >> 11) as f64) / ((1u64 << 53) as f64)
}

// Spheres.

#[test]
fn sphere_keeps_what_it_was_made_with() {
    let sphere = ball([1.0, 2.0, 3.0], 0.5, gray());
    assert_eq!(sphere.center(), pack([1.0, 2.0, 3.0]));
    assert_eq!(sphere.radius(), s(0.5));
    assert_eq!(sphere.material(), gray());
}

#[test]
fn sphere_is_hit_at_the_near_root_from_outside() {
    let sphere = ball([0.0, 0.0, -5.0], 1.0, gray());
    let rec = hit_alone(&sphere, ray([0.0, 0.0, 0.0], [0.0, 0.0, -1.0]), 0.001, f64::INFINITY)
        .unwrap();
    assert_eq!(n(rec.t), 4.0);
    assert_eq!(unpack(rec.p), [0.0, 0.0, -4.0]);
    assert_eq!(unpack(rec.normal), [0.0, 0.0, 1.0]);
    assert!(rec.front_face);
    assert_eq!(rec.mat, gray());
}

#[test]
fn sphere_is_hit_at_the_far_root_from_inside() {
    let sphere = ball([0.0, 0.0, 0.0], 2.0, gray());
    let rec = hit_alone(&sphere, ray([0.0, 0.0, 0.0], [0.0, 1.0, 0.0]), 0.001, f64::INFINITY)
        .unwrap();
    assert_eq!(n(rec.t), 2.0);
    assert_eq!(unpack(rec.p), [0.0, 2.0, 0.0]);
    assert_eq!(unpack(rec.normal), [-0.0, -1.0, -0.0]);
    assert!(!rec.front_face);
}

#[test]
fn sphere_is_missed_without_a_real_root() {
    let sphere = ball([0.0, 0.0, -5.0], 1.0, gray());
    assert_eq!(hit_alone(&sphere, ray([0.0, 0.0, 0.0], [0.0, 1.0, 0.0]), 0.0, f64::INFINITY), None);
    assert_eq!(hit_alone(&sphere, ray([0.0, 3.0, 0.0], [0.0, 0.0, -1.0]), 0.0, f64::INFINITY), None);
}

#[test]
fn sphere_is_missed_when_the_interval_holds_no_root() {
    let sphere = ball([0.0, 0.0, -5.0], 1.0, gray());
    let r = ray([0.0, 0.0, 0.0], [0.0, 0.0, -1.0]);
    assert_eq!(hit_alone(&sphere, r, 0.001, 3.9), None);
    assert_eq!(hit_alone(&sphere, r, 6.1, 100.0), None);
    assert_eq!(hit_alone(&sphere, r, 4.1, 5.9), None);
    assert_eq!(n(hit_alone(&sphere, r, 4.1, 6.0).unwrap().t), 6.0);
    assert_eq!(n(hit_alone(&sphere, r, 4.0, 4.0).unwrap().t), 4.0);
}

#[test]
fn sphere_hit_ignores_roots_when_the_discriminant_is_negative() {
    let sphere = ball([0.0, 0.0, 0.0], 1.0, gray());
    let at = |t: f64| Crossing {
        t: s(t),
        p: pack([t, 0.0, 0.0]),
        outward_normal: pack([1.0, 0.0, 0.0]),
        facing: s(-1.0),
    };
    let solved = Solved { discriminant: s(-1e-300), near: at(1.0), far: at(2.0) };
    assert_eq!(sphere.hit(&solved, s(0.0), s(10.0)), None);
    let touching = Solved { discriminant: s(-0.0), near: at(1.0), far: at(2.0) };
    assert_eq!(n(sphere.hit(&touching, s(0.0), s(10.0)).unwrap().t), 1.0);
}

#[test]
fn a_ray_without_direction_hits_nothing() {
    let sphere = ball([0.0, 0.0, 0.0], 1.0, gray());
    let r = ray([5.0, 0.0, 0.0], [0.0, 0.0, 0.0]);
    let solved = solve(&sphere, r);
    assert_eq!(n(solved.discriminant), 0.0);
    assert!(n(solved.near.t).is_nan() && n(solved.far.t).is_nan());
    assert_eq!(sphere.hit(&solved, s(0.001), s(f64::INFINITY)), None);
    let inside = ray([0.5, 0.0, 0.0], [0.0, 0.0, 0.0]);
    assert_eq!(hit_alone(&sphere, inside, 0.001, f64::INFINITY), None);
    let world = HittableList::new(sphere);
    assert_eq!(world_hit(&world, r, s(0.001), s(f64::INFINITY)), None);
}

#[test]
fn a_root_that_is_no_number_is_no_hit() {
    let sphere = ball([0.0, 0.0, 0.0], 1.0, gray());
    let at = |t: f64| Crossing {
        t: s(t),
        p: pack([t, 0.0, 0.0]),
        outward_normal: pack([1.0, 0.0, 0.0]),
        facing: s(-1.0),
    };
    let both = Solved { discriminant: s(0.0), near: at(f64::NAN), far: at(f64::NAN) };
    assert_eq!(sphere.hit(&both, s(0.0), s(10.0)), None);
    let near = Solved { discriminant: s(1.0), near: at(f64::NAN), far: at(2.0) };
    assert_eq!(n(sphere.hit(&near, s(0.0), s(10.0)).unwrap().t), 2.0);
    let far = Solved { discriminant: s(1.0), near: at(-1.0), far: at(f64::NAN) };
    assert_eq!(sphere.hit(&far, s(0.0), s(10.0)), None);
}

#[test]
fn an_interval_with_an_end_that_is_no_number_holds_no_hit() {
    let sphere = ball([0.0, 0.0, -5.0], 1.0, gray());
    let r = ray([0.0, 0.0, 0.0], [0.0, 0.0, -1.0]);
    assert_eq!(hit_alone(&sphere, r, f64::NAN, f64::INFINITY), None);
    assert_eq!(hit_alone(&sphere, r, 0.001, f64::NAN), None);
    let world = HittableList::new(sphere);
    assert_eq!(world_hit(&world, r, s(0.001), s(f64::NAN)), None);
}

#[test]
fn a_hit_that_is_no_number_does_not_widen_the_interval() {
    // The first object has no usable root; the second lies beyond the interval.
    let mut world = HittableList::zeros();
    world.add(ball([0.0, 0.0, 0.0], 1.0, gray()));
    world.add(ball([0.0, 0.0, -50.0], 1.0, gray()));
    let r = ray([0.0, 0.0, 0.0], [0.0, 0.0, -1.0]);
    let at = |t: f64| Crossing {
        t: s(t),
        p: pack([0.0, 0.0, -t]),
        outward_normal: pack([0.0, 0.0, 1.0]),
        facing: s(-1.0),
    };
    let solved = vec![
        Solved { discriminant: s(0.0), near: at(f64::NAN), far: at(f64::NAN) },
        solve(&world.objects()[1], r),
    ];
    assert_eq!(world.hit(&solved, s(0.001), s(10.0)), None);
    assert_eq!(n(world.hit(&solved, s(0.001), s(100.0)).unwrap().t), 49.0);
}

#[test]
fn sphere_hits_lie_in_the_interval_and_on_the_surface() {
    let mut state = 7u64;
    let mut hits = 0;
    for _ in 0..2000 {
        let center = [next(&mut state) * 4.0 - 2.0, next(&mut state) * 4.0 - 2.0, -3.0];
        let radius = 0.2 + next(&mut state) * 2.0;
        let sphere = ball(center, radius, gray());
        let origin = [next(&mut state) - 0.5, next(&mut state) - 0.5, next(&mut state)];
        let direction = [next(&mut state) - 0.5, next(&mut state) - 0.5, -next(&mut state) - 0.1];
        let t_min = next(&mut state) * 2.0;
        let t_max = t_min + next(&mut state) * 20.0;
        if let Some(rec) = hit_alone(&sphere, ray(origin, direction), t_min, t_max) {
            hits += 1;
            let t = n(rec.t);
            assert!(t_min <= t && t <= t_max);
            let offset = sub(unpack(rec.p), center);
            assert!((dot(offset, offset).sqrt() - radius).abs() < 1e-9);
            assert!(dot(direction, unpack(rec.normal)) <= 0.0);
            assert!((dot(unpack(rec.normal), unpack(rec.normal)) - 1.0).abs() < 1e-9);
        }
    }
    assert!(hits > 100);
}

// Face normals.

#[test]
fn set_face_normal_keeps_an_outward_normal_that_faces_the_ray() {
    let mut rec = HitRecord {
        p: pack([1.0, 2.0, 3.0]),
        normal: Vec3::zeros(),
        mat: gray(),
        t: s(2.0),
        front_face: false,
    };
    rec.set_face_normal(s(-0.5), pack([0.0, 1.0, 0.0]));
    assert!(rec.front_face);
    assert_eq!(rec.normal, pack([0.0, 1.0, 0.0]));
    assert_eq!(rec.p, pack([1.0, 2.0, 3.0]));
    assert_eq!(rec.t, s(2.0));
    assert_eq!(rec.mat, gray());
}

#[test]
fn set_face_normal_flips_a_normal_that_points_along_the_ray() {
    let mut rec = HitRecord {
        p: Vec3::zeros(),
        normal: Vec3::zeros(),
        mat: gray(),
        t: s(1.0),
        front_face: true,
    };
    rec.set_face_normal(s(0.5), pack([0.0, 1.0, 0.0]));
    assert!(!rec.front_face);
    assert_eq!(rec.normal, pack([-0.0, -1.0, -0.0]));
    rec.set_face_normal(s(0.0), pack([0.0, 0.0, 2.0]));
    assert!(!rec.front_face);
    assert_eq!(rec.normal, pack([-0.0, -0.0, -2.0]));
}

#[test]
fn face_normal_never_points_along_the_ray() {
    let mut state = 99u64;
    for _ in 0..2000 {
        let direction = [next(&mut state) - 0.5, next(&mut state) - 0.5, next(&mut state) - 0.5];
        let outward = [next(&mut state) - 0.5, next(&mut state) - 0.5, next(&mut state) - 0.5];
        let mut rec = HitRecord {
            p: Vec3::zeros(),
            normal: Vec3::zeros(),
            mat: gray(),
            t: s(1.0),
            front_face: false,
        };
        rec.set_face_normal(s(dot(direction, outward)), pack(outward));
        assert!(dot(direction, unpack(rec.normal)) <= 0.0);
        assert_eq!(rec.front_face, dot(direction, outward) < 0.0);
    }
}

// Scenes.

#[test]
fn list_holds_its_objects_in_order() {
    let a = ball([0.0, 0.0, -1.0], 0.5, gray());
    let b = ball([0.0, 0.0, -2.0], 0.5, gray());
    let mut list = HittableList::zeros();
    assert_eq!(list.objects().len(), 0);
    list.add(a);
    list.add(b);
    assert_eq!(list.objects(), &vec![a, b]);
    list.clear();
    assert_eq!(list.objects().len(), 0);
    let one = HittableList::new(b);
    assert_eq!(one.objects(), &vec![b]);
}

#[test]
fn empty_list_is_never_hit() {
    let list = HittableList::zeros();
    assert_eq!(list.hit(&vec![], s(0.0), s(f64::INFINITY)), None);
}

#[test]
fn list_is_hit_at_the_nearest_object() {
    let metal = Material::Metal(Metal::new(pack([0.7, 0.6, 0.5]), s(0.0)));
    let glass = Material::Dielectric(Dielectric::new(s(1.5)));
    let mut list = HittableList::zeros();
    list.add(ball([0.0, 0.0, -10.0], 1.0, gray()));
    list.add(ball([0.0, 0.0, -4.0], 1.0, metal));
    list.add(ball([0.0, 0.0, -7.0], 1.0, glass));
    let r = ray([0.0, 0.0, 0.0], [0.0, 0.0, -1.0]);
    let rec = world_hit(&list, r, s(0.001), s(f64::INFINITY)).unwrap();
    assert_eq!(n(rec.t), 3.0);
    assert_eq!(rec.mat, metal);
    let behind = world_hit(&list, r, s(5.5), s(f64::INFINITY)).unwrap();
    assert_eq!(n(behind.t), 6.0);
    assert_eq!(behind.mat, glass);
    assert_eq!(world_hit(&list, r, s(0.001), s(2.5)), None);
}

#[test]
fn of_two_equal_hits_the_later_object_wins() {
    let metal = Material::Metal(Metal::new(pack([0.7, 0.6, 0.5]), s(0.0)));
    let mut list = HittableList::zeros();
    list.add(ball([0.0, 0.0, -4.0], 1.0, gray()));
    list.add(ball([0.0, 0.0, -4.0], 1.0, metal));
    let rec = world_hit(&list, ray([0.0, 0.0, 0.0], [0.0, 0.0, -1.0]), s(0.0), s(100.0)).unwrap();
    assert_eq!(rec.mat, metal);
}

#[test]
fn list_hit_is_the_linear_minimum_of_the_objects_hits() {
    let mut state = 2024u64;
    let mut hits = 0;
    for round in 0..300 {
        let count = round % 9;
        let mut list = HittableList::zeros();
        for k in 0..count {
            let center =
                [next(&mut state) * 6.0 - 3.0, next(&mut state) * 6.0 - 3.0, -next(&mut state) * 8.0];
            let albedo = [k as f64, next(&mut state), next(&mut state)];
            let mat = Material::Lambertian(Lambertian::new(pack(albedo)));
            list.add(ball(center, 0.3 + next(&mut state) * 1.5, mat));
        }
        for _ in 0..20 {
            let origin = [next(&mut state) - 0.5, next(&mut state) - 0.5, 1.0];
            let direction = [next(&mut state) - 0.5, next(&mut state) - 0.5, -1.0];
            let r = ray(origin, direction);
            let t_min = s(next(&mut state) * 3.0);
            let t_max = s(3.0 + next(&mut state) * 10.0);
            let mut best: Option<HitRecord> = None;
            for object in list.objects() {
                if let Some(rec) = object.hit(&solve(object, r), t_min, t_max) {
                    if best.map_or(true, |b| n(rec.t) <= n(b.t)) {
                        best = Some(rec);
                    }
                }
            }
            let got = world_hit(&list, r, t_min, t_max);
            assert_eq!(got, best);
            if got.is_some() {
                hits += 1;
            }
        }
    }
    assert!(hits > 200);
}

// Glass of the index of its surroundings.

#[test]
fn glass_of_unit_index_does_not_bend_the_ray() {
    let glass = Dielectric::new(s(1.0));
    let sphere = ball([0.0, 0.0, -3.0], 1.0, Material::Dielectric(glass));
    let mut state = 5u64;
    let mut bent = 0;
    for _ in 0..500 {
        let direction = [next(&mut state) * 0.5 - 0.25, next(&mut state) * 0.5 - 0.25, -1.0];
        let r = ray([0.0, 0.0, 0.0], direction);
        if let Some(rec) = hit_alone(&sphere, r, 0.001, f64::INFINITY) {
            let normal = unpack(rec.normal);
            let ratio = n(glass.refraction_ratio(rec.front_face, s(1.0 / n(glass.ir()))));
            assert_eq!(ratio, 1.0);
            let incident = unit(direction);
            let cos_theta = dot(neg(incident), normal).min(1.0);
            let bend = Refraction {
                scaled_sine: s(ratio * (1.0 - cos_theta * cos_theta).sqrt()),
                reflectance: s(reflectance(cos_theta, n(glass.ir()))),
                draw: s(1.0),
                reflected: pack(reflect(incident, normal)),
                refracted: pack(refract(incident, normal, ratio)),
            };
            let (attenuation, scattered) = glass.scatter(&rec, &bend).unwrap();
            assert_eq!(unpack(attenuation), [1.0, 1.0, 1.0]);
            assert_eq!(scattered.origin(), rec.p);
            let gap = sub(unpack(scattered.direction()), incident);
            assert!(dot(gap, gap).sqrt() < 1e-7);
            bent += 1;
        }
    }
    assert!(bent > 100);
}

// Channels.

#[test]
fn channel_bound_is_just_below_one() {
    assert_eq!(CHANNEL_MAX_BITS, 0.999f64.to_bits());
}

#[test]
fn clamp_channel_keeps_values_within_the_bounds() {
    for x in [0.0, 0.25, 0.5, 0.999, 1e-300, -0.0] {
        assert_eq!(clamp_channel(s(x)), s(x));
    }
}

#[test]
fn clamp_channel_cuts_values_outside_the_bounds() {
    assert_eq!(clamp_channel(s(-0.5)), s(0.0));
    assert_eq!(clamp_channel(s(f64::NEG_INFINITY)), s(0.0));
    assert_eq!(clamp_channel(s(f64::NAN)), s(0.0));
    assert_eq!(clamp_channel(s(0.9990000000000001)), s(0.999));
    assert_eq!(clamp_channel(s(1.0)), s(0.999));
    assert_eq!(clamp_channel(s(37.5)), s(0.999));
    assert_eq!(clamp_channel(s(f64::INFINITY)), s(0.999));
}

#[test]
fn clamped_channels_fill_the_bytes() {
    assert_eq!(channel(0.0), 0);
    assert_eq!(channel(-3.0), 0);
    assert_eq!(channel(f64::NAN), 0);
    assert_eq!(channel(0.5), 127);
    assert_eq!(channel(0.999), 255);
    assert_eq!(channel(1.0), 255);
    assert_eq!(channel(1e9), 255);
}

// Places on the image plane.

#[test]
fn clamp_coordinate_keeps_places_on_the_image_plane() {
    for x in [0.0, 0.25, 0.5, 1.0, 1e-300, -0.0, 0.9999999999999999] {
        assert_eq!(clamp_coordinate(s(x)), s(x));
    }
}

#[test]
fn clamp_coordinate_cuts_places_beyond_the_image_plane() {
    assert_eq!(clamp_coordinate(s(-0.5)), s(0.0));
    assert_eq!(clamp_coordinate(s(-1e-300)), s(0.0));
    assert_eq!(clamp_coordinate(s(f64::NEG_INFINITY)), s(0.0));
    assert_eq!(clamp_coordinate(s(f64::NAN)), s(0.0));
    assert_eq!(clamp_coordinate(s(1.0000000000000002)), s(1.0));
    assert_eq!(clamp_coordinate(s(20.0 / 19.0)), s(1.0));
    assert_eq!(clamp_coordinate(s(f64::INFINITY)), s(1.0));
}

// Blocks of pixels.

fn blank_data(width: u32, height: u32, samples: u32, depth: u32) -> ImageData {
    ImageData {
        aspect_ratio: s(width as f64 / height as f64),
        image_width: width,
        image_height: height,
        samples_per_pixel: samples,
        max_depth: depth,
    }
}

fn miss(_r: Ray, _a: Scalar, _b: Scalar) -> Option<HitRecord> {
    None
}

fn absorb(_r: Ray, _rec: HitRecord, draws: u32) -> (Option<(Vec3, Ray)>, u32) {
    (None, draws)
}

/// A byte for a channel that holds a small whole number of thousandths.
fn whole(value: Scalar) -> u8 {
    (n(value) * 1000.0).round() as u8
}

/// The place of a pixel, in thousandths, and one draw taken.
fn thousandths(i: u32, j: u32, draws: u32) -> ((Scalar, Scalar), u32) {
    ((s(i as f64 / 1000.0), s(j as f64 / 1000.0)), draws + 1)
}

/// A ray that tells the place it was aimed at and the draws taken before it.
fn telling(u: Scalar, v: Scalar, draws: u32) -> (Ray, u32) {
    let direction = [(n(u) * 1000.0).round(), (n(v) * 1000.0).round(), (draws - 1) as f64];
    (ray([0.0, 0.0, 0.0], direction), draws)
}

/// The colour, in thousandths, that tells the direction of the first sample.
fn retell(samples: Vec<Radiance>) -> Vec3 {
    match samples[0].light {
        Light::Sky(d) => pack([n(d.x()) / 1000.0, n(d.y()) / 1000.0, n(d.z()) / 1000.0]),
        Light::Black => pack([0.255, 0.255, 0.255]),
    }
}

#[test]
fn render_pixel_takes_as_many_samples_as_asked() {
    let dev = |samples: Vec<Radiance>| -> Vec3 {
        for (k, path) in samples.iter().enumerate() {
            assert_eq!(path.light, Light::Sky(pack([2.0, 1.0, (100 + k) as f64])));
        }
        pack([samples.len() as f64 / 1000.0, 0.0, 0.0])
    };
    let data = blank_data(4, 4, 7, 3);
    let (pixel, draws) =
        render_pixel(data, 2, 1, &thousandths, &telling, &miss, &absorb, &dev, &whole, 100);
    assert_eq!(pixel, [7, 0, 0]);
    assert_eq!(draws, 107);
    let none = render_pixel(
        blank_data(4, 4, 0, 3), 2, 1, &thousandths, &telling, &miss, &absorb, &dev, &whole, 5,
    );
    assert_eq!(none, ([0, 0, 0], 5));
}

#[test]
fn render_pixel_follows_each_ray_for_the_depth_of_the_picture() {
    let hit = |r: Ray, _a: Scalar, _b: Scalar| -> Option<HitRecord> {
        Some(HitRecord {
            p: r.origin(),
            normal: pack([0.0, 0.0, 1.0]),
            mat: gray(),
            t: s(1.0),
            front_face: true,
        })
    };
    let bounce = |r: Ray, _rec: HitRecord, draws: u32| -> (Option<(Vec3, Ray)>, u32) {
        (Some((pack([0.5, 0.5, 0.5]), r)), draws + 1)
    };
    let dev = |samples: Vec<Radiance>| -> Vec3 {
        pack([
            samples.len() as f64 / 1000.0,
            samples[0].attenuations.len() as f64 / 1000.0,
            samples[1].attenuations.len() as f64 / 1000.0,
        ])
    };
    let data = blank_data(4, 4, 2, 9);
    let (pixel, draws) =
        render_pixel(data, 0, 0, &thousandths, &telling, &hit, &bounce, &dev, &whole, 0);
    assert_eq!(pixel, [2, 9, 9]);
    assert_eq!(draws, 20);
}

#[test]
fn render_pixel_aims_within_the_image_plane() {
    let seen = std::cell::RefCell::new(Vec::new());
    let aim = |u: Scalar, v: Scalar, draws: u32| -> (Ray, u32) {
        seen.borrow_mut().push((n(u), n(v)));
        (Ray::zeros(), draws)
    };
    let dev = |_samples: Vec<Radiance>| -> Vec3 { pack([0.0, 0.0, 0.0]) };
    let data = blank_data(1, 1, 1, 1);
    let places = [(-0.5, 1.7), (f64::NAN, 0.25), (1.0, f64::INFINITY), (0.0, -0.0)];
    for (u, v) in places {
        let put = |_i: u32, _j: u32, draws: u32| ((s(u), s(v)), draws);
        render_pixel(data, 0, 0, &put, &aim, &miss, &absorb, &dev, &whole, 0);
    }
    assert_eq!(*seen.borrow(), vec![(0.0, 1.0), (0.0, 0.25), (1.0, 1.0), (0.0, -0.0)]);
}

#[test]
fn render_pixel_clamps_each_channel_before_it_is_made_a_byte() {
    let seen = std::cell::RefCell::new(Vec::new());
    let record = |value: Scalar| -> u8 {
        seen.borrow_mut().push(n(value));
        quantize(value)
    };
    let data = blank_data(1, 1, 1, 1);
    let wild = |_samples: Vec<Radiance>| -> Vec3 { pack([-3.0, 0.5, 1e9]) };
    let (pixel, _) =
        render_pixel(data, 0, 0, &thousandths, &telling, &miss, &absorb, &wild, &record, 0);
    assert_eq!(pixel, [0, 127, 255]);
    let broken = |_samples: Vec<Radiance>| -> Vec3 { pack([f64::NAN, 1.0, f64::INFINITY]) };
    let (pixel, _) =
        render_pixel(data, 0, 0, &thousandths, &telling, &miss, &absorb, &broken, &record, 0);
    assert_eq!(pixel, [0, 255, 255]);
    assert_eq!(*seen.borrow(), vec![0.0, 0.5, 0.999, 0.0, 0.999, 0.999]);
}

/// Each pixel tells its column, its height above the bottom and how many
/// pixels were rendered before it.
fn survey(x_range: std::ops::Range<u32>, y_range: std::ops::Range<u32>) -> (Vec<Vec<Rgb8>>, u32) {
    let data = blank_data(6, 10, 1, 1);
    parallel_create_picture(
        x_range, y_range, data, &thousandths, &telling, &miss, &absorb, &retell, &whole, 0,
    )
}

#[test]
fn block_rows_run_from_the_top_and_columns_from_the_left() {
    let (block, draws) = survey(2..5, 3..5);
    assert_eq!(
        block,
        vec![vec![[2, 6, 0], [3, 6, 1], [4, 6, 2]], vec![[2, 5, 3], [3, 5, 4], [4, 5, 5]]]
    );
    assert_eq!(draws, 6);
    let (whole_picture, draws) = survey(0..6, 0..10);
    assert_eq!(whole_picture.len(), 10);
    assert_eq!(whole_picture[0][0], [0, 9, 0]);
    assert_eq!(whole_picture[9][5], [5, 0, 59]);
    assert_eq!(draws, 60);
}

#[test]
fn empty_ranges_give_empty_blocks() {
    assert_eq!(survey(0..6, 4..4), (Vec::<Vec<Rgb8>>::new(), 0));
    assert_eq!(survey(3..3, 4..6), (vec![Vec::<Rgb8>::new(), Vec::<Rgb8>::new()], 0));
}

// Units of work.

#[test]
fn row_units_of_one_row_each() {
    assert_eq!(row_units(4, 1), vec![0..1, 1..2, 2..3, 3..4]);
}

#[test]
fn row_units_end_with_what_is_left() {
    assert_eq!(row_units(10, 4), vec![0..4, 4..8, 8..10]);
    assert_eq!(row_units(8, 4), vec![0..4, 4..8]);
    assert_eq!(row_units(3, 10), vec![0..3]);
    assert_eq!(row_units(u32::MAX, u32::MAX), vec![0..u32::MAX]);
    assert_eq!(row_units(u32::MAX, u32::MAX - 1), vec![0..u32::MAX - 1, u32::MAX - 1..u32::MAX]);
}

#[test]
fn row_units_of_no_rows() {
    assert_eq!(row_units(0, 1), vec![]);
    assert_eq!(row_units(0, 7), vec![]);
}

// The merged picture.

#[test]
fn assemble_lays_the_rows_out_one_after_another() {
    let blocks = vec![
        vec![vec![[1, 2, 3], [4, 5, 6]]],
        vec![vec![[7, 8, 9], [10, 11, 12]], vec![[13, 14, 15], [16, 17, 18]]],
    ];
    let bytes = assemble(2, 3, &blocks);
    assert_eq!(bytes, (1..=18).collect::<Vec<u8>>());
}

#[test]
fn assemble_leaves_unreached_pixels_black() {
    let blocks = vec![vec![vec![[9, 9, 9]], vec![]], vec![], vec![vec![[1, 2, 3], [4, 5, 6]]]];
    let bytes = assemble(3, 4, &blocks);
    assert_eq!(
        bytes,
        vec![
            9, 9, 9, 0, 0, 0, 0, 0, 0, //
            0, 0, 0, 0, 0, 0, 0, 0, 0, //
            1, 2, 3, 4, 5, 6, 0, 0, 0, //
            0, 0, 0, 0, 0, 0, 0, 0, 0,
        ]
    );
}

#[test]
fn assemble_of_nothing_is_black_or_empty() {
    assert_eq!(assemble(2, 1, &vec![]), vec![0u8; 6]);
    assert_eq!(assemble(0, 5, &vec![]), Vec::<u8>::new());
    assert_eq!(assemble(5, 0, &vec![vec![]]), Vec::<u8>::new());
}

#[test]
fn assembled_bytes_make_an_image_of_the_same_pixels() {
    let blocks = vec![vec![vec![[1, 2, 3], [4, 5, 6]]], vec![vec![[7, 8, 9], [10, 11, 12]]]];
    let img = image::RgbImage::from_raw(2, 2, assemble(2, 2, &blocks)).unwrap();
    assert_eq!(img.get_pixel(0, 0).0, [1, 2, 3]);
    assert_eq!(img.get_pixel(1, 0).0, [4, 5, 6]);
    assert_eq!(img.get_pixel(0, 1).0, [7, 8, 9]);
    assert_eq!(img.get_pixel(1, 1).0, [10, 11, 12]);
}

// The whole renderer.

fn render(seed: u64, width: u32, height: u32, samples: u32, depth: u32, step: u32) -> Vec<u8> {
    let world = HittableList::new(ball([0.0, -1000.0, 0.0], 1000.0, gray()));
    let cam = camera([0.0, 1.0, 0.0], [0.0, 1.0, -1.0], [0.0, 1.0, 0.0], 90.0, 2.0, 1.0);
    let data = blank_data(width, height, samples, depth);
    let put = |i: u32, j: u32, mut rng: FastRng| -> ((Scalar, Scalar), FastRng) {
        let u = (i as f64 + rng.gen::<f64>()) / ((width - 1) as f64);
        let v = (j as f64 - rng.gen::<f64>()) / ((height - 1) as f64);
        ((s(u), s(v)), rng)
    };
    let shoot = |u: Scalar, v: Scalar, rng: FastRng| (get_ray(&cam, n(u), n(v)), rng);
    let hit = |r: Ray, t_min: Scalar, t_max: Scalar| world_hit(&world, r, t_min, t_max);
    let mut rng = FastRng::seed(seed, 1);
    let mut blocks = Vec::new();
    for rows in row_units(height, step) {
        let (block, left) = parallel_create_picture(
            0..width, rows, data, &put, &shoot, &hit, &scatter, &develop, &quantize, rng,
        );
        blocks.push(block);
        rng = left;
    }
    assemble(width, height, &blocks)
}

#[test]
fn ground_under_sky_renders_as_sky_above_tinted_ground() {
    let (width, height) = (20u32, 10u32);
    let bytes = render(42, width, height, 4, 5, 1);
    assert_eq!(bytes.len(), 600);
    let pixel = |x: u32, y: u32| -> [u8; 3] {
        let at = ((y * width + x) * 3) as usize;
        [bytes[at], bytes[at + 1], bytes[at + 2]]
    };
    for y in 0..height {
        for x in 0..width {
            let [r, g, b] = pixel(x, y);
            if y < 4 {
                // Sky: between white and blue, never black.
                assert!(r >= 181 && g >= 214 && b == 255, "sky at {:?}: {:?}", (x, y), [r, g, b]);
            }
            if y >= 6 {
                // Ground: half the light of the sky, neither black nor white.
                assert!(r >= 120 && r <= 182, "ground at {:?}: {:?}", (x, y), [r, g, b]);
                assert!(g >= 140 && g <= 182, "ground at {:?}: {:?}", (x, y), [r, g, b]);
                assert!(b >= 175 && b <= 182, "ground at {:?}: {:?}", (x, y), [r, g, b]);
            }
            assert!([r, g, b] != [0, 0, 0]);
        }
    }
}

#[test]
fn the_same_seed_renders_the_same_picture() {
    let first = render(7, 20, 10, 4, 5, 1);
    let second = render(7, 20, 10, 4, 5, 1);
    assert_eq!(first, second);
    let other = render(8, 20, 10, 4, 5, 1);
    assert_eq!(other.len(), first.len());
    assert!(other != first);
}

#[test]
fn a_block_is_the_same_from_the_same_source() {
    let world = HittableList::new(ball([0.0, -1000.0, 0.0], 1000.0, gray()));
    let cam = camera([0.0, 1.0, 0.0], [0.0, 1.0, -1.0], [0.0, 1.0, 0.0], 90.0, 2.0, 1.0);
    let data = blank_data(20, 10, 3, 4);
    let put = |i: u32, j: u32, mut rng: FastRng| -> ((Scalar, Scalar), FastRng) {
        let u = (i as f64 + rng.gen::<f64>()) / 19.0;
        let v = (j as f64 - rng.gen::<f64>()) / 9.0;
        ((s(u), s(v)), rng)
    };
    let shoot = |u: Scalar, v: Scalar, rng: FastRng| (get_ray(&cam, n(u), n(v)), rng);
    let hit = |r: Ray, t_min: Scalar, t_max: Scalar| world_hit(&world, r, t_min, t_max);
    let run = |seed: u64| {
        parallel_create_picture(
            3..9,
            4..8,
            data,
            &put,
            &shoot,
            &hit,
            &scatter,
            &develop,
            &quantize,
            FastRng::seed(seed, 1),
        )
    };
    let (first, mut left) = run(11);
    let (second, mut other_left) = run(11);
    assert_eq!(first, second);
    assert_eq!(first.len(), 4);
    assert_eq!(first[0].len(), 6);
    assert_eq!(left.gen::<u64>(), other_left.gen::<u64>());
    let (third, mut third_left) = run(12);
    assert!(third != first);
    assert!(third_left.gen::<u64>() != run(11).1.gen::<u64>());
}

#[test]
fn the_picture_does_not_depend_on_the_size_of_the_units() {
    let by_rows = render(7, 20, 10, 4, 5, 1);
    assert_eq!(render(7, 20, 10, 4, 5, 3), by_rows);
    assert_eq!(render(7, 20, 10, 4, 5, 10), by_rows);
    assert_eq!(render(7, 20, 10, 4, 5, 64), by_rows);
}
