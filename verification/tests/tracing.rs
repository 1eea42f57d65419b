use raytracer::camera::{Bounce, Camera, Frame, Shade, Step};
use raytracer::color::write_color;
use raytracer::hit_record::HitRecord;
use raytracer::hittable::Hittable;
use raytracer::hittable_list::HittableList;
use raytracer::interval::{new, Interval};
use raytracer::material::{make_lambertian, Material};
use raytracer::ppm::header;
use raytracer::ray::Ray;
use raytracer::scalar::Scalar;
use raytracer::sphere::{make_sphere, Crossing, Intersection, Sphere};
use raytracer::vec3::Vec3;

type V = [f64; 3];

fn s(x: f64) -> Scalar {
    Scalar::from_bits(x.to_bits())
}

fn f(x: Scalar) -> f64 {
    f64::from_bits(x.to_bits())
}

fn pack(a: V) -> Vec3 {
    Vec3(s(a[0]), s(a[1]), s(a[2]))
}

fn unpack(a: Vec3) -> V {
    [f(a.0), f(a.1), f(a.2)]
}

fn add(a: V, b: V) -> V {
    [a[0] + b[0], a[1] + b[1], a[2] + b[2]]
}

fn sub(a: V, b: V) -> V {
    [a[0] - b[0], a[1] - b[1], a[2] - b[2]]
}

fn scale(k: f64, a: V) -> V {
    [k * a[0], k * a[1], k * a[2]]
}

fn times(a: V, b: V) -> V {
    [a[0] * b[0], a[1] * b[1], a[2] * b[2]]
}

fn dot(a: V, b: V) -> f64 {
    a[0] * b[0] + a[1] * b[1] + a[2] * b[2]
}

fn unit(a: V) -> V {
    scale(1.0 / dot(a, a).sqrt(), a)
}

fn crossing(r: &Ray, sphere: &Sphere, t: f64) -> Crossing {
    let p = add(unpack(r.origin()), scale(t, unpack(r.direction())));
    let outward = scale(1.0 / f(sphere.radius), sub(p, unpack(sphere.center)));
    Crossing {
        t: s(t),
        p: pack(p),
        outward_normal: pack(outward),
        facing: s(dot(unpack(r.direction()), outward)),
    }
}

fn intersect(r: &Ray, sphere: &Sphere) -> Intersection {
    let oc = sub(unpack(r.origin()), unpack(sphere.center));
    let d = unpack(r.direction());
    let a = dot(d, d);
    let half_b = dot(oc, d);
    let c = dot(oc, oc) - f(sphere.radius) * f(sphere.radius);
    let discriminant = half_b * half_b - a * c;
    let sqrtd = discriminant.sqrt();
    Intersection {
        discriminant: s(discriminant),
        near: crossing(r, sphere, (-half_b - sqrtd) / a),
        far: crossing(r, sphere, (-half_b + sqrtd) / a),
    }
}

fn probes(r: &Ray, world: &HittableList<Sphere>) -> Vec<Intersection> {
    world.objects.iter().map(|sphere| intersect(r, sphere)).collect()
}

fn background(r: &Ray) -> V {
    let a = 0.5 * (unit(unpack(r.direction()))[1] + 1.0);
    add(scale(1.0 - a, [1.0, 1.0, 1.0]), scale(a, [0.5, 0.7, 1.0]))
}

fn trace(cam: &Camera, r: Ray, depth: i32, world: &HittableList<Sphere>, wobble: V) -> V {
    let window = match cam.ray_window(depth) {
        None => {
            assert_eq!(cam.ray_color(depth, Bounce::Missed), Shade::Black);
            return [0.0, 0.0, 0.0];
        }
        Some(window) => window,
    };
    let mut rec = HitRecord::default();
    let mut attenuation = pack([0.0, 0.0, 0.0]);
    let mut scattered = Ray { origin: pack([0.0; 3]), direction: pack([0.0; 3]) };
    let bounce = if world.hit(&probes(&r, world), window, &mut rec) {
        let went_on = match rec.mat {
            Material::Lambertian(m) => {
                let candidate = add(unpack(rec.normal), wobble);
                m.scatter(&rec, pack(candidate), &mut attenuation, &mut scattered)
            }
            _ => unreachable!(),
        };
        if went_on {
            Bounce::Scattered
        } else {
            Bounce::Absorbed
        }
    } else {
        Bounce::Missed
    };
    match cam.ray_color(depth, bounce) {
        Shade::Black => [0.0, 0.0, 0.0],
        Shade::Background => background(&r),
        Shade::Attenuated { depth } => {
            times(unpack(attenuation), trace(cam, scattered, depth, world, wobble))
        }
    }
}

fn gamma(sum: V, samples: i32) -> Vec3 {
    let k = 1.0 / samples as f64;
    pack([(sum[0] * k).sqrt(), (sum[1] * k).sqrt(), (sum[2] * k).sqrt()])
}

fn grey_sphere() -> Sphere {
    let grey = Material::Lambertian(make_lambertian(pack([0.5, 0.5, 0.5])));
    make_sphere(pack([0.0, 0.0, -1.0]), s(0.5), grey)
}

fn ahead() -> Ray {
    Ray { origin: pack([0.0, 0.0, 0.0]), direction: pack([0.0, 0.0, -1.0]) }
}

fn all() -> Interval {
    new(s(0.001), s(f64::INFINITY))
}

#[test]
fn a_ray_along_the_axis_hits_the_sphere_in_front() {
    let sphere = grey_sphere();
    let mut rec = HitRecord::default();
    assert!(sphere.hit(&intersect(&ahead(), &sphere), all(), &mut rec));
    assert_eq!(f(rec.t), 0.5);
    assert_eq!(unpack(rec.normal), [0.0, 0.0, 1.0]);
    assert_eq!(unpack(rec.p), [0.0, 0.0, -0.5]);
    assert!(rec.front_face);
    assert_eq!(rec.mat, sphere.mat);
}

#[test]
fn a_ray_from_inside_hits_the_far_side_from_behind() {
    let sphere = grey_sphere();
    let r = Ray { origin: pack([0.0, 0.0, -1.0]), direction: pack([0.0, 0.0, -1.0]) };
    let mut rec = HitRecord::default();
    assert!(sphere.hit(&intersect(&r, &sphere), all(), &mut rec));
    assert_eq!(f(rec.t), 0.5);
    assert_eq!(unpack(rec.p), [0.0, 0.0, -1.5]);
    assert_eq!(unpack(rec.normal), [0.0, 0.0, 1.0]);
    assert!(!rec.front_face);
}

#[test]
fn a_sphere_of_negative_radius_turns_its_normal() {
    let glass = Material::Lambertian(make_lambertian(pack([1.0, 1.0, 1.0])));
    let bubble = make_sphere(pack([0.0, 0.0, -1.0]), s(-0.5), glass);
    let mut rec = HitRecord::default();
    assert!(bubble.hit(&intersect(&ahead(), &bubble), all(), &mut rec));
    assert_eq!(f(rec.t), 0.5);
    assert_eq!(unpack(rec.normal), [0.0, 0.0, 1.0]);
    assert!(!rec.front_face);
}

#[test]
fn a_ray_that_passes_by_leaves_the_record_alone() {
    let sphere = grey_sphere();
    let r = Ray { origin: pack([0.0, 0.0, 0.0]), direction: pack([0.0, 1.0, 0.0]) };
    let mut rec = HitRecord::default();
    rec.t = s(42.0);
    let before = rec;
    assert!(!sphere.hit(&intersect(&r, &sphere), all(), &mut rec));
    assert_eq!(rec, before);
}

#[test]
fn a_hit_outside_the_range_is_none() {
    let sphere = grey_sphere();
    let x = intersect(&ahead(), &sphere);
    let mut rec = HitRecord::default();
    let before = rec;
    assert!(!sphere.hit(&x, new(s(0.001), s(0.5)), &mut rec));
    assert!(!sphere.hit(&x, new(s(1.5), s(f64::INFINITY)), &mut rec));
    assert!(!sphere.hit(&x, new(s(0.6), s(1.4)), &mut rec));
    assert!(!sphere.hit(&x, new(s(2.0), s(1.0)), &mut rec));
    assert_eq!(rec, before);
    assert!(sphere.hit(&x, new(s(0.5), s(f64::INFINITY)), &mut rec));
    assert_eq!(f(rec.t), 1.5);
    assert!(!rec.front_face);
    assert_eq!(unpack(rec.normal), [-0.0, -0.0, 1.0]);
}

#[test]
fn a_negative_discriminant_is_no_hit_whatever_the_roots() {
    let sphere = grey_sphere();
    let mut x = intersect(&ahead(), &sphere);
    x.discriminant = s(-0.25);
    let mut rec = HitRecord::default();
    assert!(!sphere.hit(&x, all(), &mut rec));
    assert_eq!(rec, HitRecord::default());
}

#[test]
fn the_face_goes_by_the_sign_of_the_dot_product() {
    let mut rec = HitRecord::default();
    rec.t = s(3.0);
    rec.set_face_normal(s(-0.5), pack([0.0, 1.0, 0.0]));
    assert!(rec.front_face);
    assert_eq!(unpack(rec.normal), [0.0, 1.0, 0.0]);
    rec.set_face_normal(s(0.5), pack([0.0, 1.0, 0.0]));
    assert!(!rec.front_face);
    assert_eq!(unpack(rec.normal), [0.0, -1.0, 0.0]);
    rec.set_face_normal(s(0.0), pack([0.0, 1.0, 0.0]));
    assert!(!rec.front_face);
    rec.set_face_normal(s(f64::NAN), pack([0.0, 1.0, 0.0]));
    assert!(!rec.front_face);
    assert_eq!(f(rec.t), 3.0);
}

#[test]
fn a_blank_record_is_black_and_at_the_origin() {
    let rec = HitRecord::default();
    assert_eq!(unpack(rec.p), [0.0, 0.0, 0.0]);
    assert_eq!(unpack(rec.normal), [0.0, 0.0, 0.0]);
    assert_eq!(f(rec.t), 0.0);
    assert!(!rec.front_face);
    assert_eq!(rec.mat, Material::Lambertian(make_lambertian(pack([0.0, 0.0, 0.0]))));
}

fn two_spheres(first_near: bool) -> HittableList<Sphere> {
    let red = Material::Lambertian(make_lambertian(pack([1.0, 0.0, 0.0])));
    let blue = Material::Lambertian(make_lambertian(pack([0.0, 0.0, 1.0])));
    let near = make_sphere(pack([0.0, 0.0, -1.0]), s(0.5), red);
    let far = make_sphere(pack([0.0, 0.0, -1.25]), s(0.5), blue);
    let mut world = HittableList { objects: Vec::new() };
    if first_near {
        world.add(near);
        world.add(far);
    } else {
        world.add(far);
        world.add(near);
    }
    world
}

#[test]
fn the_list_gives_the_nearer_of_two_spheres() {
    for first_near in [true, false] {
        let world = two_spheres(first_near);
        let mut rec = HitRecord::default();
        assert!(world.hit(&probes(&ahead(), &world), all(), &mut rec));
        assert_eq!(f(rec.t), 0.5);
        assert_eq!(rec.mat, Material::Lambertian(make_lambertian(pack([1.0, 0.0, 0.0]))));
        assert_eq!(unpack(rec.normal), [0.0, 0.0, 1.0]);
    }
}

#[test]
fn the_list_gives_the_first_of_two_equal_hits() {
    let red = Material::Lambertian(make_lambertian(pack([1.0, 0.0, 0.0])));
    let blue = Material::Lambertian(make_lambertian(pack([0.0, 0.0, 1.0])));
    let mut world = HittableList { objects: Vec::new() };
    world.add(make_sphere(pack([0.0, 0.0, -1.0]), s(0.5), red));
    world.add(make_sphere(pack([0.0, 0.0, -1.0]), s(0.5), blue));
    let mut rec = HitRecord::default();
    assert!(world.hit(&probes(&ahead(), &world), all(), &mut rec));
    assert_eq!(rec.mat, red);
}

#[test]
fn the_list_misses_where_every_sphere_does() {
    let world = two_spheres(true);
    let up = Ray { origin: pack([0.0, 0.0, 0.0]), direction: pack([0.0, 1.0, 0.0]) };
    let mut rec = HitRecord::default();
    rec.t = s(7.0);
    let before = rec;
    assert!(!world.hit(&probes(&up, &world), all(), &mut rec));
    assert_eq!(rec, before);
}

#[test]
fn an_empty_list_is_never_hit() {
    let world: HittableList<Sphere> = HittableList { objects: Vec::new() };
    let mut rec = HitRecord::default();
    assert!(!world.hit(&Vec::new(), all(), &mut rec));
    assert_eq!(rec, HitRecord::default());
}

#[test]
fn a_list_of_lists_gives_the_nearest_hit_of_all() {
    let mut world = HittableList { objects: Vec::new() };
    world.add(two_spheres(false));
    world.add(two_spheres(true));
    let xs: Vec<Vec<Intersection>> = world.objects.iter().map(|l| probes(&ahead(), l)).collect();
    let mut rec = HitRecord::default();
    assert!(world.hit(&xs, all(), &mut rec));
    assert_eq!(f(rec.t), 0.5);
}

#[test]
fn add_and_clear_change_the_list() {
    let mut world = two_spheres(true);
    assert_eq!(world.objects.len(), 2);
    assert_eq!(unpack(world.objects[1].center), [0.0, 0.0, -1.25]);
    world.add(grey_sphere());
    assert_eq!(world.objects.len(), 3);
    assert_eq!(world.objects[2], grey_sphere());
    world.clear();
    assert!(world.objects.is_empty());
}

#[test]
fn a_ray_that_misses_has_the_colour_of_the_sky() {
    let cam = Camera::default();
    let mut world = HittableList { objects: Vec::new() };
    world.add(make_sphere(pack([0.0, 0.0, 5.0]), s(0.5), grey_sphere().mat));
    let up = Ray { origin: pack([0.0, 0.0, 0.0]), direction: pack([0.0, 2.0, 0.0]) };
    assert_eq!(trace(&cam, up, 10, &world, [0.0, 0.0, 1.0]), [0.5, 0.7, 1.0]);
    assert_eq!(trace(&cam, ahead(), 10, &world, [0.0, 0.0, 1.0]), [0.75, 0.85, 1.0]);
}

#[test]
fn no_depth_is_black_whatever_the_scene() {
    let cam = Camera::default();
    let empty: HittableList<Sphere> = HittableList { objects: Vec::new() };
    let mut world = HittableList { objects: Vec::new() };
    world.add(grey_sphere());
    for depth in [0, -1] {
        assert_eq!(trace(&cam, ahead(), depth, &world, [0.0, 0.0, 1.0]), [0.0, 0.0, 0.0]);
        assert_eq!(trace(&cam, ahead(), depth, &empty, [0.0, 0.0, 1.0]), [0.0, 0.0, 0.0]);
    }
}

#[test]
fn one_bounce_off_a_grey_sphere() {
    let cam = Camera::default();
    let mut world = HittableList { objects: Vec::new() };
    world.add(grey_sphere());
    let colour = trace(&cam, ahead(), 2, &world, [0.0, 0.0, 1.0]);
    assert!((colour[0] - 0.375).abs() < 1e-12);
    assert!((colour[1] - 0.425).abs() < 1e-12);
    assert!((colour[2] - 0.5).abs() < 1e-12);
    let line = write_color(gamma(colour, 1));
    assert_eq!(String::from_utf8(line).unwrap(), "156 166 181\n");
    let dark = trace(&cam, ahead(), 1, &world, [0.0, 0.0, 1.0]);
    assert_eq!(dark, [0.0, 0.0, 0.0]);
    assert_eq!(String::from_utf8(write_color(gamma(dark, 1))).unwrap(), "0 0 0\n");
}

#[test]
fn an_image_of_two_by_two_pixels() {
    let mut cam = Camera::default();
    cam.image_width = 2;
    cam.samples_per_pixel = 1;
    cam.max_depth = 1;
    cam.lookfrom = pack([0.0, 0.0, 0.0]);
    cam.lookat = pack([0.0, 0.0, -1.0]);
    cam.focus_dist = s(1.0);
    let rows = cam.image_width as f64 / f(cam.aspect_ratio);
    let height = Camera::scanlines(s(rows));
    assert_eq!(height, 2);
    let viewport = 2.0 * ((cam.vfov as f64).to_radians() / 2.0).tan() * f(cam.focus_dist);
    let du = [viewport / 2.0, 0.0, 0.0];
    let dv = [0.0, -viewport / 2.0, 0.0];
    let corner = add([-viewport / 2.0, viewport / 2.0, -1.0], scale(0.5, add(du, dv)));
    let frame = Frame {
        pixel00_loc: pack(corner),
        pixel_delta_u: pack(du),
        pixel_delta_v: pack(dv),
        u: pack([1.0, 0.0, 0.0]),
        v: pack([0.0, 1.0, 0.0]),
        w: pack([0.0, 0.0, 1.0]),
        defocus_disk_u: pack([0.0; 3]),
        defocus_disk_v: pack([0.0; 3]),
    };
    let mut scan = cam.render(s(rows), frame);
    let mut world = HittableList { objects: Vec::new() };
    world.add(grey_sphere());

    let mut out = header(cam.image_width, cam.image_height);
    let mut sum = [0.0; 3];
    let mut written = Vec::new();
    loop {
        match scan.next() {
            Step::Sample { i, j } => {
                let jitter: f64 = rand::random();
                let at = add(
                    add(corner, scale(i as f64 + 0.5 * jitter - 0.25, du)),
                    scale(j as f64 + 0.5 * jitter - 0.25, dv),
                );
                let origin = cam.ray_origin(pack([0.5, 0.5, 0.0]));
                let r = Ray { origin, direction: pack(sub(at, unpack(origin))) };
                sum = add(sum, trace(&cam, r, cam.max_depth, &world, [0.0, 1.0, 0.0]));
            }
            Step::Write { i, j } => {
                written.push((i, j));
                out.extend(write_color(gamma(sum, cam.samples_per_pixel)));
                sum = [0.0; 3];
            }
            Step::Done => break,
        }
    }
    assert_eq!(written, vec![(0, 0), (1, 0), (0, 1), (1, 1)]);
    let text = String::from_utf8(out).unwrap();
    assert!(text.starts_with("P3\n2 2\n255\n"));
    let body: Vec<&str> = text["P3\n2 2\n255\n".len()..].lines().collect();
    assert_eq!(body.len(), 4);
    for line in body {
        let levels: Vec<i32> = line.split(' ').map(|n| n.parse().unwrap()).collect();
        assert_eq!(levels.len(), 3);
        for level in levels {
            assert!((0..=255).contains(&level));
        }
    }
}
