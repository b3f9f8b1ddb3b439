use raytracer::channel::{channel_byte, sqrt_le};
use raytracer::ppm::{encode_image, encode_row, header, push_decimal};
use raytracer::ray::{Point3, Ray};
use raytracer::render::{image_height, Camera};
use raytracer::shade::{ray_color, Pixel};
use raytracer::sphere::{hit_sphere, NearRoot, RayError, Sphere};
use raytracer::vec3::Vec3;

fn origin() -> Point3 {
    Point3::new(0, 0, 0)
}

// The scene's sphere, center (0, 0, -1) and radius 0.5, counted in half units.
fn scene() -> Sphere {
    Sphere::scene(1)
}

#[test]
fn hit_straight_ahead_lands_on_sphere() {
    let s = scene();
    assert_eq!(s.center, Vec3::new(0, 0, -2));
    assert_eq!(s.radius, 1);
    let r = Ray::new(origin(), Vec3::new(0, 0, -1));
    let root = hit_sphere(s.center, s.radius, &r).unwrap().unwrap();
    assert_eq!(root, NearRoot { a: 1, h: 2, discriminant: 1 });
    assert!(root.discriminant >= 0);
    assert!(root.is_ahead());
    let t = (root.h as f64 - (root.discriminant as f64).sqrt()) / root.a as f64;
    assert_eq!(t, 1.0);
    let p = r.at(t as i64);
    let off = p.sub(s.center);
    assert_eq!(off.length_squared(), s.radius * s.radius);
    // In world units: the hit (0, 0, -0.5) is 0.5 from (0, 0, -1).
    assert_eq!((off.length_squared() as f64).sqrt() / 2.0, 0.5);
}

#[test]
fn sideways_ray_misses() {
    let s = scene();
    let r = Ray::new(origin(), Vec3::new(1, 0, 0));
    assert_eq!(hit_sphere(s.center, s.radius, &r), Ok(None));
}

#[test]
fn zero_direction_is_refused() {
    let s = scene();
    let r = Ray::new(origin(), Vec3::new(0, 0, 0));
    assert_eq!(hit_sphere(s.center, s.radius, &r), Err(RayError::ZeroDirection));
    assert_eq!(ray_color(&r, 1), Err(RayError::ZeroDirection));
}

#[test]
fn origin_inside_sphere_gives_root_behind() {
    let s = scene();
    let r = Ray::new(Point3::new(0, 0, -2), Vec3::new(0, 0, -1));
    let root = hit_sphere(s.center, s.radius, &r).unwrap().unwrap();
    assert_eq!(root, NearRoot { a: 1, h: 0, discriminant: 1 });
    assert!(!root.is_ahead());
}

#[test]
fn tangent_ray_has_zero_discriminant() {
    let s = scene();
    let r = Ray::new(Point3::new(1, 0, 0), Vec3::new(0, 0, -1));
    let root = hit_sphere(s.center, s.radius, &r).unwrap().unwrap();
    assert_eq!(root.discriminant, 0);
    assert!(root.is_ahead());
}

#[test]
fn sky_straight_up_is_sky_blue() {
    let r = Ray::new(origin(), Vec3::new(0, 1, 0));
    assert_eq!(ray_color(&r, 1), Ok(Pixel { r: 127, g: 179, b: 255 }));
}

#[test]
fn sky_straight_down_is_white() {
    let r = Ray::new(origin(), Vec3::new(0, -1, 0));
    assert_eq!(ray_color(&r, 1), Ok(Pixel { r: 255, g: 255, b: 255 }));
}

#[test]
fn sphere_center_shows_normal_toward_camera() {
    let r = Ray::new(origin(), Vec3::new(0, 0, -1));
    assert_eq!(ray_color(&r, 1), Ok(Pixel { r: 127, g: 127, b: 255 }));
}

#[test]
fn color_ignores_direction_scale() {
    let a = ray_color(&Ray::new(origin(), Vec3::new(1, 2, -4)), 3).unwrap();
    let b = ray_color(&Ray::new(origin(), Vec3::new(3, 6, -12)), 3).unwrap();
    assert_eq!(a, b);
}

#[test]
fn channel_bytes() {
    // 0.5 -> floor(127.9995)
    assert_eq!(channel_byte(1, 0, 0, 2), 127);
    // 0.7 -> floor(179.1993)
    assert_eq!(channel_byte(7, 0, 0, 10), 179);
    // (3 + 1 * sqrt(9)) / 8 = 0.75 -> floor(191.99925)
    assert_eq!(channel_byte(3, 1, 9, 8), 191);
    // above one clamps to 255, below zero to 0
    assert_eq!(channel_byte(5, 0, 0, 1), 255);
    assert_eq!(channel_byte(-1, 0, 0, 1), 0);
    assert_eq!(channel_byte(0, -1, 4, 1), 0);
}

#[test]
fn sqrt_comparisons() {
    assert!(sqrt_le(2, 4, 4));
    assert!(!sqrt_le(3, 4, 5));
    assert!(sqrt_le(-3, 4, -6));
    assert!(!sqrt_le(-3, 4, -7));
    assert!(sqrt_le(0, 7, 0));
    assert!(!sqrt_le(1, 2, 1));
}

#[test]
fn image_height_from_aspect() {
    assert_eq!(image_height(400, 16, 9), 225);
    assert_eq!(image_height(1, 16, 9), 1);
    assert_eq!(image_height(100, 3, 2), 66);
}

#[test]
fn pixel_rays_point_at_pixel_centers() {
    let cam = Camera::new(400, 16, 9);
    assert_eq!(cam.image_height, 225);
    let r = cam.pixel_ray(0, 0);
    assert_eq!(r.orig, origin());
    assert_eq!(r.dir, Vec3::new(-798, 448, -450));
    let r = cam.pixel_ray(399, 224);
    assert_eq!(r.dir, Vec3::new(798, -448, -450));
}

#[test]
fn header_for_default_image() {
    let h = image_height(400, 16, 9);
    assert_eq!(header(400, h as u64), b"P3\n400 225\n255\n".to_vec());
}

#[test]
fn decimal_digits() {
    let mut out = b"x".to_vec();
    push_decimal(&mut out, 0);
    push_decimal(&mut out, 1234);
    assert_eq!(out, b"x01234".to_vec());
}

#[test]
fn one_by_one_image() {
    let cam = Camera::new(1, 16, 9);
    assert_eq!((cam.image_width, cam.image_height), (1, 1));
    let rows = cam.render();
    assert_eq!(rows, vec![vec![Pixel { r: 127, g: 127, b: 255 }]]);
    let text = encode_image(1, 1, &rows);
    assert_eq!(text, b"P3\n1 1\n255\n127 127 255\n".to_vec());
}

#[test]
fn row_lines() {
    let row = vec![Pixel { r: 0, g: 10, b: 255 }, Pixel { r: 7, g: 7, b: 7 }];
    assert_eq!(encode_row(&row), b"0 10 255\n7 7 7\n".to_vec());
}

fn unit(v: [f64; 3]) -> [f64; 3] {
    let l = (v[0] * v[0] + v[1] * v[1] + v[2] * v[2]).sqrt();
    [v[0] / l, v[1] / l, v[2] / l]
}

// The shading written out in floating point, for comparison.
fn float_color(w: i64, h: i64, col: i64, row: i64) -> [i64; 3] {
    let (wf, hf) = (w as f64, h as f64);
    let d = [(2 * col + 1) as f64 / hf - wf / hf, 1.0 - (2 * row + 1) as f64 / hf, -1.0];
    let oc = [0.0, 0.0, -1.0];
    let a = d[0] * d[0] + d[1] * d[1] + d[2] * d[2];
    let hh = d[0] * oc[0] + d[1] * oc[1] + d[2] * oc[2];
    let c = 1.0 - 0.25;
    let disc = hh * hh - a * c;
    let t = if disc < 0.0 { -1.0 } else { (hh - disc.sqrt()) / a };
    let col = if t > 0.0 {
        let n = unit([t * d[0], t * d[1], t * d[2] + 1.0]);
        [0.5 * (n[0] + 1.0), 0.5 * (n[1] + 1.0), 0.5 * (n[2] + 1.0)]
    } else {
        let u = unit(d);
        let k = 0.5 * (u[1] + 1.0);
        [1.0 - k + 0.5 * k, 1.0 - k + 0.7 * k, 1.0]
    };
    [(255.999 * col[0]) as i64, (255.999 * col[1]) as i64, (255.999 * col[2]) as i64]
}

#[test]
fn small_image_matches_floating_point_shading() {
    let cam = Camera::new(64, 16, 9);
    let rows = cam.render();
    let mut differ = 0;
    for (row, line) in rows.iter().enumerate() {
        for (col, p) in line.iter().enumerate() {
            let f = float_color(64, cam.image_height, col as i64, row as i64);
            if [p.r as i64, p.g as i64, p.b as i64] != f {
                differ += 1;
            }
        }
    }
    assert_eq!(differ, 0);
}
