//! The camera, the mapping from pixels to rays, and the scan over the image.
//!
//! The camera sits at the origin and looks down `−z` at a viewport two world
//! units high, one unit away. Coordinates are counted in steps of
//! `1 / (2 * height)` world units, so that every pixel center has integer
//! coordinates and the scene's sphere is `scene_sphere(height)`.
use vstd::prelude::*;
use crate::ray::Ray;
use crate::shade::{ray_color, scene_sphere, shaded, Pixel};
use crate::sphere::quad_a;
use crate::vec3::Vec3;

verus! {

/// The largest image side that the exact arithmetic accepts.
pub const MAX_SIDE: i64 = 4096;

/// `max(1, floor(width / aspect))` for the aspect ratio `aspect_w / aspect_h`.
pub open spec fn height_for(width: int, aspect_w: int, aspect_h: int) -> int {
    let h = width * aspect_h / aspect_w;
    if h < 1 {
        1
    } else {
        h
    }
}

/// The image height for `width` pixels at the aspect ratio
/// `aspect_w / aspect_h`: the width divided by the ratio, rounded down, and
/// at least one.
pub fn image_height(width: i64, aspect_w: i64, aspect_h: i64) -> (h: i64)
    requires
        1 <= width <= MAX_SIDE,
        1 <= aspect_w <= MAX_SIDE,
        1 <= aspect_h <= MAX_SIDE,
    ensures
        h == height_for(width as int, aspect_w as int, aspect_h as int),
{
    assert(0 <= width * aspect_h <= 4096 * 4096) by (nonlinear_arith)
        requires
            1 <= width <= 4096,
            1 <= aspect_h <= 4096,
    ;
    let h = width * aspect_h / aspect_w;
    if h < 1 {
        1
    } else {
        h
    }
}

/// An image size with the camera fixed in front of it.
#[derive(Clone, Copy, Debug, PartialEq, Eq, Structural)]
pub struct Camera {
    pub image_width: i64,
    pub image_height: i64,
}

/// Whether both sides are between 1 and `MAX_SIDE`.
pub open spec fn valid_size(width: int, height: int) -> bool {
    1 <= width <= MAX_SIDE && 1 <= height <= MAX_SIDE
}

/// The center of pixel (`col`, `row`), row 0 at the top: the viewport's
/// upper-left corner `(−2w, 2h, −2h)` plus half a pixel, plus `col` pixels
/// of 4 steps to the right and `row` pixels of 4 steps down.
pub open spec fn pixel_center(w: int, h: int, col: int, row: int) -> (int, int, int) {
    (-2 * w + 2 + 4 * col, 2 * h - 2 - 4 * row, -2 * h)
}

/// The ray from the camera (at the origin) to the center of pixel
/// (`col`, `row`).
pub open spec fn camera_ray(w: int, h: int, col: int, row: int) -> Ray {
    let c = pixel_center(w, h, col, row);
    Ray { orig: Vec3 { x: 0, y: 0, z: 0 }, dir: Vec3 { x: c.0 as i64, y: c.1 as i64, z: c.2 as i64 } }
}

/// What a rendered image holds: `height` rows of `width` pixels, each the
/// colour that the ray through its center sees.
pub open spec fn is_rendering(rows: Seq<Vec<Pixel>>, w: int, h: int) -> bool {
    rows.len() == h && forall|row: int|
        0 <= row < h ==> #[trigger] rows[row]@.len() == w && forall|col: int|
            0 <= col < w ==> shaded(#[trigger] rows[row]@[col], scene_sphere(h), camera_ray(w, h, col, row))
}

impl Camera {
    /// The camera for an image `width` pixels wide at the aspect ratio
    /// `aspect_w / aspect_h`.
    pub fn new(width: i64, aspect_w: i64, aspect_h: i64) -> (c: Camera)
        requires
            1 <= width <= MAX_SIDE,
            1 <= aspect_w <= MAX_SIDE,
            1 <= aspect_h <= MAX_SIDE,
            height_for(width as int, aspect_w as int, aspect_h as int) <= MAX_SIDE,
        ensures
            c.image_width == width,
            c.image_height == height_for(width as int, aspect_w as int, aspect_h as int),
    {
        Camera { image_width: width, image_height: image_height(width, aspect_w, aspect_h) }
    }

    /// The ray from the camera through the center of pixel (`col`, `row`).
    pub fn pixel_ray(&self, col: i64, row: i64) -> (r: Ray)
        requires
            valid_size(self.image_width as int, self.image_height as int),
            0 <= col < self.image_width,
            0 <= row < self.image_height,
        ensures
            r == camera_ray(self.image_width as int, self.image_height as int, col as int, row as int),
            (r.dir.x as int, r.dir.y as int, r.dir.z as int) == pixel_center(
                self.image_width as int,
                self.image_height as int,
                col as int,
                row as int,
            ),
    {
        let w = self.image_width;
        let h = self.image_height;
        Ray::new(Vec3::new(0, 0, 0), Vec3::new(2 - 2 * w + 4 * col, 2 * h - 2 - 4 * row, 0 - 2 * h))
    }

    /// The colour of pixel (`col`, `row`).
    pub fn pixel_color(&self, col: i64, row: i64) -> (p: Pixel)
        requires
            valid_size(self.image_width as int, self.image_height as int),
            0 <= col < self.image_width,
            0 <= row < self.image_height,
        ensures
            shaded(
                p,
                scene_sphere(self.image_height as int),
                camera_ray(self.image_width as int, self.image_height as int, col as int, row as int),
            ),
    {
        let r = self.pixel_ray(col, row);
        assert(quad_a(r) > 0) by (nonlinear_arith)
            requires
                quad_a(r) == r.dir.x * r.dir.x + r.dir.y * r.dir.y + r.dir.z * r.dir.z,
                r.dir.z < 0,
        ;
        match ray_color(&r, self.image_height) {
            Ok(p) => p,
            Err(_) => Pixel { r: 0, g: 0, b: 0 },
        }
    }

    /// The colours of row `row`, left to right.
    pub fn render_row(&self, row: i64) -> (line: Vec<Pixel>)
        requires
            valid_size(self.image_width as int, self.image_height as int),
            0 <= row < self.image_height,
        ensures
            line@.len() == self.image_width,
            forall|col: int|
                0 <= col < self.image_width ==> shaded(
                    #[trigger] line@[col],
                    scene_sphere(self.image_height as int),
                    camera_ray(self.image_width as int, self.image_height as int, col, row as int),
                ),
    {
        let w = self.image_width;
        let mut line: Vec<Pixel> = Vec::new();
        let mut col: i64 = 0;
        while col < w
            invariant
                valid_size(w as int, self.image_height as int),
                w == self.image_width,
                0 <= row < self.image_height,
                0 <= col <= w,
                line@.len() == col,
                forall|c: int|
                    0 <= c < col ==> shaded(
                        #[trigger] line@[c],
                        scene_sphere(self.image_height as int),
                        camera_ray(w as int, self.image_height as int, c, row as int),
                    ),
            decreases w - col,
        {
            let p = self.pixel_color(col, row);
            line.push(p);
            col = col + 1;
        }
        line
    }

    /// Every pixel's colour, row by row from the top, each row left to right.
    pub fn render(&self) -> (rows: Vec<Vec<Pixel>>)
        requires
            valid_size(self.image_width as int, self.image_height as int),
        ensures
            is_rendering(rows@, self.image_width as int, self.image_height as int),
    {
        let w = self.image_width;
        let h = self.image_height;
        let mut rows: Vec<Vec<Pixel>> = Vec::new();
        let mut row: i64 = 0;
        while row < h
            invariant
                valid_size(w as int, h as int),
                w == self.image_width,
                h == self.image_height,
                0 <= row <= h,
                rows@.len() == row,
                forall|k: int|
                    0 <= k < row ==> #[trigger] rows@[k]@.len() == w && forall|col: int|
                        0 <= col < w ==> shaded(
                            #[trigger] rows@[k]@[col],
                            scene_sphere(h as int),
                            camera_ray(w as int, h as int, col, k),
                        ),
            decreases h - row,
        {
            let line = self.render_row(row);
            let ghost before = rows@;
            rows.push(line);
            assert(forall|k: int| 0 <= k < row ==> rows@[k] == before[k]);
            row = row + 1;
        }
        rows
    }
}

} // verus!
