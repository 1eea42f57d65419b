//! The camera: its configuration, the order in which it renders the
//! pixels of an image, and what becomes of a ray that it has cast.

use crate::interval::Interval;
use crate::scalar::{Scalar, INFINITY_BITS, MINUS_ONE, ONE, ZERO};
use crate::vec3::{Point3, Vec3};
use vstd::arithmetic::div_mod::lemma_fundamental_div_mod_converse;
use vstd::prelude::*;

verus! {

/// The pattern of 10, the focus distance of a new camera.
pub const TEN: u64 = 0x4024_0000_0000_0000;

/// The pattern of 0.001: a hit nearer than this to the origin of a ray is
/// the surface that the ray has just left.
pub const SHADOW_BIAS: u64 = 0x3F50_624D_D2F1_A9FC;

/// The geometry that a camera derives from its configuration: the centre
/// of the first pixel, the steps from one pixel to the next along a row
/// and along a column, the basis of the camera, and the two radii of the
/// defocus disk.
#[derive(Clone, Copy, Debug, PartialEq, Eq, Structural)]
pub struct Frame {
    pub pixel00_loc: Point3,
    pub pixel_delta_u: Vec3,
    pub pixel_delta_v: Vec3,
    pub u: Vec3,
    pub v: Vec3,
    pub w: Vec3,
    pub defocus_disk_u: Vec3,
    pub defocus_disk_v: Vec3,
}

/// A camera. The first ten fields are its configuration; the height of the
/// image, the centre and the frame are derived from them by `initialize`,
/// at the start of every render.
#[derive(Clone, Copy, Debug)]
pub struct Camera {
    pub aspect_ratio: Scalar,
    pub image_width: i32,
    pub samples_per_pixel: i32,
    pub max_depth: i32,
    pub vfov: i32,
    pub lookfrom: Point3,
    pub lookat: Point3,
    pub vup: Vec3,
    pub defocus_angle: Scalar,
    pub focus_dist: Scalar,
    pub image_height: i32,
    pub center: Point3,
    pub frame: Frame,
}

/// What happened to a ray in the scene.
#[derive(Clone, Copy, Debug, PartialEq, Eq, Structural)]
pub enum Bounce {
    /// The ray hit nothing.
    Missed,
    /// The ray hit a surface whose material did not send it on.
    Absorbed,
    /// The ray hit a surface whose material sent it on.
    Scattered,
}

/// The colour of a ray.
#[derive(Clone, Copy, Debug, PartialEq, Eq, Structural)]
pub enum Shade {
    /// Black.
    Black,
    /// The colour of the background in the direction of the ray.
    Background,
    /// The attenuation of the material, multiplied channel by channel by
    /// the colour of the scattered ray, which is followed with `depth`
    /// bounces left.
    Attenuated { depth: i32 },
}

/// What a render does next.
#[derive(Clone, Copy, Debug, PartialEq, Eq, Structural)]
pub enum Step {
    /// Cast one more ray through the pixel in column `i` of row `j`, and
    /// add its colour to the sum for that pixel.
    Sample { i: i32, j: i32 },
    /// Write the pixel in column `i` of row `j`, and start a new sum.
    Write { i: i32, j: i32 },
    /// The image is complete.
    Done,
}

/// A render in progress: the size of the image, the number of samples
/// for each pixel, and how far the render has come.
#[derive(Clone, Copy, Debug)]
pub struct Scan {
    width: i32,
    height: i32,
    samples: i32,
    row: i32,
    column: i32,
    taken: i32,
}

/// The number of samples that are taken of a pixel: none where the
/// configured number is negative.
pub open spec fn sample_count(samples: int) -> int {
    if samples < 0 {
        0
    } else {
        samples
    }
}

/// The step of a render at the position `n`, counted from 0, for an image
/// of `width` columns and `height` rows with `samples` samples for each
/// pixel. The pixels come row by row from the top, each row from the
/// left; each pixel takes its samples and is then written; behind the last
/// pixel the render is done.
pub open spec fn script(width: int, height: int, samples: int, n: nat) -> Step {
    let per_pixel = sample_count(samples) + 1;
    let pixel = n as int / per_pixel;
    if width <= 0 || height <= 0 || pixel >= width * height {
        Step::Done
    } else if (n as int) % per_pixel < sample_count(samples) {
        Step::Sample { i: (pixel % width) as i32, j: (pixel / width) as i32 }
    } else {
        Step::Write { i: (pixel % width) as i32, j: (pixel / width) as i32 }
    }
}

/// The number of rows of an image, from `rows`, its width divided by its
/// aspect ratio: `rows` without its fraction, and at least 1.
pub open spec fn rows_of(rows: Scalar) -> int {
    if rows.truncated(0) < 1 {
        1
    } else {
        rows.truncated(0)
    }
}

impl Frame {
    /// The frame whose vectors are all zero.
    pub open spec fn zero() -> Frame {
        let o = Vec3(Scalar { bits: ZERO }, Scalar { bits: ZERO }, Scalar { bits: ZERO });
        Frame {
            pixel00_loc: o,
            pixel_delta_u: o,
            pixel_delta_v: o,
            u: o,
            v: o,
            w: o,
            defocus_disk_u: o,
            defocus_disk_v: o,
        }
    }
}

impl Default for Camera {
    /// A square image of 100 pixels a side with 10 samples for each pixel
    /// and 10 bounces, seen from (0, 0, -1) toward the origin with 90
    /// degrees of view, focused at distance 10 with no defocus.
    fn default() -> (r: Camera)
        ensures
            r.aspect_ratio.bits == ONE,
            r.image_width == 100,
            r.samples_per_pixel == 10,
            r.max_depth == 10,
            r.vfov == 90,
            r.lookfrom == Vec3(Scalar { bits: ZERO }, Scalar { bits: ZERO }, Scalar { bits: MINUS_ONE }),
            r.lookat == Vec3(Scalar { bits: ZERO }, Scalar { bits: ZERO }, Scalar { bits: ZERO }),
            r.vup == Vec3(Scalar { bits: ZERO }, Scalar { bits: ONE }, Scalar { bits: ZERO }),
            r.defocus_angle.bits == ZERO,
            r.focus_dist.bits == TEN,
            r.image_height == 100,
            r.center == Vec3(Scalar { bits: ZERO }, Scalar { bits: ZERO }, Scalar { bits: ZERO }),
            r.frame == Frame::zero(),
    {
        let zero = Scalar::from_bits(ZERO);
        let one = Scalar::from_bits(ONE);
        let o = Vec3(zero, zero, zero);
        Camera {
            aspect_ratio: one,
            image_width: 100,
            image_height: 100,
            center: o,
            samples_per_pixel: 10,
            max_depth: 10,
            vfov: 90,
            lookfrom: Vec3(zero, zero, Scalar::from_bits(MINUS_ONE)),
            lookat: o,
            vup: Vec3(zero, one, zero),
            defocus_angle: zero,
            focus_dist: Scalar::from_bits(TEN),
            frame: Frame {
                pixel00_loc: o,
                pixel_delta_u: o,
                pixel_delta_v: o,
                u: o,
                v: o,
                w: o,
                defocus_disk_u: o,
                defocus_disk_v: o,
            },
        }
    }
}

impl Camera {
    /// Whether two cameras have the same configuration.
    pub open spec fn same_configuration(&self, other: &Camera) -> bool {
        &&& self.aspect_ratio == other.aspect_ratio
        &&& self.image_width == other.image_width
        &&& self.samples_per_pixel == other.samples_per_pixel
        &&& self.max_depth == other.max_depth
        &&& self.vfov == other.vfov
        &&& self.lookfrom == other.lookfrom
        &&& self.lookat == other.lookat
        &&& self.vup == other.vup
        &&& self.defocus_angle == other.defocus_angle
        &&& self.focus_dist == other.focus_dist
    }

    /// The camera with its state derived anew: the configuration as it is,
    /// the height of the image from `rows`, the centre at the point looked
    /// from, and the frame as given.
    pub open spec fn initialized(self, rows: Scalar, frame: Frame) -> Camera {
        Camera { image_height: rows_of(rows) as i32, center: self.lookfrom, frame, ..self }
    }

    /// The origin of a ray: `disk_sample`, a point of the defocus disk,
    /// where the defocus angle is above 0, and else the centre of the
    /// camera.
    pub open spec fn ray_origin_spec(&self, disk_sample: Point3) -> Point3 {
        if self.defocus_angle.gt(Scalar { bits: ZERO }) {
            disk_sample
        } else {
            self.center
        }
    }

    /// The number of rows of an image, from `rows`, its width divided by
    /// its aspect ratio.
    pub fn scanlines(rows: Scalar) -> (r: i32)
        ensures
            r == rows_of(rows),
            r >= 1,
    {
        let height: i32 = rows.to_i32();
        if height < 1 {
            1
        } else {
            height
        }
    }

    /// Derives the state of the camera anew: the height of the image from
    /// `rows`, the width of the image divided by the aspect ratio; the
    /// centre, which is the point looked from; and the frame, which is
    /// taken as given. The configuration stays as it is, so that a second
    /// call with the same arguments changes nothing.
    pub fn initialize(&mut self, rows: Scalar, frame: Frame)
        ensures
            *final(self) == old(self).initialized(rows, frame),
            final(self).same_configuration(old(self)),
            final(self).image_height >= 1,
    {
        self.image_height = Self::scanlines(rows);
        self.center = self.lookfrom;
        self.frame = frame;
    }

    /// Deriving the state a second time from the same values changes
    /// nothing.
    pub proof fn lemma_initialize_is_idempotent(self, rows: Scalar, frame: Frame)
        ensures
            self.initialized(rows, frame).initialized(rows, frame) == self.initialized(rows, frame),
    {
    }

    /// The origin of a ray: `disk_sample`, a random point of the defocus
    /// disk, where the defocus angle is above 0, and else the centre of the
    /// camera, as in a pinhole camera.
    #[verifier::when_used_as_spec(ray_origin_spec)]
    pub fn ray_origin(&self, disk_sample: Point3) -> (r: Point3)
        ensures
            r == self.ray_origin_spec(disk_sample),
    {
        if self.defocus_angle.gt(Scalar::from_bits(ZERO)) {
            disk_sample
        } else {
            self.center
        }
    }

    /// The range of parameters in which a ray with `depth` bounces left is
    /// tested against the scene: from 0.001 to infinity. A ray with no
    /// bounce left is not tested at all.
    pub fn ray_window(&self, depth: i32) -> (r: Option<Interval>)
        ensures
            depth <= 0 ==> r is None,
            depth > 0 ==> r == Some(
                Interval { min: Scalar { bits: SHADOW_BIAS }, max: Scalar { bits: INFINITY_BITS } },
            ),
    {
        if depth <= 0 {
            None
        } else {
            Some(
                Interval {
                    min: Scalar::from_bits(SHADOW_BIAS),
                    max: Scalar::from_bits(INFINITY_BITS),
                },
            )
        }
    }

    /// The colour of a ray with `depth` bounces left, from what happened
    /// to it in the scene. A ray with no bounce left is black, whatever is
    /// in the scene. Of the others, one that hit nothing has the colour of
    /// the background, one that was absorbed is black, and one that was
    /// scattered has the attenuated colour of the scattered ray, which has
    /// one bounce less.
    pub fn ray_color(&self, depth: i32, bounce: Bounce) -> (r: Shade)
        ensures
            depth <= 0 ==> r == Shade::Black,
            depth > 0 ==> r == match bounce {
                Bounce::Missed => Shade::Background,
                Bounce::Absorbed => Shade::Black,
                Bounce::Scattered => Shade::Attenuated { depth: (depth - 1) as i32 },
            },
    {
        if depth <= 0 {
            return Shade::Black;
        }
        match bounce {
            Bounce::Scattered => Shade::Attenuated { depth: depth - 1 },
            Bounce::Absorbed => Shade::Black,
            Bounce::Missed => Shade::Background,
        }
    }

    /// Starts a render: derives the state of the camera anew, as
    /// `initialize` does, and gives the scan of the image that the camera
    /// then has, at its first step.
    pub fn render(&mut self, rows: Scalar, frame: Frame) -> (r: Scan)
        ensures
            *final(self) == old(self).initialized(rows, frame),
            r.width() == final(self).image_width,
            r.height() == final(self).image_height,
            r.samples() == final(self).samples_per_pixel,
            r.position() == 0,
    {
        self.initialize(rows, frame);
        let r = Scan {
            width: self.image_width,
            height: self.image_height,
            samples: self.samples_per_pixel,
            row: 0,
            column: 0,
            taken: 0,
        };
        assert(r.position() == 0) by (nonlinear_arith)
            requires
                r.row == 0,
                r.column == 0,
                r.taken == 0,
                r.position() == if r.width > 0 {
                    ((r.row * r.width + r.column) * (sample_count(r.samples as int) + 1)
                        + r.taken) as nat
                } else {
                    0
                },
        ;
        r
    }
}

impl Scan {
    #[verifier::type_invariant]
    spec fn inv(self) -> bool {
        &&& 0 <= self.row
        &&& if self.width > 0 && self.row < self.height {
            &&& 0 <= self.column < self.width
            &&& 0 <= self.taken <= sample_count(self.samples as int)
        } else {
            &&& self.column == 0
            &&& self.taken == 0
            &&& (self.row == 0 || self.row == self.height)
        }
    }

    /// The number of columns of the image.
    pub closed spec fn width(&self) -> int {
        self.width as int
    }

    /// The number of rows of the image.
    pub closed spec fn height(&self) -> int {
        self.height as int
    }

    /// The number of samples for each pixel, as configured.
    pub closed spec fn samples(&self) -> int {
        self.samples as int
    }

    /// The number of steps that the render has taken.
    pub closed spec fn position(&self) -> nat {
        if self.width > 0 {
            ((self.row * self.width + self.column) * (sample_count(self.samples as int) + 1)
                + self.taken) as nat
        } else {
            0
        }
    }

    /// The next step of the render: the step of `script` at the position
    /// that the render has reached. Unless the image is complete, the
    /// render moves on by one position.
    pub fn next(&mut self) -> (r: Step)
        ensures
            r == script(old(self).width(), old(self).height(), old(self).samples(), old(self).position()),
            final(self).width() == old(self).width(),
            final(self).height() == old(self).height(),
            final(self).samples() == old(self).samples(),
            r == Step::Done ==> final(self).position() == old(self).position(),
            r != Step::Done ==> final(self).position() == old(self).position() + 1,
    {
        proof {
            use_type_invariant(&*self);
        }
        let width = self.width;
        let height = self.height;
        let samples = self.samples;
        let row = self.row;
        let column = self.column;
        let taken = self.taken;
        let ghost per_pixel = sample_count(samples as int) + 1;
        let ghost pixel = row * width + column;
        if width <= 0 || row >= height {
            proof {
                if width > 0 && height > 0 {
                    assert(pixel == width * height) by (nonlinear_arith)
                        requires
                            pixel == row * width + column,
                            row == height,
                            column == 0,
                    ;
                    assert(pixel * per_pixel >= 0) by (nonlinear_arith)
                        requires
                            pixel == width * height,
                            width > 0,
                            height > 0,
                            per_pixel > 0,
                    ;
                    lemma_fundamental_div_mod_converse(
                        self.position() as int,
                        per_pixel,
                        pixel,
                        0,
                    );
                }
            }
            return Step::Done;
        }
        proof {
            lemma_fundamental_div_mod_converse(self.position() as int, per_pixel, pixel, taken as int);
            lemma_fundamental_div_mod_converse(pixel, width as int, row as int, column as int);
            lemma_pixel_is_in_image(width as int, height as int, row as int, column as int);
        }
        if taken < samples {
            *self = Scan { width, height, samples, row, column, taken: taken + 1 };
            Step::Sample { i: column, j: row }
        } else {
            if column + 1 < width {
                *self = Scan { width, height, samples, row, column: column + 1, taken: 0 };
                proof {
                    lemma_next_pixel(pixel, per_pixel);
                }
            } else {
                *self = Scan { width, height, samples, row: row + 1, column: 0, taken: 0 };
                proof {
                    lemma_next_row(row as int, width as int);
                    lemma_next_pixel(pixel, per_pixel);
                }
            }
            Step::Write { i: column, j: row }
        }
    }
}

/// Every pixel of the image has its steps, and the render ends behind the
/// last of them: the pixel in column `i` of row `j` is the pixel number
/// `j * width + i`; each pixel has one step for each of its samples and one
/// more, at which it is written; and behind the steps of all the pixels the
/// render is done.
pub proof fn lemma_script_visits_every_pixel(
    width: int,
    height: int,
    samples: int,
    i: int,
    j: int,
    k: int,
)
    requires
        0 <= i < width <= i32::MAX,
        0 <= j < height <= i32::MAX,
        0 <= k <= sample_count(samples),
    ensures
        (j * width + i) * (sample_count(samples) + 1) + k >= 0,
        script(width, height, samples, ((j * width + i) * (sample_count(samples) + 1) + k) as nat)
            == if k < sample_count(samples) {
            Step::Sample { i: i as i32, j: j as i32 }
        } else {
            Step::Write { i: i as i32, j: j as i32 }
        },
        forall|n: nat|
            n >= width * height * (sample_count(samples) + 1) ==> script(width, height, samples, n)
                == Step::Done,
{
    let per_pixel = sample_count(samples) + 1;
    let pixel = j * width + i;
    lemma_pixel_is_in_image(width, height, j, i);
    assert(pixel * per_pixel >= 0) by (nonlinear_arith)
        requires
            pixel >= 0,
            per_pixel > 0,
    ;
    lemma_fundamental_div_mod_converse(pixel * per_pixel + k, per_pixel, pixel, k);
    lemma_fundamental_div_mod_converse(pixel, width, j, i);
    assert forall|n: nat| n >= width * height * per_pixel implies script(width, height, samples, n)
        == Step::Done by {
        lemma_quotient_is_large(n as int, width * height, per_pixel);
    }
}

/// A number that is at least a multiple of a divisor has a quotient of at
/// least the multiplier.
proof fn lemma_quotient_is_large(n: int, q: int, d: int)
    requires
        d > 0,
        n >= q * d,
    ensures
        n / d >= q,
{
    assert(n / d >= q) by (nonlinear_arith)
        requires
            d > 0,
            n >= q * d,
    ;
}

/// A pixel of the image has a number below the number of its pixels.
proof fn lemma_pixel_is_in_image(width: int, height: int, row: int, column: int)
    requires
        0 <= row < height,
        0 <= column < width,
    ensures
        0 <= row * width + column < width * height,
{
    assert(0 <= row * width + column < width * height) by (nonlinear_arith)
        requires
            0 <= row < height,
            0 <= column < width,
    ;
}

/// The positions of a pixel end where those of the next one begin.
proof fn lemma_next_pixel(pixel: int, per_pixel: int)
    ensures
        (pixel + 1) * per_pixel == pixel * per_pixel + per_pixel,
{
    assert((pixel + 1) * per_pixel == pixel * per_pixel + per_pixel) by (nonlinear_arith);
}

/// The pixels of a row end where those of the next one begin.
proof fn lemma_next_row(row: int, width: int)
    ensures
        (row + 1) * width == row * width + width,
{
    assert((row + 1) * width == row * width + width) by (nonlinear_arith);
}

} // verus!
