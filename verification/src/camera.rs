//! The camera: the size of the image, the order in which its pixels are
//! written, the bytes they become, and the budget of a path.
use crate::hittable::HitRecord;
use crate::material::Rgb;
use crate::scalar::{Scalar, INFINITY_BITS, ONE_BITS, ZERO_BITS};
use crate::vec3::{Point, Vec3};
use vstd::arithmetic::div_mod::{lemma_fundamental_div_mod, lemma_fundamental_div_mod_converse};
use vstd::prelude::*;

verus! {

/// The pattern of `16.0 / 9.0`.
pub const DEFAULT_ASPECT_RATIO_BITS: u64 = 0x3ffc_71c7_1c71_c71c;

/// The pattern of `0.0001`.
pub const DEFAULT_FLOAT_CORRECTION_BITS: u64 = 0x3f1a_36e2_eb1c_432d;

/// The pattern of `90.0`.
pub const DEFAULT_VFOV_BITS: u64 = 0x4056_8000_0000_0000;

/// The pattern of `10.0`.
pub const DEFAULT_FOCUS_DIST_BITS: u64 = 0x4024_0000_0000_0000;

/// What a camera is made from.
#[derive(Clone, Copy, Debug)]
pub struct CameraConfig {
    /// Width over height.
    pub aspect_ratio: Scalar,
    /// The image's width in pixels.
    pub width: usize,
    pub samples_per_pixel: usize,
    /// How many times a path may be scattered.
    pub max_depth: usize,
    /// The lower end of the interval in which hits are looked for.
    pub float_correction: Scalar,
    /// The vertical field of view, in degrees.
    pub vfov: Scalar,
    pub look_from: Point,
    pub look_at: Point,
    pub camera_vup: Vec3,
    /// The angle of the cone of rays through one pixel, in degrees.
    pub defocus_angle: Scalar,
    pub focus_dist: Scalar,
}

impl Default for CameraConfig {
    /// An image 800 pixels wide at 16 to 9, ten samples per pixel, twenty
    /// bounces, seen from the origin along the third axis.
    fn default() -> (r: CameraConfig)
        ensures
            r.aspect_ratio.bits == DEFAULT_ASPECT_RATIO_BITS,
            r.width == 800,
            r.samples_per_pixel == 10,
            r.max_depth == 20,
            r.float_correction.bits == DEFAULT_FLOAT_CORRECTION_BITS,
            r.vfov.bits == DEFAULT_VFOV_BITS,
            r.look_from.i.bits == ZERO_BITS && r.look_from.j.bits == ZERO_BITS
                && r.look_from.k.bits == ZERO_BITS,
            r.look_at.i.bits == ZERO_BITS && r.look_at.j.bits == ZERO_BITS && r.look_at.k.bits
                == ONE_BITS,
            r.camera_vup.i.bits == ZERO_BITS && r.camera_vup.j.bits == ONE_BITS
                && r.camera_vup.k.bits == ZERO_BITS,
            r.defocus_angle.bits == ONE_BITS,
            r.focus_dist.bits == DEFAULT_FOCUS_DIST_BITS,
    {
        CameraConfig {
            aspect_ratio: Scalar { bits: DEFAULT_ASPECT_RATIO_BITS },
            width: 800,
            samples_per_pixel: 10,
            max_depth: 20,
            float_correction: Scalar { bits: DEFAULT_FLOAT_CORRECTION_BITS },
            vfov: Scalar { bits: DEFAULT_VFOV_BITS },
            look_from: Vec3::new(Scalar::zero(), Scalar::zero(), Scalar::zero()),
            look_at: Vec3::new(Scalar::zero(), Scalar::zero(), Scalar::one()),
            camera_vup: Vec3::new(Scalar::zero(), Scalar::one(), Scalar::zero()),
            defocus_angle: Scalar::one(),
            focus_dist: Scalar { bits: DEFAULT_FOCUS_DIST_BITS },
        }
    }
}

/// What the next step of a path is.
#[derive(Clone, Copy, Debug)]
pub enum Bounce {
    /// The budget is spent: the path ends in black.
    Exhausted,
    /// The ray hit nothing: the path ends in the color of the sky.
    Escaped,
    /// The ray hit a surface: its material sends a ray on, which has `depth`
    /// bounces left.
    Scattered { hit: HitRecord, depth: usize },
}

impl Bounce {
    /// The color of a path that ends at this step for want of a bounce: black.
    /// There is none for the other steps, whose colors are worked out from
    /// the ray and from what the scattered ray brings back.
    pub open spec fn exhausted_color_spec(self) -> Option<Rgb> {
        if self is Exhausted {
            Some(
                Rgb {
                    r: Scalar { bits: ZERO_BITS },
                    g: Scalar { bits: ZERO_BITS },
                    b: Scalar { bits: ZERO_BITS },
                },
            )
        } else {
            None
        }
    }

    /// Black where the path ends at this step because its budget is spent,
    /// and nothing for any other step.
    pub fn exhausted_color(&self) -> (r: Option<Rgb>)
        ensures
            r == self.exhausted_color_spec(),
    {
        match self {
            Bounce::Exhausted => Some(Rgb::black()),
            _ => None,
        }
    }
}

/// The next step of a path: black when no bounce is left, else the sky when
/// nothing was hit, else a scattering that leaves one bounce fewer.
pub open spec fn bounce(depth: usize, hit: Option<HitRecord>) -> Bounce {
    if depth == 0 {
        Bounce::Exhausted
    } else {
        match hit {
            Some(h) => Bounce::Scattered { hit: h, depth: (depth - 1) as usize },
            None => Bounce::Escaped,
        }
    }
}

/// A camera as contracts see it.
pub ghost struct CameraView {
    pub width: nat,
    pub height: nat,
    pub samples_per_pixel: nat,
    pub max_depth: nat,
    pub float_correction: Scalar,
    pub defocus_angle: Scalar,
    pub look_from: Point,
    /// The image so far: three bytes for each pixel written, in the order in
    /// which the pixels were written.
    pub bytes: Seq<u8>,
}

impl CameraView {
    /// The image holds whole pixels: every camera does that is made by
    /// `create` and written to by `write_color`.
    pub open spec fn well_formed(self) -> bool {
        self.bytes.len() % 3 == 0
    }

    /// The number of pixels written.
    pub open spec fn written(self) -> nat {
        self.bytes.len() / 3
    }

    /// The image holds all its pixels.
    pub open spec fn complete(self) -> bool {
        self.written() >= self.width * self.height
    }

    /// The row and the column of the pixel that is written next: the pixels
    /// go row by row from the top, and from left to right within a row.
    pub open spec fn next_pixel(self) -> Option<(usize, usize)> {
        if self.width > 0 && !self.complete() {
            Some(((self.written() / self.width) as usize, (self.written() % self.width) as usize))
        } else {
            None
        }
    }

    /// Everything but the image is the same in both.
    pub open spec fn same_settings(self, other: CameraView) -> bool {
        &&& self.width == other.width
        &&& self.height == other.height
        &&& self.samples_per_pixel == other.samples_per_pixel
        &&& self.max_depth == other.max_depth
        &&& self.float_correction == other.float_correction
        &&& self.defocus_angle == other.defocus_angle
        &&& self.look_from == other.look_from
    }
}

/// The height of an image in pixels. `rows` is the image's width divided by
/// its aspect ratio; the height is its whole part, and at least one.
pub open spec fn image_height(rows: Scalar) -> usize {
    if rows.to_usize_spec() < 1 {
        1
    } else {
        rows.to_usize_spec()
    }
}

/// The integer side of a camera, and the image it writes.
pub struct Camera {
    width: usize,
    height: usize,
    samples_per_pixel: usize,
    max_depth: usize,
    float_correction: Scalar,
    defocus_angle: Scalar,
    look_from: Point,
    cache: Vec<u8>,
}

impl View for Camera {
    type V = CameraView;

    closed spec fn view(&self) -> CameraView {
        CameraView {
            width: self.width as nat,
            height: self.height as nat,
            samples_per_pixel: self.samples_per_pixel as nat,
            max_depth: self.max_depth as nat,
            float_correction: self.float_correction,
            defocus_angle: self.defocus_angle,
            look_from: self.look_from,
            bytes: self.cache@,
        }
    }
}

/// Appends the three bytes of one pixel.
fn push_pixel(cache: &mut Vec<u8>, r: u8, g: u8, b: u8)
    ensures
        final(cache)@ == old(cache)@ + seq![r, g, b],
{
    cache.push(r);
    cache.push(g);
    cache.push(b);
    proof {
        assert(cache@ =~= old(cache)@ + seq![r, g, b]);
    }
}

impl Camera {
    /// The camera for a configuration, with an empty image. `rows` is the
    /// configured width divided by the configured aspect ratio.
    pub fn create(config: &CameraConfig, rows: Scalar) -> (r: Camera)
        ensures
            r@.well_formed(),
            r@.width == config.width,
            r@.height == image_height(rows),
            r@.height >= 1,
            r@.samples_per_pixel == config.samples_per_pixel,
            r@.max_depth == config.max_depth,
            r@.float_correction == config.float_correction,
            r@.defocus_angle == config.defocus_angle,
            r@.look_from == config.look_from,
            r@.bytes.len() == 0,
    {
        let mut height: usize = rows.to_usize();
        height = if height < 1 {
            1
        } else {
            height
        };
        Camera {
            width: config.width,
            height,
            samples_per_pixel: config.samples_per_pixel,
            max_depth: config.max_depth,
            float_correction: config.float_correction,
            defocus_angle: config.defocus_angle,
            look_from: config.look_from,
            cache: Vec::new(),
        }
    }

    /// The image's width in pixels.
    pub fn width(&self) -> (r: usize)
        ensures
            r == self@.width,
    {
        self.width
    }

    /// The image's height in pixels.
    pub fn height(&self) -> (r: usize)
        ensures
            r == self@.height,
    {
        self.height
    }

    /// The number of samples that make one pixel.
    pub fn samples_per_pixel(&self) -> (r: usize)
        ensures
            r == self@.samples_per_pixel,
    {
        self.samples_per_pixel
    }

    /// The number of bounces a path starts with.
    pub fn max_depth(&self) -> (r: usize)
        ensures
            r == self@.max_depth,
    {
        self.max_depth
    }

    /// The point the camera looks from.
    pub fn look_from(&self) -> (r: Point)
        ensures
            r == self@.look_from,
    {
        self.look_from
    }

    /// The image so far, row by row from the top, three bytes to a pixel: red,
    /// green, blue.
    pub fn buffer(&self) -> (r: &Vec<u8>)
        ensures
            r@ == self@.bytes,
    {
        &self.cache
    }

    /// The open interval of ray parameters in which hits are looked for: from
    /// the configured correction, which keeps a scattered ray from hitting the
    /// surface it leaves, to infinity.
    pub fn hit_interval(&self) -> (r: (Scalar, Scalar))
        ensures
            r.0 == self@.float_correction,
            r.1.bits == INFINITY_BITS,
    {
        (self.float_correction, Scalar::infinity())
    }

    /// Whether rays start on the defocus disk rather than at the point the
    /// camera looks from: they do unless the defocus angle is at most zero.
    pub fn defocus_enabled(&self) -> (r: bool)
        ensures
            r == !self@.defocus_angle.le_spec(Scalar { bits: ZERO_BITS }),
    {
        !self.defocus_angle.le(Scalar::zero())
    }

    /// The row and the column of the pixel to write next, or none when the
    /// image is complete.
    pub fn next_pixel(&self) -> (r: Option<(usize, usize)>)
        ensures
            r == self@.next_pixel(),
            r matches Some((row, column)) ==> row < self@.height && column < self@.width
                && self@.written() == row * self@.width + column,
    {
        if self.width == 0 {
            return None;
        }
        let n: usize = self.cache.len() / 3;
        let row: usize = n / self.width;
        let column: usize = n % self.width;
        proof {
            lemma_raster(n as nat, self.width as nat, self.height as nat);
        }
        if row < self.height {
            Some((row, column))
        } else {
            None
        }
    }

    /// Writes the next pixel. `color` is the pixel's color on the scale from 0
    /// to 255: the sum of its samples divided by their number, its square
    /// root taken channel by channel, times 255. Each channel is cut to its
    /// whole part, not rounded.
    pub fn write_color(&mut self, color: Rgb)
        ensures
            final(self)@.bytes == old(self)@.bytes + color.bytes_spec(),
            final(self)@.same_settings(old(self)@),
            final(self)@.well_formed() == old(self)@.well_formed(),
            final(self)@.written() == old(self)@.written() + 1,
    {
        let r: u8 = color.r.to_u8();
        let g: u8 = color.g.to_u8();
        let b: u8 = color.b.to_u8();
        push_pixel(&mut self.cache, r, g, b);
    }

    /// The next step of a path whose ray has `depth` bounces left. `hit` is
    /// the nearest hit of the ray in the scene within the hit interval. With
    /// no bounce left the hit is not looked at.
    pub fn ray_color(depth: usize, hit: Option<HitRecord>) -> (r: Bounce)
        ensures
            r == bounce(depth, hit),
            depth == 0 <==> r.exhausted_color_spec() is Some,
    {
        if depth == 0 {
            return Bounce::Exhausted;
        }
        match hit {
            Some(hit_record) => Bounce::Scattered { hit: hit_record, depth: depth - 1 },
            None => Bounce::Escaped,
        }
    }
}

/// Pixel `n` in writing order lies in row `n / width` and column
/// `n % width`, and the row is within the image exactly when `n` is.
pub proof fn lemma_raster(n: nat, width: nat, height: nat)
    requires
        width > 0,
    ensures
        n / width < height <==> n < width * height,
        n % width < width,
        n == (n / width) * width + n % width,
{
    lemma_fundamental_div_mod(n as int, width as int);
    let q = n / width;
    let r = n % width;
    assert(n == width * q + r);
    assert(q < height <==> n < width * height) by (nonlinear_arith)
        requires
            n == width * q + r,
            0 <= r < width,
            0 <= q,
    ;
    assert(q * width == width * q) by (nonlinear_arith);
}

/// The pixels are written row by row from the top, and from left to right
/// within a row: after a pixel that is not the last of its row comes its
/// right neighbor, after the last of a row the first of the next row, and
/// after the last of the last row none.
pub proof fn lemma_raster_order(before: CameraView, after: CameraView)
    requires
        before.width <= usize::MAX,
        before.height <= usize::MAX,
        after.same_settings(before),
        after.written() == before.written() + 1,
        before.next_pixel() is Some,
    ensures
        ({
            let (row, column) = before.next_pixel()->0;
            after.next_pixel() == if column + 1 < before.width {
                Some((row, (column + 1) as usize))
            } else if row + 1 < before.height {
                Some(((row + 1) as usize, 0usize))
            } else {
                None
            }
        }),
{
    let w = before.width;
    let h = before.height;
    let n = before.written();
    lemma_raster(n, w, h);
    lemma_raster(n + 1, w, h);
    let q = n / w;
    let r = n % w;
    if r + 1 < w {
        lemma_fundamental_div_mod_converse(n as int + 1, w as int, q as int, r as int + 1);
    } else {
        assert(n + 1 == (q + 1) * w + 0) by (nonlinear_arith)
            requires
                n == q * w + r,
                r + 1 == w,
        ;
        lemma_fundamental_div_mod_converse(n as int + 1, w as int, q as int + 1, 0);
    }
}

/// An image that holds whole pixels and has none left to write holds, for a
/// width above zero, at least three bytes for each pixel of its width times
/// its height; one that was written only while a pixel was left holds
/// exactly that many.
pub proof fn lemma_complete_size(v: CameraView)
    requires
        v.well_formed(),
        v.width > 0,
    ensures
        v.next_pixel() is None <==> v.bytes.len() >= 3 * (v.width * v.height),
        v.written() == v.width * v.height ==> v.bytes.len() == 3 * (v.width * v.height)
            && v.next_pixel() is None,
{
}

} // verus!
