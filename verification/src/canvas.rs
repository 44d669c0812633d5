//! The canvas: an 8-bit RGBA pixel buffer kept in an `image::RgbaImage`.
//!
//! The buffer is opaque to the verifier. Its contents are described by two
//! uninterpreted functions, [`canvas_size`] and [`canvas_pixels`], and the few
//! buffer methods the library calls are reached through small private wrappers
//! whose contracts are taken on trust from the `image` crate's source. The
//! public methods of [`Canvas`] are verified against those contracts.

use vstd::prelude::*;

verus! {

/// An RGBA colour as four channel values: red, green, blue, alpha.
pub type Color = (u8, u8, u8, u8);

/// A width x height buffer of RGBA pixels, backed by `image::RgbaImage`.
///
/// The verifier does not look inside: the buffer type is bounded by the
/// `Pixel` trait of the `image` crate, which cannot be declared to it. What a
/// canvas holds is known only through [`canvas_size`] and [`canvas_pixels`].
#[verifier::external_body]
#[derive(Debug)]
pub struct Canvas {
    inner: image::RgbaImage,
}

/// The `(width, height)` of a canvas, as `ImageBuffer::dimensions` reports it.
pub uninterp spec fn canvas_size(canvas: Canvas) -> (u32, u32);

/// The colour stored at each coordinate `(x, y)` of a canvas.
pub uninterp spec fn canvas_pixels(canvas: Canvas) -> Map<(int, int), Color>;

/// The pixel that starts at offset `4 * (y * width + x)` of a row-major byte
/// buffer.
pub open spec fn pixel_in_bytes(bytes: Seq<u8>, width: int, x: int, y: int) -> Color {
    let at = 4 * (y * width + x);
    (bytes[at], bytes[at + 1], bytes[at + 2], bytes[at + 3])
}

/// Number of bytes that a `width` x `height` RGBA buffer occupies.
pub open spec fn byte_len(width: int, height: int) -> int {
    4 * (width * height)
}

/// Calls `ImageBuffer::new`, which panics when the byte length overflows and
/// otherwise returns a buffer of the given dimensions with every channel zero.
#[verifier::external_body]
fn image_new(width: u32, height: u32) -> (canvas: Canvas)
    requires
        byte_len(width as int, height as int) <= isize::MAX,
    ensures
        canvas_size(canvas) == (width, height),
        forall|x: int, y: int|
            0 <= x < width && 0 <= y < height ==> #[trigger] canvas_pixels(canvas)[(x, y)] == (
                0u8,
                0u8,
                0u8,
                0u8,
            ),
{
    Canvas { inner: image::RgbaImage::new(width, height) }
}

/// Calls `ImageBuffer::from_raw`, which accepts the buffer exactly when it
/// holds at least `4 * width * height` bytes and then reads pixel `(x, y)` from
/// the four bytes at offset `4 * (y * width + x)`.
#[verifier::external_body]
fn image_from_raw(width: u32, height: u32, bytes: Vec<u8>) -> (res: Option<Canvas>)
    ensures
        res.is_some() <==> byte_len(width as int, height as int) <= bytes@.len(),
        res.is_some() ==> canvas_size(res.unwrap()) == (width, height),
        res.is_some() ==> forall|x: int, y: int|
            0 <= x < width && 0 <= y < height ==> #[trigger] canvas_pixels(res.unwrap())[(x, y)]
                == pixel_in_bytes(bytes@, width as int, x, y),
{
    match image::RgbaImage::from_raw(width, height, bytes) {
        Some(inner) => Some(Canvas { inner }),
        None => None,
    }
}

/// Calls `ImageBuffer::into_raw`, which hands out the underlying buffer: at
/// least `4 * width * height` bytes, pixel `(x, y)` at offset
/// `4 * (y * width + x)`.
#[verifier::external_body]
fn image_into_raw(canvas: Canvas) -> (bytes: Vec<u8>)
    ensures
        byte_len(canvas_size(canvas).0 as int, canvas_size(canvas).1 as int) <= bytes@.len(),
        forall|x: int, y: int|
            0 <= x < canvas_size(canvas).0 && 0 <= y < canvas_size(canvas).1
                ==> #[trigger] pixel_in_bytes(bytes@, canvas_size(canvas).0 as int, x, y)
                == canvas_pixels(canvas)[(x, y)],
{
    canvas.inner.into_raw()
}

/// Calls `ImageBuffer::width`, which returns the stored width.
#[verifier::external_body]
fn image_width(canvas: &Canvas) -> (w: u32)
    ensures
        w == canvas_size(*canvas).0,
{
    canvas.inner.width()
}

/// Calls `ImageBuffer::height`, which returns the stored height.
#[verifier::external_body]
fn image_height(canvas: &Canvas) -> (h: u32)
    ensures
        h == canvas_size(*canvas).1,
{
    canvas.inner.height()
}

/// Calls `ImageBuffer::get_pixel`, which panics outside the bounds and
/// otherwise returns the pixel stored at `(x, y)`; its four channels are
/// handed back as a tuple.
#[verifier::external_body]
fn image_get_pixel(canvas: &Canvas, x: u32, y: u32) -> (c: Color)
    requires
        x < canvas_size(*canvas).0,
        y < canvas_size(*canvas).1,
    ensures
        c == canvas_pixels(*canvas)[(x as int, y as int)],
{
    let p = canvas.inner.get_pixel(x, y);
    (p.0[0], p.0[1], p.0[2], p.0[3])
}

/// Calls `ImageBuffer::put_pixel`, which panics outside the bounds and
/// otherwise overwrites the pixel at `(x, y)`, leaving the dimensions and
/// every other pixel as they were.
#[verifier::external_body]
fn image_put_pixel(canvas: &mut Canvas, x: u32, y: u32, c: Color)
    requires
        x < canvas_size(*old(canvas)).0,
        y < canvas_size(*old(canvas)).1,
    ensures
        canvas_size(*final(canvas)) == canvas_size(*old(canvas)),
        canvas_pixels(*final(canvas)) == canvas_pixels(*old(canvas)).insert(
            (x as int, y as int),
            c,
        ),
{
    canvas.inner.put_pixel(x, y, image::Rgba([c.0, c.1, c.2, c.3]));
}

impl Canvas {
    /// Width in pixels.
    pub open spec fn spec_width(self) -> int {
        canvas_size(self).0 as int
    }

    /// Height in pixels.
    pub open spec fn spec_height(self) -> int {
        canvas_size(self).1 as int
    }

    /// Whether `(x, y)` names a pixel of this canvas.
    pub open spec fn contains(self, x: int, y: int) -> bool {
        0 <= x < self.spec_width() && 0 <= y < self.spec_height()
    }

    /// The colour at `(x, y)`.
    pub open spec fn spec_pixel(self, x: int, y: int) -> Color {
        canvas_pixels(self)[(x, y)]
    }

    /// Whether two canvases have the same dimensions.
    pub open spec fn same_size(self, other: Canvas) -> bool {
        canvas_size(self) == canvas_size(other)
    }

    /// A canvas of the given dimensions with every channel zero, or `None`
    /// when its byte length would not fit in `isize`.
    pub fn new(width: u32, height: u32) -> (res: Option<Canvas>)
        ensures
            res.is_some() <==> byte_len(width as int, height as int) <= isize::MAX,
            res.is_some() ==> res.unwrap().spec_width() == width && res.unwrap().spec_height()
                == height,
            res.is_some() ==> forall|x: int, y: int|
                res.unwrap().contains(x, y) ==> #[trigger] res.unwrap().spec_pixel(x, y) == (
                    0u8,
                    0u8,
                    0u8,
                    0u8,
                ),
    {
        let area: u64 = area_of(width, height);
        if area <= (isize::MAX as u64) / 4 {
            Some(image_new(width, height))
        } else {
            None
        }
    }

    /// Width in pixels.
    pub fn width(&self) -> (w: u32)
        ensures
            w == self.spec_width(),
    {
        image_width(self)
    }

    /// Height in pixels.
    pub fn height(&self) -> (h: u32)
        ensures
            h == self.spec_height(),
    {
        image_height(self)
    }

    /// The colour at `(x, y)`, or `None` outside the canvas.
    pub fn pixel(&self, x: u32, y: u32) -> (res: Option<Color>)
        ensures
            res == if self.contains(x as int, y as int) {
                Some(self.spec_pixel(x as int, y as int))
            } else {
                None
            },
    {
        if x < image_width(self) && y < image_height(self) {
            Some(image_get_pixel(self, x, y))
        } else {
            None
        }
    }

    /// The colour at `(x, y)`, which must lie on the canvas.
    pub fn get_pixel(&self, x: u32, y: u32) -> (color: Color)
        requires
            self.contains(x as int, y as int),
        ensures
            color == self.spec_pixel(x as int, y as int),
    {
        image_get_pixel(self, x, y)
    }

    /// Overwrites the pixel at `(x, y)`, which must lie on the canvas; every
    /// other pixel keeps its colour.
    pub fn put_pixel(&mut self, x: u32, y: u32, color: Color)
        requires
            old(self).contains(x as int, y as int),
        ensures
            final(self).same_size(*old(self)),
            forall|px: int, py: int| #[trigger]
                final(self).spec_pixel(px, py) == if px == x && py == y {
                    color
                } else {
                    old(self).spec_pixel(px, py)
                },
    {
        image_put_pixel(self, x, y, color);
    }

    /// A canvas over a row-major RGBA byte buffer of exactly
    /// `4 * width * height` bytes, or `None` for any other length.
    pub fn from_bytes(width: u32, height: u32, bytes: Vec<u8>) -> (res: Option<Canvas>)
        ensures
            res.is_some() <==> bytes@.len() == byte_len(width as int, height as int),
            res.is_some() ==> res.unwrap().spec_width() == width && res.unwrap().spec_height()
                == height,
            res.is_some() ==> forall|x: int, y: int|
                res.unwrap().contains(x, y) ==> #[trigger] res.unwrap().spec_pixel(x, y)
                    == pixel_in_bytes(bytes@, width as int, x, y),
    {
        let area: u64 = area_of(width, height);
        if (bytes.len() as u128) == 4 * (area as u128) {
            image_from_raw(width, height, bytes)
        } else {
            None
        }
    }

    /// The canvas as a row-major RGBA byte buffer: pixel `(x, y)` occupies the
    /// four bytes from offset `4 * (y * width + x)`.
    pub fn into_bytes(self) -> (bytes: Vec<u8>)
        ensures
            byte_len(self.spec_width(), self.spec_height()) <= bytes@.len(),
            forall|x: int, y: int|
                self.contains(x, y) ==> #[trigger] pixel_in_bytes(
                    bytes@,
                    self.spec_width(),
                    x,
                    y,
                ) == self.spec_pixel(x, y),
    {
        image_into_raw(self)
    }
}

/// `width * height`, which always fits in 64 bits.
fn area_of(width: u32, height: u32) -> (area: u64)
    ensures
        area == width * height,
{
    assert(width * height <= 0xffff_ffff * 0xffff_ffff) by (nonlinear_arith)
        requires
            width <= 0xffff_ffff,
            height <= 0xffff_ffff,
    ;
    (width as u64) * (height as u64)
}

} // verus!
