//! The frame buffer: an RGBA8 image kept in an `image::ImageBuffer` and
//! modelled as a map from pixel coordinates to colours.

use vstd::prelude::*;

verus! {

/// An RGBA8 colour.
#[derive(Clone, Copy, PartialEq, Eq, Structural, Debug)]
pub struct Color {
    pub r: u8,
    pub g: u8,
    pub b: u8,
    pub a: u8,
}

/// The frame buffer. The backing `image` buffer is opaque to the
/// verifier; its contents are named by [`canvas_pixels`] and
/// [`canvas_dims`], and reached only through the trusted methods below.
#[verifier::external_body]
pub struct Canvas {
    img: image::ImageBuffer<image::Rgba<u8>, Vec<u8>>,
}

/// The pixels the canvas holds, keyed by `(column, row)`.
pub uninterp spec fn canvas_pixels(c: Canvas) -> Map<(int, int), Color>;

/// The width and height the canvas was created with.
pub uninterp spec fn canvas_dims(c: Canvas) -> (nat, nat);

/// The coordinate grid of a `w` by `h` image.
pub open spec fn grid(w: nat, h: nat) -> Set<(int, int)> {
    Set::new(|p: (int, int)| 0 <= p.0 < w && 0 <= p.1 < h)
}

/// The colour stored at `(x, y)` in a raw row-major RGBA byte sequence of
/// row width `w`.
pub open spec fn raw_color_at(bytes: Seq<u8>, w: int, x: int, y: int) -> Color {
    Color {
        r: bytes[4 * (y * w + x)],
        g: bytes[4 * (y * w + x) + 1],
        b: bytes[4 * (y * w + x) + 2],
        a: bytes[4 * (y * w + x) + 3],
    }
}

impl Canvas {
    /// Relies on `image::ImageBuffer::new`: a buffer of the given
    /// dimensions with every sample zeroed. The size bound keeps the
    /// internal length computation from overflowing.
    #[verifier::external_body]
    pub fn new(width: u32, height: u32) -> (c: Canvas)
        requires
            width <= 0x1_0000,
            height <= 0x1_0000,
        ensures
            canvas_dims(c) == (width as nat, height as nat),
            canvas_pixels(c) == Map::new(
                |p: (int, int)| 0 <= p.0 < width as int && 0 <= p.1 < height as int,
                |p: (int, int)| Color { r: 0, g: 0, b: 0, a: 0 },
            ),
    {
        Canvas { img: image::ImageBuffer::new(width, height) }
    }

    /// Relies on `image::ImageBuffer::put_pixel`: replaces the pixel at
    /// `(x, y)`. It panics out of bounds, which the contract excludes.
    #[verifier::external_body]
    pub fn put(&mut self, x: u32, y: u32, px: Color)
        requires
            (x as nat) < canvas_dims(*old(self)).0,
            (y as nat) < canvas_dims(*old(self)).1,
        ensures
            canvas_dims(*final(self)) == canvas_dims(*old(self)),
            canvas_pixels(*final(self)) == canvas_pixels(*old(self)).insert(
                (x as int, y as int),
                px,
            ),
    {
        self.img.put_pixel(x, y, image::Rgba([px.r, px.g, px.b, px.a]));
    }

    /// Relies on `image::ImageBuffer::get_pixel`: the pixel at `(x, y)`.
    /// It panics out of bounds, which the contract excludes.
    #[verifier::external_body]
    pub fn get(&self, x: u32, y: u32) -> (px: Color)
        requires
            (x as nat) < canvas_dims(*self).0,
            (y as nat) < canvas_dims(*self).1,
        ensures
            px == canvas_pixels(*self)[(x as int, y as int)],
    {
        let p = self.img.get_pixel(x, y);
        Color { r: p.0[0], g: p.0[1], b: p.0[2], a: p.0[3] }
    }

    /// Relies on `image::ImageBuffer::width`.
    #[verifier::external_body]
    pub fn width(&self) -> (w: u32)
        ensures
            w as nat == canvas_dims(*self).0,
    {
        self.img.width()
    }

    /// Relies on `image::ImageBuffer::height`.
    #[verifier::external_body]
    pub fn height(&self) -> (h: u32)
        ensures
            h as nat == canvas_dims(*self).1,
    {
        self.img.height()
    }

    /// Relies on `image::ImageBuffer::as_raw`: the backing samples are
    /// stored row-major, four bytes per pixel in r, g, b, a order.
    #[verifier::external_body]
    pub fn to_raw(&self) -> (bytes: Vec<u8>)
        ensures
            bytes@.len() == 4 * canvas_dims(*self).0 * canvas_dims(*self).1,
            forall|x: int, y: int|
                0 <= x < canvas_dims(*self).0 && 0 <= y < canvas_dims(*self).1
                    ==> #[trigger] raw_color_at(bytes@, canvas_dims(*self).0 as int, x, y)
                    == canvas_pixels(*self)[(x, y)],
    {
        self.img.as_raw().clone()
    }
}

} // verus!
