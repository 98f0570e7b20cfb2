//! The pixel buffer that images are read from and the canvas is painted on.
//!
//! The buffer is the RGBA buffer of the `image` crate. The verifier does not
//! look inside it: its width, its height and the pixels it holds are given
//! names here, and each buffer operation the compositor uses is stated over
//! those names and trusted.

use vstd::prelude::*;

verus! {

/// One pixel: red, green, blue and alpha, eight bits each.
pub type Color = (u8, u8, u8, u8);

/// The fully transparent pixel a fresh buffer is filled with.
pub open spec fn transparent() -> Color {
    (0u8, 0u8, 0u8, 0u8)
}

/// The positions of a grid of the given size: column first, then row.
pub open spec fn grid(width: nat, height: nat) -> Set<(int, int)> {
    Set::new(|p: (int, int)| 0 <= p.0 < width && 0 <= p.1 < height)
}

/// An RGBA pixel buffer, kept in an `image::RgbaImage`. The verifier does
/// not look inside: what it knows of a buffer is what the functions below
/// state of its width, its height and its pixels.
#[verifier::external_body]
pub struct PixelBuffer {
    inner: image::RgbaImage,
}

/// The number of pixel columns of a buffer: what `ImageBuffer::width` returns.
pub uninterp spec fn buffer_width(buffer: PixelBuffer) -> nat;

/// The number of pixel rows of a buffer: what `ImageBuffer::height` returns.
pub uninterp spec fn buffer_height(buffer: PixelBuffer) -> nat;

/// The pixels a buffer holds, by column and row.
pub uninterp spec fn buffer_pixels(buffer: PixelBuffer) -> Map<(int, int), Color>;

/// `ImageBuffer::width`: the buffer's width, a 32-bit number.
#[verifier::external_body]
fn raw_width(buffer: &PixelBuffer) -> (w: u32)
    ensures
        w == buffer_width(*buffer),
{
    buffer.inner.width()
}

/// `ImageBuffer::height`: the buffer's height, a 32-bit number.
#[verifier::external_body]
fn raw_height(buffer: &PixelBuffer) -> (h: u32)
    ensures
        h == buffer_height(*buffer),
{
    buffer.inner.height()
}

/// `ImageBuffer::new`: a buffer of the given size in which every channel of
/// every pixel is zero. The call allocates `4 * width * height` bytes in one
/// vector and panics where a vector cannot be that long, so such sizes are
/// left out.
#[verifier::external_body]
fn raw_new(width: u32, height: u32) -> (buffer: PixelBuffer)
    requires
        4 * width * height <= isize::MAX,
    ensures
        buffer_width(buffer) == width,
        buffer_height(buffer) == height,
        buffer_pixels(buffer).dom() == grid(width as nat, height as nat),
        forall|p: (int, int)|
            grid(width as nat, height as nat).contains(p) ==> #[trigger] buffer_pixels(buffer)[p]
                == transparent(),
{
    PixelBuffer { inner: image::ImageBuffer::new(width, height) }
}

/// `ImageBuffer::get_pixel`: the pixel at column `x`, row `y`. The call
/// panics outside the buffer, so those positions are left out.
#[verifier::external_body]
fn raw_get(buffer: &PixelBuffer, x: u32, y: u32) -> (color: Color)
    requires
        x < buffer_width(*buffer),
        y < buffer_height(*buffer),
    ensures
        color == buffer_pixels(*buffer)[(x as int, y as int)],
{
    let p = buffer.inner.get_pixel(x, y).0;
    (p[0], p[1], p[2], p[3])
}

/// `ImageBuffer::put_pixel`: replaces the pixel at column `x`, row `y` and
/// leaves the size and every other pixel as they were. The call panics
/// outside the buffer, so those positions are left out.
#[verifier::external_body]
fn raw_put(buffer: &mut PixelBuffer, x: u32, y: u32, color: Color)
    requires
        x < buffer_width(*old(buffer)),
        y < buffer_height(*old(buffer)),
    ensures
        buffer_width(*final(buffer)) == buffer_width(*old(buffer)),
        buffer_height(*final(buffer)) == buffer_height(*old(buffer)),
        buffer_pixels(*final(buffer)) == buffer_pixels(*old(buffer)).insert(
            (x as int, y as int),
            color,
        ),
{
    buffer.inner.put_pixel(x, y, image::Rgba([color.0, color.1, color.2, color.3]));
}

impl PixelBuffer {
    /// The width of the buffer in pixels.
    pub open spec fn spec_width(&self) -> nat {
        buffer_width(*self)
    }

    /// The height of the buffer in pixels.
    pub open spec fn spec_height(&self) -> nat {
        buffer_height(*self)
    }

    /// The pixel at column `x`, row `y`.
    pub open spec fn pixel(&self, x: int, y: int) -> Color {
        buffer_pixels(*self)[(x, y)]
    }

    /// A buffer holds exactly one pixel for each position of its grid.
    pub open spec fn is_full(&self) -> bool {
        buffer_pixels(*self).dom() == grid(self.spec_width(), self.spec_height())
    }

    /// Whether a buffer of this size can be allocated: its four bytes per
    /// pixel must fit in one vector.
    pub open spec fn fits(width: u32, height: u32) -> bool {
        4 * width * height <= isize::MAX
    }

    /// A fully transparent buffer of the given size.
    pub fn new(width: u32, height: u32) -> (buffer: PixelBuffer)
        requires
            Self::fits(width, height),
        ensures
            buffer.spec_width() == width,
            buffer.spec_height() == height,
            buffer.is_full(),
            forall|x: int, y: int|
                0 <= x < width && 0 <= y < height ==> #[trigger] buffer.pixel(x, y)
                    == transparent(),
    {
        let buffer = raw_new(width, height);
        assert forall|x: int, y: int| 0 <= x < width && 0 <= y < height implies #[trigger]
            buffer.pixel(x, y) == transparent() by {
            assert(grid(width as nat, height as nat).contains((x, y)));
        }
        buffer
    }

    /// The width of the buffer in pixels.
    pub fn width(&self) -> (w: u32)
        ensures
            w == self.spec_width(),
    {
        raw_width(self)
    }

    /// The height of the buffer in pixels.
    pub fn height(&self) -> (h: u32)
        ensures
            h == self.spec_height(),
    {
        raw_height(self)
    }

    /// The pixel at column `x`, row `y`.
    pub fn get_pixel(&self, x: u32, y: u32) -> (color: Color)
        requires
            x < self.spec_width(),
            y < self.spec_height(),
        ensures
            color == self.pixel(x as int, y as int),
    {
        raw_get(self, x, y)
    }

    /// Replaces the pixel at column `x`, row `y`; nothing else changes.
    pub fn put_pixel(&mut self, x: u32, y: u32, color: Color)
        requires
            x < old(self).spec_width(),
            y < old(self).spec_height(),
        ensures
            final(self).spec_width() == old(self).spec_width(),
            final(self).spec_height() == old(self).spec_height(),
            final(self).pixel(x as int, y as int) == color,
            forall|a: int, b: int|
                (a, b) != (x as int, y as int) ==> #[trigger] final(self).pixel(a, b) == old(
                    self,
                ).pixel(a, b),
            old(self).is_full() ==> final(self).is_full(),
    {
        raw_put(self, x, y, color);
        proof {
            if old(self).is_full() {
                assert(grid(self.spec_width(), self.spec_height()).contains((x as int, y as int)));
                assert(buffer_pixels(*self).dom() =~= buffer_pixels(*old(self)).dom());
            }
        }
    }
}

} // verus!
