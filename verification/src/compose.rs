//! Painting the images onto the canvas, in order, each at its offset.

use crate::layout::{
    bottom_edge, calc_image_size, canvas_height, canvas_width, lemma_canvas_holds_every_image,
    lemma_canvas_is_tight, right_edge,
};
use crate::pixels::{buffer_pixels, transparent, Color, PixelBuffer};
use vstd::prelude::*;

verus! {

/// The sizes of the images, in order, as `(width, height)`. The sides of a
/// buffer are 32-bit numbers, so each is the same number in 64 bits.
pub open spec fn dimensions(images: Seq<PixelBuffer>) -> Seq<(u64, u64)> {
    Seq::new(
        images.len(),
        |i: int| (images[i].spec_width() as u64, images[i].spec_height() as u64),
    )
}

/// Image `i`, placed at its offset, lies over the canvas position `(x, y)`.
pub open spec fn covers(
    images: Seq<PixelBuffer>,
    coords: Seq<(u64, u64)>,
    i: int,
    x: int,
    y: int,
) -> bool {
    &&& coords[i].0 <= x < coords[i].0 + images[i].spec_width()
    &&& coords[i].1 <= y < coords[i].1 + images[i].spec_height()
}

/// The colour at `(x, y)` once the first `n` images are painted: that of the
/// last of them that covers the position, and transparent where none does.
pub open spec fn painted(
    images: Seq<PixelBuffer>,
    coords: Seq<(u64, u64)>,
    n: int,
    x: int,
    y: int,
) -> Color
    decreases n,
{
    if n <= 0 {
        transparent()
    } else if covers(images, coords, n - 1, x, y) {
        images[n - 1].pixel(x - coords[n - 1].0, y - coords[n - 1].1)
    } else {
        painted(images, coords, n - 1, x, y)
    }
}

/// The canvas for these images can be allocated: its sides fit in 32 bits
/// and its bytes in one vector.
pub open spec fn canvas_fits(images: Seq<PixelBuffer>, coords: Seq<(u64, u64)>) -> bool {
    &&& canvas_width(dimensions(images), coords) <= u32::MAX
    &&& canvas_height(dimensions(images), coords) <= u32::MAX
    &&& 4 * canvas_width(dimensions(images), coords) * canvas_height(dimensions(images), coords)
        <= isize::MAX
}

/// `canvas` is the images painted in order at their offsets: it has the
/// size of the smallest canvas that holds them all, and each of its pixels
/// is what the last image over it holds there.
pub open spec fn is_composition(
    images: Seq<PixelBuffer>,
    coords: Seq<(u64, u64)>,
    canvas: PixelBuffer,
) -> bool {
    &&& canvas.spec_width() == canvas_width(dimensions(images), coords)
    &&& canvas.spec_height() == canvas_height(dimensions(images), coords)
    &&& canvas.is_full()
    &&& forall|x: int, y: int|
        0 <= x < canvas.spec_width() && 0 <= y < canvas.spec_height() ==> #[trigger] canvas.pixel(
            x,
            y,
        ) == painted(images, coords, images.len() as int, x, y)
}

/// Images that do not cover a position leave what was painted there.
pub proof fn lemma_painted_skips(
    images: Seq<PixelBuffer>,
    coords: Seq<(u64, u64)>,
    m: int,
    n: int,
    x: int,
    y: int,
)
    requires
        0 <= m <= n,
        forall|k: int| m <= k < n ==> !covers(images, coords, k, x, y),
    ensures
        painted(images, coords, n, x, y) == painted(images, coords, m, x, y),
    decreases n - m,
{
    if m < n {
        lemma_painted_skips(images, coords, m, n - 1, x, y);
    }
}

/// The last image drawn wins: where image `j` covers a canvas position and no
/// later image does, the canvas holds the pixel of image `j`.
pub proof fn lemma_last_drawn_wins(
    images: Seq<PixelBuffer>,
    coords: Seq<(u64, u64)>,
    canvas: PixelBuffer,
    j: int,
    x: int,
    y: int,
)
    requires
        is_composition(images, coords, canvas),
        0 <= j < images.len(),
        0 <= x < canvas.spec_width(),
        0 <= y < canvas.spec_height(),
        covers(images, coords, j, x, y),
        forall|k: int| j < k < images.len() ==> !covers(images, coords, k, x, y),
    ensures
        canvas.pixel(x, y) == images[j].pixel(x - coords[j].0, y - coords[j].1),
{
    lemma_painted_skips(images, coords, j + 1, images.len() as int, x, y);
}

/// No image is clipped: every position that an image covers lies on the
/// canvas. The image's sides are 32-bit numbers, as those of every buffer.
pub proof fn lemma_no_image_is_clipped(
    images: Seq<PixelBuffer>,
    coords: Seq<(u64, u64)>,
    canvas: PixelBuffer,
    i: int,
    x: int,
    y: int,
)
    requires
        is_composition(images, coords, canvas),
        0 <= i < images.len(),
        images[i].spec_width() <= u32::MAX,
        images[i].spec_height() <= u32::MAX,
        covers(images, coords, i, x, y),
    ensures
        0 <= x < canvas.spec_width(),
        0 <= y < canvas.spec_height(),
{
    lemma_canvas_holds_every_image(dimensions(images), coords, images.len() as int, i);
}

/// A canvas position that no image covers stays transparent.
pub proof fn lemma_uncovered_is_transparent(
    images: Seq<PixelBuffer>,
    coords: Seq<(u64, u64)>,
    canvas: PixelBuffer,
    x: int,
    y: int,
)
    requires
        is_composition(images, coords, canvas),
        0 <= x < canvas.spec_width(),
        0 <= y < canvas.spec_height(),
        forall|k: int| 0 <= k < images.len() ==> !covers(images, coords, k, x, y),
    ensures
        canvas.pixel(x, y) == transparent(),
{
    lemma_painted_skips(images, coords, 0, images.len() as int, x, y);
}

/// Composing is repeatable: two canvases composed from the same images at
/// the same offsets have the same size and hold the same pixels.
pub proof fn lemma_composition_is_unique(
    images: Seq<PixelBuffer>,
    coords: Seq<(u64, u64)>,
    first: PixelBuffer,
    second: PixelBuffer,
)
    requires
        is_composition(images, coords, first),
        is_composition(images, coords, second),
    ensures
        first.spec_width() == second.spec_width(),
        first.spec_height() == second.spec_height(),
        buffer_pixels(first) == buffer_pixels(second),
{
    assert forall|p: (int, int)| buffer_pixels(first).dom().contains(p) implies buffer_pixels(
        first,
    )[p] == buffer_pixels(second)[p] by {
        assert(first.pixel(p.0, p.1) == second.pixel(p.0, p.1));
    }
    assert(buffer_pixels(first) =~= buffer_pixels(second));
}

/// Paints the images onto a fresh transparent canvas, in order, image `i`
/// with its top-left corner at `coords[i]`. Pixels are copied as they are;
/// where images overlap, the later one replaces the earlier.
pub fn compose(images: &Vec<PixelBuffer>, coords: &Vec<(u64, u64)>) -> (canvas: PixelBuffer)
    requires
        images.len() == coords.len(),
        canvas_fits(images@, coords@),
    ensures
        is_composition(images@, coords@, canvas),
{
    let n = images.len();
    let mut dims: Vec<(u64, u64)> = Vec::new();
    let mut i: usize = 0;
    while i < n
        invariant
            i <= n,
            n == images.len(),
            dims.len() == i,
            forall|j: int|
                0 <= j < i ==> #[trigger] dims@[j] == dimensions(images@)[j]
                    && images@[j].spec_width() == dims@[j].0
                    && images@[j].spec_height() == dims@[j].1,
        decreases n - i,
    {
        let w = images[i].width();
        let h = images[i].height();
        dims.push((w as u64, h as u64));
        i += 1;
    }
    assert(dims@ =~= dimensions(images@));
    proof {
        assert forall|j: int| 0 <= j < n implies #[trigger] right_edge(dims@, coords@, j)
            <= canvas_width(dims@, coords@) && bottom_edge(dims@, coords@, j) <= canvas_height(
            dims@,
            coords@,
        ) by {
            lemma_canvas_holds_every_image(dims@, coords@, n as int, j);
        }
    }
    let (width, height) = calc_image_size(&dims, coords);
    let mut canvas = PixelBuffer::new(width as u32, height as u32);
    let mut k: usize = 0;
    while k < n
        invariant
            k <= n,
            n == images.len(),
            n == coords.len(),
            dims@ == dimensions(images@),
            width <= u32::MAX,
            height <= u32::MAX,
            width == canvas_width(dims@, coords@),
            height == canvas_height(dims@, coords@),
            forall|j: int|
                0 <= j < n ==> #[trigger] right_edge(dims@, coords@, j) <= width && bottom_edge(
                    dims@,
                    coords@,
                    j,
                ) <= height && images@[j].spec_width() == dims@[j].0 && images@[j].spec_height()
                    == dims@[j].1,
            canvas.spec_width() == width,
            canvas.spec_height() == height,
            canvas.is_full(),
            forall|x: int, y: int|
                0 <= x < width && 0 <= y < height ==> #[trigger] canvas.pixel(x, y) == painted(
                    images@,
                    coords@,
                    k as int,
                    x,
                    y,
                ),
        decreases n - k,
    {
        let img = &images[k];
        let cx = coords[k].0;
        let cy = coords[k].1;
        let w = img.width();
        let h = img.height();
        assert(right_edge(dims@, coords@, k as int) <= width);
        assert(bottom_edge(dims@, coords@, k as int) <= height);
        let ghost before = canvas;
        let mut sx: u32 = 0;
        while sx < w
            invariant
                sx <= w,
                w == img.spec_width(),
                h == img.spec_height(),
                cx + w <= width <= u32::MAX,
                cy + h <= height <= u32::MAX,
                canvas.spec_width() == width,
                canvas.spec_height() == height,
                canvas.is_full(),
                forall|x: int, y: int|
                    0 <= x < width && 0 <= y < height ==> #[trigger] canvas.pixel(x, y) == (if cx
                        <= x < cx + sx && cy <= y < cy + h {
                        img.pixel(x - cx, y - cy)
                    } else {
                        before.pixel(x, y)
                    }),
            decreases w - sx,
        {
            let ghost column = canvas;
            let mut sy: u32 = 0;
            while sy < h
                invariant
                    sx < w,
                    sy <= h,
                    w == img.spec_width(),
                    h == img.spec_height(),
                    cx + w <= width <= u32::MAX,
                    cy + h <= height <= u32::MAX,
                    canvas.spec_width() == width,
                    canvas.spec_height() == height,
                    canvas.is_full(),
                    forall|x: int, y: int|
                        0 <= x < width && 0 <= y < height ==> #[trigger] canvas.pixel(x, y) == (if x
                            == cx + sx && cy <= y < cy + sy {
                            img.pixel(x - cx, y - cy)
                        } else {
                            column.pixel(x, y)
                        }),
                decreases h - sy,
            {
                let color = img.get_pixel(sx, sy);
                canvas.put_pixel((cx + sx as u64) as u32, (cy + sy as u64) as u32, color);
                sy += 1;
            }
            sx += 1;
        }
        k += 1;
    }
    canvas
}

/// Composes the images where that can be done at all: `None` when the
/// numbers of images and of offsets differ, or when the canvas would be too
/// large to allocate; otherwise the canvas that `compose` paints.
pub fn try_compose(images: &Vec<PixelBuffer>, coords: &Vec<(u64, u64)>) -> (result: Option<
    PixelBuffer,
>)
    ensures
        result is Some <==> images.len() == coords.len() && canvas_fits(images@, coords@),
        result matches Some(canvas) ==> is_composition(images@, coords@, canvas),
{
    if images.len() != coords.len() {
        return None;
    }
    let n = images.len();
    let ghost all = dimensions(images@);
    let mut dims: Vec<(u64, u64)> = Vec::new();
    let mut i: usize = 0;
    while i < n
        invariant
            i <= n,
            n == images.len(),
            n == coords.len(),
            all == dimensions(images@),
            dims.len() == i,
            forall|j: int|
                0 <= j < i ==> #[trigger] dims@[j] == all[j] && right_edge(all, coords@, j)
                    <= u32::MAX && bottom_edge(all, coords@, j) <= u32::MAX,
        decreases n - i,
    {
        let w: u64 = images[i].width() as u64;
        let h: u64 = images[i].height() as u64;
        let limit: u64 = u32::MAX as u64;
        if coords[i].0 > limit - w || coords[i].1 > limit - h {
            proof {
                lemma_canvas_holds_every_image(all, coords@, n as int, i as int);
            }
            return None;
        }
        dims.push((w, h));
        i += 1;
    }
    assert(dims@ =~= all);
    proof {
        lemma_canvas_is_tight(all, coords@, n as int);
        assert forall|j: int| 0 <= j < n implies #[trigger] right_edge(all, coords@, j)
            <= u64::MAX && bottom_edge(all, coords@, j) <= u64::MAX by {
            assert(dims@[j] == all[j]);
        }
    }
    let (width, height) = calc_image_size(&dims, coords);
    assert(4 * width * height <= 4 * 0x1_0000_0000 * 0x1_0000_0000) by (nonlinear_arith)
        requires
            width <= 0xffff_ffff,
            height <= 0xffff_ffff,
    ;
    let bytes: u128 = 4u128 * (width as u128) * (height as u128);
    if bytes > isize::MAX as u128 {
        return None;
    }
    Some(compose(images, coords))
}

} // verus!
