//! The size of the canvas: the smallest one that holds every placed image.

use vstd::prelude::*;

verus! {

/// Where an image goes: the canvas column and row of its top-left pixel.
pub type Placement = (u64, u64);

/// The column just past the right edge of image `i`, placed at its offset.
pub open spec fn right_edge(dims: Seq<(u64, u64)>, coords: Seq<(u64, u64)>, i: int) -> int {
    coords[i].0 + dims[i].0
}

/// The row just past the bottom edge of image `i`, placed at its offset.
pub open spec fn bottom_edge(dims: Seq<(u64, u64)>, coords: Seq<(u64, u64)>, i: int) -> int {
    coords[i].1 + dims[i].1
}

/// The greatest right edge among the first `n` images; zero for none.
pub open spec fn max_right(dims: Seq<(u64, u64)>, coords: Seq<(u64, u64)>, n: int) -> int
    decreases n,
{
    if n <= 0 {
        0
    } else if right_edge(dims, coords, n - 1) > max_right(dims, coords, n - 1) {
        right_edge(dims, coords, n - 1)
    } else {
        max_right(dims, coords, n - 1)
    }
}

/// The greatest bottom edge among the first `n` images; zero for none.
pub open spec fn max_bottom(dims: Seq<(u64, u64)>, coords: Seq<(u64, u64)>, n: int) -> int
    decreases n,
{
    if n <= 0 {
        0
    } else if bottom_edge(dims, coords, n - 1) > max_bottom(dims, coords, n - 1) {
        bottom_edge(dims, coords, n - 1)
    } else {
        max_bottom(dims, coords, n - 1)
    }
}

/// The width of the canvas for images of sizes `dims` placed at `coords`.
pub open spec fn canvas_width(dims: Seq<(u64, u64)>, coords: Seq<(u64, u64)>) -> int {
    max_right(dims, coords, dims.len() as int)
}

/// The height of the canvas for images of sizes `dims` placed at `coords`.
pub open spec fn canvas_height(dims: Seq<(u64, u64)>, coords: Seq<(u64, u64)>) -> int {
    max_bottom(dims, coords, dims.len() as int)
}

/// Every placed image ends at a column and a row that fits in 64 bits.
pub open spec fn edges_fit(dims: Seq<(u64, u64)>, coords: Seq<(u64, u64)>) -> bool {
    forall|i: int|
        0 <= i < dims.len() ==> #[trigger] right_edge(dims, coords, i) <= u64::MAX
            && bottom_edge(dims, coords, i) <= u64::MAX
}

/// The canvas holds every image: no right or bottom edge lies beyond it.
pub proof fn lemma_canvas_holds_every_image(
    dims: Seq<(u64, u64)>,
    coords: Seq<(u64, u64)>,
    n: int,
    i: int,
)
    requires
        0 <= i < n,
    ensures
        right_edge(dims, coords, i) <= max_right(dims, coords, n),
        bottom_edge(dims, coords, i) <= max_bottom(dims, coords, n),
    decreases n,
{
    if i < n - 1 {
        lemma_canvas_holds_every_image(dims, coords, n - 1, i);
    }
}

/// The canvas is tight: with no image it is empty, and otherwise some
/// image's right edge is its width and some image's bottom edge its height.
pub proof fn lemma_canvas_is_tight(dims: Seq<(u64, u64)>, coords: Seq<(u64, u64)>, n: int)
    requires
        0 <= n,
    ensures
        n == 0 ==> max_right(dims, coords, n) == 0 && max_bottom(dims, coords, n) == 0,
        n > 0 ==> exists|i: int|
            0 <= i < n && #[trigger] right_edge(dims, coords, i) == max_right(dims, coords, n),
        n > 0 ==> exists|i: int|
            0 <= i < n && #[trigger] bottom_edge(dims, coords, i) == max_bottom(dims, coords, n),
    decreases n,
{
    if n > 0 {
        lemma_canvas_is_tight(dims, coords, n - 1);
        if right_edge(dims, coords, n - 1) > max_right(dims, coords, n - 1) || n == 1 {
            assert(right_edge(dims, coords, n - 1) == max_right(dims, coords, n));
        } else {
            let i = choose|i: int|
                0 <= i < n - 1 && #[trigger] right_edge(dims, coords, i) == max_right(
                    dims,
                    coords,
                    n - 1,
                );
            assert(right_edge(dims, coords, i) == max_right(dims, coords, n));
        }
        if bottom_edge(dims, coords, n - 1) > max_bottom(dims, coords, n - 1) || n == 1 {
            assert(bottom_edge(dims, coords, n - 1) == max_bottom(dims, coords, n));
        } else {
            let i = choose|i: int|
                0 <= i < n - 1 && #[trigger] bottom_edge(dims, coords, i) == max_bottom(
                    dims,
                    coords,
                    n - 1,
                );
            assert(bottom_edge(dims, coords, i) == max_bottom(dims, coords, n));
        }
    }
}

/// The size of the smallest canvas that holds every image: the greatest
/// right edge and the greatest bottom edge, `(0, 0)` when there is no image.
/// Image `i` has size `dimensions[i]` and is placed at `coords[i]`.
pub fn calc_image_size(dimensions: &Vec<(u64, u64)>, coords: &Vec<(u64, u64)>) -> (size: (
    u64,
    u64,
))
    requires
        dimensions.len() <= coords.len(),
        edges_fit(dimensions@, coords@),
    ensures
        size.0 == canvas_width(dimensions@, coords@),
        size.1 == canvas_height(dimensions@, coords@),
{
    let mut max_width: u64 = 0;
    let mut max_height: u64 = 0;
    let mut i: usize = 0;
    while i < dimensions.len()
        invariant
            i <= dimensions.len() <= coords.len(),
            edges_fit(dimensions@, coords@),
            max_width == max_right(dimensions@, coords@, i as int),
            max_height == max_bottom(dimensions@, coords@, i as int),
        decreases dimensions.len() - i,
    {
        assert(right_edge(dimensions@, coords@, i as int) <= u64::MAX);
        assert(bottom_edge(dimensions@, coords@, i as int) <= u64::MAX);
        let projected_width: u64 = coords[i].0 + dimensions[i].0;
        let projected_height: u64 = coords[i].1 + dimensions[i].1;
        if projected_width > max_width {
            max_width = projected_width;
        }
        if projected_height > max_height {
            max_height = projected_height;
        }
        i += 1;
    }
    (max_width, max_height)
}

} // verus!
