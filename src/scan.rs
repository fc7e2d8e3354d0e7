//! The order in which the pixels of an image are evaluated and written:
//! rows from the top of the image down, each row from left to right.
use vstd::prelude::*;

use vstd::arithmetic::div_mod::lemma_fundamental_div_mod_converse;

verus! {

/// A pixel of the grid. Row 0 is the bottom row and column 0 the leftmost
/// column, so that `row / (height - 1)` and `col / (width - 1)` are the
/// screen coordinates through which the pixel's ray is cast.
#[derive(Clone, Copy, Debug, PartialEq, Eq)]
pub struct Pixel {
    pub row: u64,
    pub col: u64,
}

/// The pixel written at position `k` of a `width` by `height` image.
pub open spec fn scan_pixel(width: nat, height: nat, k: nat) -> Pixel {
    Pixel { row: (height - 1 - k / width) as u64, col: (k % width) as u64 }
}

/// Position in the output of the pixel at `row`, `col`.
pub open spec fn scan_position(width: nat, height: nat, row: nat, col: nat) -> int {
    (height - 1 - row) * width + col
}

/// Every pixel of the grid is written exactly once: the pixel at `row`,
/// `col` is the one written at `scan_position(width, height, row, col)`,
/// which lies inside the image. Rows are thus written from the top down and
/// each row from left to right.
pub proof fn lemma_scan_position(width: nat, height: nat, row: nat, col: nat)
    requires
        row < height,
        col < width,
    ensures
        0 <= scan_position(width, height, row, col) < width * height,
        scan_pixel(width, height, scan_position(width, height, row, col) as nat) == (Pixel {
            row: row as u64,
            col: col as u64,
        }),
{
    let k = scan_position(width, height, row, col);
    lemma_fundamental_div_mod_converse(k, width as int, height - 1 - row, col as int);
    assert((height - 1 - row) * width + col < (height - 1 - row + 1) * width) by (nonlinear_arith)
        requires
            col < width,
    ;
    assert((height - 1 - row + 1) * width <= height * width) by (nonlinear_arith)
        requires
            row < height,
    ;
    assert(0 <= (height - 1 - row) * width) by (nonlinear_arith)
        requires
            row < height,
    ;
}

/// Every pixel of a `width` by `height` grid, in the order in which the
/// image is written.
pub fn scan_order(width: u64, height: u64) -> (pixels: Vec<Pixel>)
    requires
        width * height <= usize::MAX,
    ensures
        pixels.len() == width * height,
        forall|k: int|
            0 <= k < pixels.len() ==> #[trigger] pixels@[k] == scan_pixel(
                width as nat,
                height as nat,
                k as nat,
            ),
{
    let mut pixels: Vec<Pixel> = Vec::new();
    let mut row: u64 = height;
    while row > 0
        invariant
            row <= height,
            width * height <= usize::MAX,
            pixels.len() == (height - row) * width,
            forall|k: int|
                0 <= k < pixels.len() ==> #[trigger] pixels@[k] == scan_pixel(
                    width as nat,
                    height as nat,
                    k as nat,
                ),
        decreases row,
    {
        row = row - 1;
        let mut col: u64 = 0;
        while col < width
            invariant
                row < height,
                col <= width,
                width * height <= usize::MAX,
                pixels.len() == (height - 1 - row) * width + col,
                forall|k: int|
                    0 <= k < pixels.len() ==> #[trigger] pixels@[k] == scan_pixel(
                        width as nat,
                        height as nat,
                        k as nat,
                    ),
            decreases width - col,
        {
            proof {
                let k = pixels.len() as int;
                lemma_fundamental_div_mod_converse(k, width as int, height - 1 - row, col as int);
                assert((height - 1 - row) * width + col < (height - 1 - row + 1) * width)
                    by (nonlinear_arith)
                    requires
                        col < width,
                ;
                assert((height - 1 - row + 1) * width <= height * width) by (nonlinear_arith)
                    requires
                        row < height,
                ;
            }
            pixels.push(Pixel { row, col });
            col = col + 1;
        }
        assert((height - 1 - row) * width + width == (height - row) * width) by (nonlinear_arith);
    }
    assert((height - 0) * width == width * height) by (nonlinear_arith);
    pixels
}

} // verus!
