//! Nearest-neighbour magnification of a board into a raster.

use vstd::prelude::*;
use crate::animation::board::{lemma_position_in_range, lemma_position_of_index};

verus! {

/// The board cell that the raster pixel in column `x` of row `y` shows.
pub open spec fn source_index(width: int, scale: int, x: int, y: int) -> int {
    (y / scale) * width + x / scale
}

/// The raster of a `width` by `height` board magnified `scale` times: it is
/// `width * scale` pixels wide and `height * scale` pixels high, and every
/// pixel shows the cell whose block it falls into.
pub open spec fn upscaled(cells: Seq<u8>, width: nat, height: nat, scale: nat) -> Seq<u8> {
    Seq::new(
        (width * scale) * (height * scale),
        |i: int|
            cells[source_index(
                width as int,
                scale as int,
                i % (width * scale) as int,
                i / (width * scale) as int,
            )],
    )
}

/// Reads a board back from its raster: one pixel, the first, of every block.
pub open spec fn sampled(raster: Seq<u8>, width: nat, height: nat, scale: nat) -> Seq<u8> {
    Seq::new(
        width * height,
        |i: int| raster[((i / width as int) * scale) * (width * scale) + (i % width as int) * scale],
    )
}

proof fn lemma_block_position(x: int, dx: int, width: int, scale: int)
    by (nonlinear_arith)
    requires
        0 <= x < width,
        0 <= dx < scale,
    ensures
        0 <= x * scale + dx < width * scale,
        (x * scale + dx) / scale == x,
{
    assert((x * scale + dx) / scale == x) by {
        vstd::arithmetic::div_mod::lemma_fundamental_div_mod_converse(
            x * scale + dx,
            scale,
            x,
            dx,
        );
    }
}

/// Every pixel of the raster shows a cell of the board.
pub proof fn lemma_upscaled_source(cells: Seq<u8>, width: nat, height: nat, scale: nat, i: int)
    requires
        cells.len() == width * height,
        0 <= i < upscaled(cells, width, height, scale).len(),
    ensures
        0 <= source_index(
            width as int,
            scale as int,
            i % (width * scale) as int,
            i / (width * scale) as int,
        ) < cells.len(),
        upscaled(cells, width, height, scale)[i] == cells[source_index(
            width as int,
            scale as int,
            i % (width * scale) as int,
            i / (width * scale) as int,
        )],
{
    let raster_width = (width * scale) as int;
    let raster_height = (height * scale) as int;
    assert(raster_width > 0 && scale > 0) by (nonlinear_arith)
        requires
            0 <= i < raster_width * raster_height,
            raster_width == width * scale,
            raster_height >= 0,
    ;
    let x = i % raster_width;
    let y = i / raster_width;
    vstd::arithmetic::div_mod::lemma_fundamental_div_mod(i, raster_width);
    vstd::arithmetic::div_mod::lemma_mod_bound(i, raster_width);
    assert(0 <= y < raster_height) by (nonlinear_arith)
        requires
            0 <= i < raster_width * raster_height,
            i == raster_width * y + x,
            0 <= x < raster_width,
    ;
    assert(0 <= x / (scale as int) < width) by (nonlinear_arith)
        requires
            0 <= x < width * scale,
            scale > 0,
    ;
    assert(0 <= y / (scale as int) < height) by (nonlinear_arith)
        requires
            0 <= y < height * scale,
            scale > 0,
    ;
    lemma_position_in_range(x / (scale as int), y / (scale as int), width as int, height as int);
}

/// Every cell of the board fills a `scale` by `scale` block of the raster:
/// the pixel `dx` columns and `dy` rows into the block of cell `(x, y)` shows
/// that cell.
pub proof fn lemma_upscaled_blocks(
    cells: Seq<u8>,
    width: nat,
    height: nat,
    scale: nat,
    x: int,
    y: int,
    dx: int,
    dy: int,
)
    requires
        0 <= x < width,
        0 <= y < height,
        0 <= dx < scale,
        0 <= dy < scale,
    ensures
        0 <= (y * scale + dy) * (width * scale) + (x * scale + dx) < upscaled(
            cells,
            width,
            height,
            scale,
        ).len(),
        upscaled(cells, width, height, scale)[(y * scale + dy) * (width * scale) + (x * scale
            + dx)] == cells[y * width + x],
{
    let rx = x * scale + dx;
    let ry = y * scale + dy;
    let raster_width = (width * scale) as int;
    let raster_height = (height * scale) as int;
    lemma_block_position(x, dx, width as int, scale as int);
    lemma_block_position(y, dy, height as int, scale as int);
    lemma_position_in_range(rx, ry, raster_width, raster_height);
    lemma_position_of_index(rx, ry, raster_width);
}

/// Sampling the raster of a board gives the board back.
pub proof fn lemma_sampled_upscaled(cells: Seq<u8>, width: nat, height: nat, scale: nat)
    requires
        cells.len() == width * height,
        scale >= 1,
    ensures
        sampled(upscaled(cells, width, height, scale), width, height, scale) == cells,
{
    let raster = upscaled(cells, width, height, scale);
    let back = sampled(raster, width, height, scale);
    assert forall|i: int| 0 <= i < cells.len() implies back[i] == cells[i] by {
        let w = width as int;
        assert(w > 0) by (nonlinear_arith)
            requires
                0 <= i < width * height,
                w == width,
        ;
        let x = i % w;
        let y = i / w;
        vstd::arithmetic::div_mod::lemma_fundamental_div_mod(i, w);
        vstd::arithmetic::div_mod::lemma_mod_bound(i, w);
        assert(0 <= y < height) by (nonlinear_arith)
            requires
                0 <= i < width * height,
                i == w * y + x,
                0 <= x < w,
                w == width,
        ;
        assert(w * y == y * w) by (nonlinear_arith);
        lemma_upscaled_blocks(cells, width, height, scale, x, y, 0, 0);
    }
    assert(back =~= cells);
}

/// Magnifies a board `scale` times in each direction. `img` holds the cells
/// of a `width` by `height` board, row after row.
pub fn up_scale(img: &Vec<u8>, width: usize, height: usize, scale: usize) -> (raster: Vec<u8>)
    requires
        img@.len() == width * height,
        width * height * scale * scale <= usize::MAX,
    ensures
        raster@ == upscaled(img@, width as nat, height as nat, scale as nat),
        raster@.len() == width * height * scale * scale,
{
    if width == 0 || height == 0 || scale == 0 {
        assert((width * scale) * (height * scale) == 0 && width * height * scale * scale == 0)
            by (nonlinear_arith)
            requires
                width == 0 || height == 0 || scale == 0,
        ;
        let raster: Vec<u8> = Vec::new();
        assert(raster@ =~= upscaled(img@, width as nat, height as nat, scale as nat));
        return raster;
    }
    assert(width * scale <= usize::MAX && height * scale <= usize::MAX && (width * scale) * (height
        * scale) == width * height * scale * scale) by (nonlinear_arith)
        requires
            width >= 1,
            height >= 1,
            scale >= 1,
            width * height * scale * scale <= usize::MAX,
    ;
    assert(img.len() == width * height);
    let raster_width: usize = width * scale;
    let raster_height: usize = height * scale;
    let mut raster: Vec<u8> = Vec::new();
    let mut ry: usize = 0;
    while ry < raster_height
        invariant
            img@.len() == width * height,
            width * height <= usize::MAX,
            scale >= 1,
            raster_width == width * scale,
            raster_height == height * scale,
            ry <= raster_height,
            raster@.len() == ry * raster_width,
            forall|i: int|
                0 <= i < raster@.len() ==> raster@[i] == img@[source_index(
                    width as int,
                    scale as int,
                    i % (raster_width as int),
                    i / (raster_width as int),
                )],
        decreases raster_height - ry,
    {
        let y: usize = ry / scale;
        assert(y < height) by (nonlinear_arith)
            requires
                y == ry / scale,
                ry < height * scale,
                scale >= 1,
        ;
        let mut rx: usize = 0;
        while rx < raster_width
            invariant
                img@.len() == width * height,
                width * height <= usize::MAX,
                scale >= 1,
                raster_width == width * scale,
                raster_height == height * scale,
                ry < raster_height,
                y == ry / scale,
                y < height,
                rx <= raster_width,
                raster@.len() == ry * raster_width + rx,
                forall|i: int|
                    0 <= i < raster@.len() ==> raster@[i] == img@[source_index(
                        width as int,
                        scale as int,
                        i % (raster_width as int),
                        i / (raster_width as int),
                    )],
            decreases raster_width - rx,
        {
            let x: usize = rx / scale;
            assert(x < width) by (nonlinear_arith)
                requires
                    x == rx / scale,
                    rx < width * scale,
                    scale >= 1,
            ;
            proof {
                lemma_position_in_range(x as int, y as int, width as int, height as int);
                lemma_position_of_index(rx as int, ry as int, raster_width as int);
            }
            raster.push(img[y * width + x]);
            rx += 1;
        }
        assert((ry + 1) * raster_width == ry * raster_width + raster_width) by (nonlinear_arith);
        ry += 1;
    }
    assert(raster_height * raster_width == raster_width * raster_height) by (nonlinear_arith);
    assert(raster@ =~= upscaled(img@, width as nat, height as nat, scale as nat));
    raster
}

} // verus!
