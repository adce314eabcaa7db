//! Laying a pixel grid out as raw RGB bytes, ready for a bitmap encoder.
//!
//! The grid is stored bottom row first; a bitmap counts its rows from the
//! top. So grid row `j` lands on bitmap row `height - 1 - j`. The bytes run
//! row by row, left to right, three per pixel: red, green, blue.

use vstd::prelude::*;
use crate::pixel::{grid_rows, is_grid, Rgb8};

verus! {

/// An `image::RgbImage`: the buffer in which the pixels are laid out.
#[verifier::external_body]
pub struct Raster {
    buffer: image::RgbImage,
}

/// The pixels that a raster holds, by column `x` and row `y`.
pub uninterp spec fn raster_pixels(raster: Raster) -> Map<(int, int), Rgb8>;

/// Width and height that a raster was made with.
pub uninterp spec fn raster_extent(raster: Raster) -> (int, int);

/// The positions inside a bitmap of the given width and height.
pub open spec fn positions(width: int, height: int) -> Set<(int, int)> {
    Set::new(|at: (int, int)| 0 <= at.0 < width && 0 <= at.1 < height)
}

/// Channel `c` of a pixel: 0 is red, 1 is green, anything else is blue.
pub open spec fn channel(p: Rgb8, c: int) -> u8 {
    if c == 0 {
        p.r
    } else if c == 1 {
        p.g
    } else {
        p.b
    }
}

/// The raw bytes of a grid of `height` rows by `width` pixels: byte `k`
/// belongs to pixel `k / 3`, counted along the rows from the top left, and
/// the top row of the bitmap is the last row of the grid.
pub open spec fn rgb_layout(width: nat, height: nat, rows: Seq<Seq<Rgb8>>) -> Seq<u8> {
    Seq::new(
        3 * width * height,
        |k: int| channel(rows[height - 1 - (k / 3) / (width as int)][(k / 3) % (width as int)], k % 3),
    )
}

/// `image::RgbImage::new`: a buffer of the given width and height with a
/// pixel at every position inside. The call counts three bytes per pixel,
/// first along one row and then over all rows, and panics when the bytes of
/// one row do not fit in a `usize` or when all of them are more than a vector
/// can hold. The two preconditions rule out the one and the other.
#[verifier::external_body]
fn blank(width: u32, height: u32) -> (raster: Raster)
    requires
        3 * width <= usize::MAX,
        3 * width * height <= isize::MAX,
    ensures
        raster_extent(raster) == (width as int, height as int),
        raster_pixels(raster).dom() == positions(width as int, height as int),
{
    Raster { buffer: image::RgbImage::new(width, height) }
}

/// `image::ImageBuffer::put_pixel`: replaces the pixel at `(x, y)` and
/// leaves every other pixel and the extent as they were. The call panics
/// when `(x, y)` lies outside the image, which the precondition rules out.
#[verifier::external_body]
fn put(raster: &mut Raster, x: u32, y: u32, p: Rgb8)
    requires
        x < raster_extent(*old(raster)).0,
        y < raster_extent(*old(raster)).1,
    ensures
        raster_extent(*final(raster)) == raster_extent(*old(raster)),
        raster_pixels(*final(raster)) == raster_pixels(*old(raster)).insert(
            (x as int, y as int),
            p,
        ),
{
    raster.buffer.put_pixel(x, y, image::Rgb([p.r, p.g, p.b]));
}

/// `image::ImageBuffer::into_raw`: the bytes behind the buffer. The pixel at
/// `(x, y)` of an image of width `w` owns the three bytes from index
/// `3 * (y * w + x)` on, red first, and there are no bytes but these.
#[verifier::external_body]
fn into_raw(raster: Raster) -> (bytes: Vec<u8>)
    ensures
        bytes@.len() == 3 * raster_extent(raster).0 * raster_extent(raster).1,
        forall|x: int, y: int|
            0 <= x < raster_extent(raster).0 && 0 <= y < raster_extent(raster).1 ==> bytes@[3 * (y
                * raster_extent(raster).0 + x)] == (#[trigger] raster_pixels(raster)[(x, y)]).r,
        forall|x: int, y: int|
            0 <= x < raster_extent(raster).0 && 0 <= y < raster_extent(raster).1 ==> bytes@[3 * (y
                * raster_extent(raster).0 + x) + 1] == (#[trigger] raster_pixels(raster)[(x, y)]).g,
        forall|x: int, y: int|
            0 <= x < raster_extent(raster).0 && 0 <= y < raster_extent(raster).1 ==> bytes@[3 * (y
                * raster_extent(raster).0 + x) + 2] == (#[trigger] raster_pixels(raster)[(x, y)]).b,
{
    raster.buffer.into_raw()
}

/// Lays the grid out in a raster, top row of the picture first.
fn fill(width: u32, height: u32, image: &Vec<Vec<Rgb8>>) -> (raster: Raster)
    requires
        is_grid(grid_rows(image@), width as nat, height as nat),
        3 * width <= usize::MAX,
        3 * width * height <= isize::MAX,
    ensures
        raster_extent(raster) == (width as int, height as int),
        raster_pixels(raster).dom() == positions(width as int, height as int),
        forall|x: int, y: int|
            0 <= x < width && 0 <= y < height ==> #[trigger] raster_pixels(raster)[(x, y)]
                == grid_rows(image@)[height - 1 - y][x],
{
    let mut raster = blank(width, height);
    let ghost rows = grid_rows(image@);
    let mut y: u32 = 0;
    while y < height
        invariant
            y <= height,
            rows == grid_rows(image@),
            is_grid(rows, width as nat, height as nat),
            raster_extent(raster) == (width as int, height as int),
            raster_pixels(raster).dom() == positions(width as int, height as int),
            forall|x: int, v: int|
                0 <= x < width && 0 <= v < y ==> #[trigger] raster_pixels(raster)[(x, v)]
                    == rows[height - 1 - v][x],
        decreases height - y,
    {
        let row = &image[(height - 1 - y) as usize];
        assert(row@ == rows[height - 1 - y]);
        let mut x: u32 = 0;
        while x < width
            invariant
                x <= width,
                y < height,
                rows == grid_rows(image@),
                is_grid(rows, width as nat, height as nat),
                row@ == rows[height - 1 - y],
                raster_extent(raster) == (width as int, height as int),
                raster_pixels(raster).dom() == positions(width as int, height as int),
                forall|u: int, v: int|
                    0 <= u < width && 0 <= v < y ==> #[trigger] raster_pixels(raster)[(u, v)]
                        == rows[height - 1 - v][u],
                forall|u: int|
                    0 <= u < x ==> #[trigger] raster_pixels(raster)[(u, y as int)] == row@[u],
            decreases width - x,
        {
            let ghost before = raster_pixels(raster);
            put(&mut raster, x, y, row[x as usize]);
            assert(positions(width as int, height as int).contains((x as int, y as int)));
            assert(raster_pixels(raster).dom() =~= before.dom());
            x += 1;
        }
        y += 1;
    }
    raster
}

/// Where byte `k` of a bitmap of width `w` and height `h` belongs: pixel
/// `k / 3` sits in column `(k / 3) % w` of row `(k / 3) / w`, which is inside
/// the bitmap, and the byte is channel `k % 3` of it.
proof fn lemma_byte_position(k: int, w: int, h: int)
    requires
        0 <= k < 3 * w * h,
        0 <= w,
        0 <= h,
    ensures
        0 <= (k / 3) % w < w,
        0 <= (k / 3) / w < h,
        3 * (((k / 3) / w) * w + (k / 3) % w) + k % 3 == k,
{
    let q = k / 3;
    assert(0 < w && 0 <= q < w * h) by (nonlinear_arith)
        requires
            0 <= k < 3 * w * h,
            0 <= w,
            0 <= h,
            q == k / 3,
    ;
    assert(0 <= q % w < w && 0 <= q / w < h && (q / w) * w + q % w == q) by (nonlinear_arith)
        requires
            0 < w,
            0 <= q < w * h,
    ;
}

/// The raw RGB bytes of a grid of `height` rows by `width` pixels, as a
/// bitmap encoder takes them: top row of the picture first.
///
/// `image[0]` is the bottom row of the picture, so the pixel at column `x`
/// of grid row `j` fills the three bytes from `3 * ((height - 1 - j) * width + x)`
/// on. The bytes of one row must fit in a `usize`, also where there are no
/// rows, and the bytes of all rows in a vector.
pub fn rgb_bytes(width: u32, height: u32, image: &Vec<Vec<Rgb8>>) -> (bytes: Vec<u8>)
    requires
        is_grid(grid_rows(image@), width as nat, height as nat),
        3 * width <= usize::MAX,
        3 * width * height <= isize::MAX,
    ensures
        bytes@ == rgb_layout(width as nat, height as nat, grid_rows(image@)),
{
    let raster = fill(width, height, image);
    let bytes = into_raw(raster);
    proof {
        let rows = grid_rows(image@);
        let w = width as int;
        let h = height as int;
        let layout = rgb_layout(width as nat, height as nat, rows);
        assert(bytes@.len() == layout.len());
        assert forall|k: int| 0 <= k < layout.len() implies bytes@[k] == layout[k] by {
            lemma_byte_position(k, w, h);
            let x = (k / 3) % w;
            let y = (k / 3) / w;
            let p = raster_pixels(raster)[(x, y)];
            assert(p == rows[h - 1 - y][x]);
        }
        assert(bytes@ =~= layout);
    }
    bytes
}

} // verus!
