//! Plain-text PPM (`P3`): the text of an image file, ready to be written out.
//!
//! The text starts with the header `P3`, the width and the height, and the
//! channel maximum 255. One line per pixel follows, `r g b`. Rows are stored
//! bottom row first and written top row first, so the row with the highest
//! index opens the body.

use vstd::prelude::*;
use crate::decimal::{decimal, push_decimal};
use crate::pixel::{grid_rows, is_grid, Rgb8};

verus! {

/// ASCII `P`, the first byte of the file.
pub const LETTER_P: u8 = 80;

/// ASCII `3`: after `P`, it says that the pixels follow as decimal text.
pub const DIGIT_3: u8 = 51;

/// ASCII space, between the numbers of a line.
pub const SPACE: u8 = 32;

/// ASCII line feed, at the end of every line.
pub const NEWLINE: u8 = 10;

/// The largest value of a channel, which the header announces.
pub const CHANNEL_MAX: u8 = 255;

/// Width and height of the test image.
pub const TEST_IMAGE_SIZE: usize = 256;

/// The header: `P3`, then width and height on one line, then the channel
/// maximum.
pub open spec fn header_text(width: nat, height: nat) -> Seq<u8> {
    seq![LETTER_P, DIGIT_3, NEWLINE] + decimal(width) + seq![SPACE] + decimal(height)
        + seq![NEWLINE] + decimal(CHANNEL_MAX as nat) + seq![NEWLINE]
}

/// The line of one pixel: red, green and blue in decimal.
pub open spec fn pixel_line(p: Rgb8) -> Seq<u8> {
    decimal(p.r as nat) + seq![SPACE] + decimal(p.g as nat) + seq![SPACE] + decimal(p.b as nat)
        + seq![NEWLINE]
}

/// The lines of one row, left to right.
pub open spec fn row_text(row: Seq<Rgb8>) -> Seq<u8>
    decreases row.len(),
{
    if row.len() == 0 {
        Seq::empty()
    } else {
        row_text(row.drop_last()) + pixel_line(row.last())
    }
}

/// The lines of all rows, the row with the highest index first.
pub open spec fn body_text(rows: Seq<Seq<Rgb8>>) -> Seq<u8>
    decreases rows.len(),
{
    if rows.len() == 0 {
        Seq::empty()
    } else {
        row_text(rows.last()) + body_text(rows.drop_last())
    }
}

/// The whole file: header, then body.
pub open spec fn ppm_text(width: nat, height: nat, rows: Seq<Seq<Rgb8>>) -> Seq<u8> {
    header_text(width, height) + body_text(rows)
}

/// Appends the header to `out`.
fn push_header(out: &mut Vec<u8>, width: usize, height: usize)
    ensures
        final(out)@ == old(out)@ + header_text(width as nat, height as nat),
{
    out.push(LETTER_P);
    out.push(DIGIT_3);
    out.push(NEWLINE);
    push_decimal(out, width as u64);
    out.push(SPACE);
    push_decimal(out, height as u64);
    out.push(NEWLINE);
    push_decimal(out, CHANNEL_MAX as u64);
    out.push(NEWLINE);
    assert(out@ =~= old(out)@ + header_text(width as nat, height as nat));
}

/// Appends the line of one pixel to `out`.
fn push_pixel_line(out: &mut Vec<u8>, p: Rgb8)
    ensures
        final(out)@ == old(out)@ + pixel_line(p),
{
    push_decimal(out, p.r as u64);
    out.push(SPACE);
    push_decimal(out, p.g as u64);
    out.push(SPACE);
    push_decimal(out, p.b as u64);
    out.push(NEWLINE);
    assert(out@ =~= old(out)@ + pixel_line(p));
}

/// Appends the lines of one row to `out`.
fn push_row(out: &mut Vec<u8>, row: &Vec<Rgb8>)
    ensures
        final(out)@ == old(out)@ + row_text(row@),
{
    let mut i: usize = 0;
    assert(row@.take(0) =~= Seq::<Rgb8>::empty());
    while i < row.len()
        invariant
            i <= row.len(),
            out@ == old(out)@ + row_text(row@.take(i as int)),
        decreases row.len() - i,
    {
        push_pixel_line(out, row[i]);
        proof {
            let next = row@.take(i + 1);
            assert(next.drop_last() =~= row@.take(i as int));
            assert(next.last() == row@[i as int]);
        }
        i += 1;
    }
    assert(row@.take(row.len() as int) =~= row@);
}

/// Step `step` of a ramp that reaches full scale at step `last`: the whole
/// part of `255.999 * step / last`.
pub open spec fn ramp_level(step: nat, last: nat) -> nat {
    (255999 * step) / (1000 * last)
}

/// The test image: red grows with the column, green with the row, and blue
/// is a quarter of full scale everywhere.
pub open spec fn test_grid() -> Seq<Seq<Rgb8>> {
    Seq::new(
        TEST_IMAGE_SIZE as nat,
        |j: int|
            Seq::new(
                TEST_IMAGE_SIZE as nat,
                |i: int| (Rgb8 { r: i as u8, g: j as u8, b: 63 }),
            ),
    )
}

/// On a ramp of 256 steps every step is its own level.
pub proof fn lemma_ramp_level_full_scale(step: nat)
    requires
        step <= 255,
    ensures
        ramp_level(step, 255) == step,
{
    assert(1000 * 255 == 255000) by (nonlinear_arith);
    assert((255999 * step) / 255000 == step);
}

/// Computes [`ramp_level`].
pub fn ramp(step: u32, last: u32) -> (level: u64)
    requires
        last > 0,
    ensures
        level == ramp_level(step as nat, last as nat),
{
    let scaled: u64 = 255999 * (step as u64);
    let unit: u64 = 1000 * (last as u64);
    scaled / unit
}

/// Builds the test image, 256 pixels each way.
pub fn test_image() -> (image: Vec<Vec<Rgb8>>)
    ensures
        grid_rows(image@) == test_grid(),
{
    let size: u32 = 256;
    let blue: u64 = ramp(1, 4);
    assert(blue == 63) by {
        assert(1000 * 4 == 4000) by (nonlinear_arith);
        assert((255999 * 1) / 4000 == 63);
    }
    let mut image: Vec<Vec<Rgb8>> = Vec::new();
    let mut j: u32 = 0;
    while j < size
        invariant
            size == 256,
            blue == 63,
            j <= size,
            image.len() == j,
            forall|k: int| 0 <= k < j ==> (#[trigger] image[k])@ == test_grid()[k],
        decreases size - j,
    {
        let green: u64 = ramp(j, size - 1);
        proof {
            lemma_ramp_level_full_scale(j as nat);
        }
        let mut row: Vec<Rgb8> = Vec::new();
        let mut i: u32 = 0;
        while i < size
            invariant
                size == 256,
                blue == 63,
                j < size,
                green == j,
                i <= size,
                row.len() == i,
                forall|k: int|
                    0 <= k < i ==> #[trigger] row[k] == (Rgb8 { r: k as u8, g: j as u8, b: 63 }),
            decreases size - i,
        {
            let red: u64 = ramp(i, size - 1);
            proof {
                lemma_ramp_level_full_scale(i as nat);
            }
            row.push(Rgb8 { r: red as u8, g: green as u8, b: blue as u8 });
            i += 1;
        }
        assert(row@ =~= test_grid()[j as int]);
        image.push(row);
        j += 1;
    }
    assert(grid_rows(image@) =~= test_grid());
    image
}

/// Writes a grid of `height` rows by `width` pixels as PPM text.
///
/// `image[0]` is the bottom row of the picture; the text lists the rows from
/// the top of the picture down, so `image[height - 1]` comes first.
pub fn write_image(width: usize, height: usize, image: Vec<Vec<Rgb8>>) -> (text: Vec<u8>)
    requires
        is_grid(grid_rows(image@), width as nat, height as nat),
    ensures
        text@ == ppm_text(width as nat, height as nat, grid_rows(image@)),
{
    let mut text: Vec<u8> = Vec::new();
    push_header(&mut text, width, height);
    let ghost rows = grid_rows(image@);
    let mut j: usize = height;
    assert(rows.take(j as int) =~= rows);
    while j > 0
        invariant
            j <= height,
            image.len() == height,
            rows == grid_rows(image@),
            text@ + body_text(rows.take(j as int)) == ppm_text(width as nat, height as nat, rows),
        decreases j,
    {
        j -= 1;
        let ghost before = text@;
        push_row(&mut text, &image[j]);
        proof {
            let upper = rows.take(j + 1);
            assert(upper.drop_last() =~= rows.take(j as int));
            assert(upper.last() == image[j as int]@);
            assert(text@ + body_text(rows.take(j as int)) =~= before + body_text(upper));
        }
    }
    assert(rows.take(0).len() == 0);
    assert(text@ =~= text@ + body_text(rows.take(0)));
    text
}

/// The text of the test image: a 256 by 256 colour ramp.
///
/// After the header come 65536 lines. The first 256 are `0 255 63` to
/// `255 255 63`, the last 256 are `0 0 63` to `255 0 63`.
pub fn write_test_image() -> (text: Vec<u8>)
    ensures
        text@ == ppm_text(TEST_IMAGE_SIZE as nat, TEST_IMAGE_SIZE as nat, test_grid()),
{
    write_image(TEST_IMAGE_SIZE, TEST_IMAGE_SIZE, test_image())
}

} // verus!
