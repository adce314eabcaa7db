//! Quantised pixels and grids of them.

use vstd::prelude::*;

verus! {

/// One pixel after quantisation: three channels of eight bits each.
#[derive(Clone, Copy, Debug, PartialEq, Eq, Structural)]
pub struct Rgb8 {
    pub r: u8,
    pub g: u8,
    pub b: u8,
}

/// The rows of a pixel grid as plain sequences, in storage order.
pub open spec fn grid_rows(image: Seq<Vec<Rgb8>>) -> Seq<Seq<Rgb8>> {
    Seq::new(image.len(), |j: int| image[j]@)
}

/// Whether `rows` is a grid of `height` rows that all hold `width` pixels.
pub open spec fn is_grid(rows: Seq<Seq<Rgb8>>, width: nat, height: nat) -> bool {
    &&& rows.len() == height
    &&& forall|j: int| 0 <= j < rows.len() ==> (#[trigger] rows[j]).len() == width
}

/// Tells whether `image` has exactly `height` rows of `width` pixels each.
pub fn has_shape(image: &Vec<Vec<Rgb8>>, width: usize, height: usize) -> (ok: bool)
    ensures
        ok == is_grid(grid_rows(image@), width as nat, height as nat),
{
    if image.len() != height {
        return false;
    }
    let mut j: usize = 0;
    while j < height
        invariant
            j <= height,
            image.len() == height,
            forall|k: int| 0 <= k < j ==> (#[trigger] grid_rows(image@)[k]).len() == width,
        decreases height - j,
    {
        if image[j].len() != width {
            assert(grid_rows(image@)[j as int].len() != width);
            return false;
        }
        j += 1;
    }
    true
}

} // verus!
