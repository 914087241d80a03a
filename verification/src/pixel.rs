use vstd::prelude::*;

verus! {

/// An RGB color with three independent 8-bit channels.
#[derive(Clone, Copy, PartialEq, Eq, Structural, Debug)]
pub struct Color {
    pub r: u8,
    pub g: u8,
    pub b: u8,
}

/// An integer grid coordinate; committed pixels always hold in-bounds ones.
#[derive(Clone, Copy, PartialEq, Eq, Structural, Debug)]
pub struct Loc {
    pub x: usize,
    pub y: usize,
}

impl Loc {
    /// Both axes lie in `[0, size - 1]`.
    pub open spec fn in_bounds(self, size: int) -> bool {
        self.x < size && self.y < size
    }

    /// The flat cell index of this coordinate in a row-major `size * size` grid.
    pub open spec fn cell_id(self, size: int) -> int {
        self.x * size + self.y
    }
}

/// A placed pixel: its color, its grid location, and the anchor point of the
/// blotch it belongs to. Immutable once created.
#[derive(Clone, Copy, PartialEq, Eq, Structural, Debug)]
pub struct Pixel {
    pub color: Color,
    pub loc: Loc,
    pub center: Loc,
}

/// Sum of squared per-channel differences between two colors.
pub open spec fn color_dist_sq_spec(a: Color, b: Color) -> int {
    (a.r - b.r) * (a.r - b.r) + (a.g - b.g) * (a.g - b.g) + (a.b - b.b) * (a.b - b.b)
}

/// Computes the squared color distance; at most `3 * 255 * 255`.
pub fn color_dist_sq(a: Color, b: Color) -> (d: u32)
    ensures
        d == color_dist_sq_spec(a, b),
        d <= 195075,
{
    let dr: i32 = a.r as i32 - b.r as i32;
    let dg: i32 = a.g as i32 - b.g as i32;
    let db: i32 = a.b as i32 - b.b as i32;
    proof {
        crate::numeric::lemma_square_bounded(dr as int, 255);
        crate::numeric::lemma_square_bounded(dg as int, 255);
        crate::numeric::lemma_square_bounded(db as int, 255);
    }
    (dr * dr + dg * dg + db * db) as u32
}

} // verus!
