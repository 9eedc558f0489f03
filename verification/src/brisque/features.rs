//! Neighbour selection for the pairwise products of the BRISQUE features,
//! and border handling of the bicubic half-resolution resampling.
use vstd::prelude::*;

verus! {

/// Direction of a pairwise product: each cell is paired with its neighbour
/// to the right, below, below-right or below-left.
#[derive(PartialEq, Eq, Structural, Clone, Copy, Debug)]
pub enum Shift {
    Horizontal,
    Vertical,
    Diagonal,
    AntiDiagonal,
}

impl Shift {
    /// Row offset of the neighbour.
    pub open spec fn row_offset(self) -> int {
        match self {
            Shift::Horizontal => 0,
            _ => 1,
        }
    }

    /// Column offset of the neighbour.
    pub open spec fn col_offset(self) -> int {
        match self {
            Shift::Vertical => 0,
            Shift::AntiDiagonal => -1,
            _ => 1,
        }
    }
}

/// Flat index of the neighbour of cell (`row`, `col`) in direction
/// `shift`, or `None` when that neighbour lies outside the grid.
pub open spec fn neighbor(w: int, h: int, row: int, col: int, shift: Shift) -> Option<int> {
    let r = row + shift.row_offset();
    let c = col + shift.col_offset();
    if r < h && 0 <= c < w {
        Some(r * w + c)
    } else {
        None
    }
}

/// The neighbour of cell (`row`, `col`) of a `width`×`height` grid in
/// direction `shift`, if it is inside the grid.
pub fn neighbor_index(width: usize, height: usize, row: usize, col: usize, shift: Shift) -> (r:
    Option<usize>)
    requires
        row < height,
        col < width,
        width * height <= usize::MAX,
    ensures
        r matches Some(j) ==> neighbor(width as int, height as int, row as int, col as int, shift)
            == Some(j as int) && j < width * height,
        r is None ==> neighbor(width as int, height as int, row as int, col as int, shift)
            is None,
{
    let down: bool = match shift {
        Shift::Horizontal => false,
        _ => true,
    };
    if down && row + 1 >= height {
        return None;
    }
    let r: usize = if down {
        row + 1
    } else {
        row
    };
    proof {
        assert(r * width + width <= width * height) by (nonlinear_arith)
            requires
                r < height,
        ;
    }
    match shift {
        Shift::Vertical => Some(r * width + col),
        Shift::AntiDiagonal => {
            if col == 0 {
                None
            } else {
                Some(r * width + (col - 1))
            }
        },
        _ => {
            if col + 1 >= width {
                None
            } else {
                Some(r * width + (col + 1))
            }
        },
    }
}

/// Clamps a source index of the bicubic kernel into `0 ..= size - 1`.
pub fn clamp_index(i: i32, size: usize) -> (r: usize)
    requires
        1 <= size <= i32::MAX,
    ensures
        r == (if i < 0 {
            0
        } else if i > size - 1 {
            size - 1
        } else {
            i as int
        }),
        r < size,
{
    let hi: i32 = size as i32 - 1;
    if i < 0 {
        0
    } else if i > hi {
        hi as usize
    } else {
        i as usize
    }
}

} // verus!
