use crate::machine::{cell_index, SCREEN_SIZE, SCREEN_W};
use vstd::prelude::*;

verus! {

/// Column and row of a display cell. The display is stored row by row, so
/// cell `i` lies in column `i mod 64` of row `i / 64`, and `cell_index`
/// leads from the two back to `i`.
pub fn pixel_position(cell: usize) -> (position: (usize, usize))
    ensures
        position.0 == cell % 64,
        position.1 == cell / 64,
        cell < SCREEN_SIZE ==> position.1 < 32 && cell_index(
            position.0 as int,
            position.1 as int,
        ) == cell,
{
    (cell % SCREEN_W, cell / SCREEN_W)
}

} // verus!
