//! The falling piece and its spawn rule.

use vstd::prelude::*;

verus! {

use crate::FIELD_WIDTH;

/// The currently falling piece: its shape, rotation state, and the field
/// coordinates of the top-left corner of its 4x4 local grid.
#[derive(Clone, Copy, PartialEq, Eq, Structural, Debug)]
pub struct CurrentPiece {
    /// Index into the shape table, `0..7`.
    pub shape_index: usize,
    /// Rotation state, reduced modulo 4 by the rotation transform.
    pub rotation: i32,
    /// Field column of the local grid's left edge; may be negative.
    pub x: i32,
    /// Field row of the local grid's top edge; may be negative.
    pub y: i32,
}

impl CurrentPiece {
    /// Spawn rule for a field of width `field_width`: rotation state 0,
    /// horizontally centered at `field_width / 2 - 2`, at the top row.
    pub fn spawn(shape_index: usize, field_width: usize) -> (p: CurrentPiece)
        requires
            field_width <= 0x4000_0000,
        ensures
            p.shape_index == shape_index,
            p.rotation == 0,
            p.x == field_width as int / 2 - 2,
            p.y == 0,
    {
        CurrentPiece { shape_index, rotation: 0, x: (field_width / 2) as i32 - 2, y: 0 }
    }

    /// Spawn rule for the default field width.
    pub fn new(shape_index: usize) -> (p: CurrentPiece)
        ensures
            p.shape_index == shape_index,
            p.rotation == 0,
            p.x == FIELD_WIDTH as int / 2 - 2,
            p.y == 0,
    {
        CurrentPiece::spawn(shape_index, FIELD_WIDTH)
    }
}

} // verus!
