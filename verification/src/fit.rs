//! The collision predicate gating every piece movement.

use vstd::prelude::*;

verus! {

use crate::field::GameField;
use crate::shapes::rotate;
use crate::shapes::rotate_index;
use crate::shapes::shape_cell;
use crate::shapes::shape_occupied;

/// Whether the piece `(shape, rot)`, its local grid's top-left corner at
/// `(pos_x, pos_y)`, fits the field: every occupied local cell of the
/// rotated shape lands inside the grid on an empty cell.  Borders and
/// locked blocks are non-zero, so both count as collisions.
pub open spec fn piece_fits(f: GameField, shape: int, rot: int, pos_x: int, pos_y: int) -> bool {
    forall|px: int, py: int|
        0 <= px < 4 && 0 <= py < 4 && shape_occupied(shape, #[trigger] rotate_index(px, py, rot))
            ==> 0 <= pos_x + px < f.width && 0 <= pos_y + py < f.height && f.spec_get(
            pos_x + px,
            pos_y + py,
        ) == 0
}

/// `piece_fits` restricted to the first `n` local cells in row-major scan
/// order, local cell `j` being `(j % 4, j / 4)`.
pub open spec fn fits_upto(f: GameField, shape: int, rot: int, pos_x: int, pos_y: int, n: int) -> bool {
    forall|j: int|
        0 <= j < n && shape_occupied(shape, #[trigger] rotate_index(j % 4, j / 4, rot)) ==> 0
            <= pos_x + j % 4 < f.width && 0 <= pos_y + j / 4 < f.height && f.spec_get(
            pos_x + j % 4,
            pos_y + j / 4,
        ) == 0
}

/// Scanning all 16 local cells checks exactly the occupied cells.
proof fn lemma_fits_upto_full(f: GameField, shape: int, rot: int, pos_x: int, pos_y: int)
    ensures
        fits_upto(f, shape, rot, pos_x, pos_y, 16) == piece_fits(f, shape, rot, pos_x, pos_y),
{
    if fits_upto(f, shape, rot, pos_x, pos_y, 16) {
        assert forall|px: int, py: int|
            0 <= px < 4 && 0 <= py < 4 && shape_occupied(
                shape,
                #[trigger] rotate_index(px, py, rot),
            ) implies 0 <= pos_x + px < f.width && 0 <= pos_y + py < f.height && f.spec_get(
            pos_x + px,
            pos_y + py,
        ) == 0 by {
            let j = py * 4 + px;
            assert(j % 4 == px && j / 4 == py);
            assert(shape_occupied(shape, rotate_index(j % 4, j / 4, rot)));
        }
    }
}

/// A piece that fits has its local grid's corner close to the grid: some
/// occupied cell lies inside, and occupied cells sit at offsets `0..4`.
pub proof fn lemma_fits_bounds(f: GameField, shape: int, rot: int, x: int, y: int)
    requires
        0 <= shape < 7,
        piece_fits(f, shape, rot, x, y),
    ensures
        -3 <= x < f.width,
        -3 <= y < f.height,
{
    crate::shapes::lemma_shape_has_cell(shape, rot);
    let (px, py) = choose|px: int, py: int|
        0 <= px < 4 && 0 <= py < 4 && shape_occupied(shape, #[trigger] rotate_index(px, py, rot));
    assert(0 <= x + px < f.width && 0 <= y + py < f.height);
}

/// Pure fit test: true exactly when every occupied cell of the rotated
/// shape lands inside the field on an empty cell.
pub fn does_piece_fit(
    field: &GameField,
    shape_index: usize,
    rotation: i32,
    pos_x: i32,
    pos_y: i32,
) -> (fits: bool)
    requires
        field.wf(),
        shape_index < 7,
    ensures
        fits == piece_fits(
            *field,
            shape_index as int,
            rotation as int,
            pos_x as int,
            pos_y as int,
        ),
{
    let mut ok = true;
    let mut j: usize = 0;
    while j < 16
        invariant
            field.wf(),
            shape_index < 7,
            j <= 16,
            ok == fits_upto(
                *field,
                shape_index as int,
                rotation as int,
                pos_x as int,
                pos_y as int,
                j as int,
            ),
        decreases 16 - j,
    {
        let px = (j % 4) as i32;
        let py = (j / 4) as i32;
        let idx = rotate(px, py, rotation);
        if shape_cell(shape_index, idx) {
            let fx: i64 = pos_x as i64 + px as i64;
            let fy: i64 = pos_y as i64 + py as i64;
            if fx < 0 || fx >= field.width as i64 || fy < 0 || fy >= field.height as i64 {
                ok = false;
            } else if field.get_block(fx as usize, fy as usize) != 0 {
                ok = false;
            }
        }
        proof {
            assert(px as int == j as int % 4 && py as int == j as int / 4);
        }
        j += 1;
    }
    proof {
        lemma_fits_upto_full(
            *field,
            shape_index as int,
            rotation as int,
            pos_x as int,
            pos_y as int,
        );
    }
    ok
}

} // verus!
