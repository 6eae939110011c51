//! The shape table and the rotation transform.
//!
//! Each of the 7 tetromino shapes is a set of occupied cells in a 4x4 local
//! grid, stored row-major: the cell at local position `(x, y)` lives at index
//! `y * 4 + x` of the unrotated layout.  The rotation transform maps a local
//! position plus a rotation state to the index, in the unrotated layout, of
//! the cell that appears there after rotating.

use vstd::prelude::*;

verus! {

/// Number of distinct tetromino shapes.
pub const SHAPE_COUNT: usize = 7;

/// Occupancy of the 7 tetromino shapes over the 4x4 local grid.
///
/// Shape indices: 0 = I, 1 = T, 2 = O, 3 = L, 4 = J, 5 = S, 6 = Z.
pub open spec fn shape_occupied(shape: int, idx: int) -> bool {
    if shape == 0 {
        idx == 2 || idx == 6 || idx == 10 || idx == 14
    } else if shape == 1 {
        idx == 2 || idx == 5 || idx == 6 || idx == 10
    } else if shape == 2 {
        idx == 5 || idx == 6 || idx == 9 || idx == 10
    } else if shape == 3 {
        idx == 2 || idx == 5 || idx == 6 || idx == 9
    } else if shape == 4 {
        idx == 1 || idx == 5 || idx == 6 || idx == 10
    } else if shape == 5 {
        idx == 1 || idx == 5 || idx == 9 || idx == 10
    } else if shape == 6 {
        idx == 2 || idx == 6 || idx == 9 || idx == 10
    } else {
        false
    }
}

/// Whether cell `idx` of shape `shape`'s unrotated 4x4 layout is occupied.
pub fn shape_cell(shape: usize, idx: usize) -> (b: bool)
    requires
        shape < 7,
    ensures
        b == shape_occupied(shape as int, idx as int),
{
    match shape {
        0 => idx == 2 || idx == 6 || idx == 10 || idx == 14,
        1 => idx == 2 || idx == 5 || idx == 6 || idx == 10,
        2 => idx == 5 || idx == 6 || idx == 9 || idx == 10,
        3 => idx == 2 || idx == 5 || idx == 6 || idx == 9,
        4 => idx == 1 || idx == 5 || idx == 6 || idx == 10,
        5 => idx == 1 || idx == 5 || idx == 9 || idx == 10,
        _ => idx == 2 || idx == 6 || idx == 9 || idx == 10,
    }
}

/// Index, in the unrotated layout, of the cell that shows at local position
/// `(px, py)` once the shape is rotated by `r` quarter turns.  `r` is reduced
/// modulo 4 first, so every integer rotation state is meaningful.
pub open spec fn rotate_index(px: int, py: int, r: int) -> int {
    let rm = r % 4;
    if rm == 0 {
        py * 4 + px
    } else if rm == 1 {
        12 + py - px * 4
    } else if rm == 2 {
        15 - py * 4 - px
    } else {
        3 - py + px * 4
    }
}

/// Rotation transform over the 4x4 local grid: returns the index into a
/// shape's flat 16-cell occupancy layout where the block visually at
/// `(px, py)` under rotation state `r` is stored.
pub fn rotate(px: i32, py: i32, r: i32) -> (idx: usize)
    requires
        0 <= px < 4,
        0 <= py < 4,
    ensures
        idx == rotate_index(px as int, py as int, r as int),
        idx < 16,
{
    let t: i32 = r % 4;
    let rm: i32 = if t < 0 {
        t + 4
    } else {
        t
    };
    assert(rm == r as int % 4);
    let idx: i32 = if rm == 0 {
        py * 4 + px
    } else if rm == 1 {
        12 + py - px * 4
    } else if rm == 2 {
        15 - py * 4 - px
    } else {
        3 - py + px * 4
    };
    idx as usize
}

/// With rotation state 0 the transform is the identity on the row-major
/// layout: the cell at `(px, py)` is stored at index `py * 4 + px`.
pub proof fn lemma_rotate_identity()
    ensures
        forall|px: int, py: int|
            0 <= px < 4 && 0 <= py < 4 ==> rotate_index(px, py, 0) == py * 4 + px,
{
}

/// Whether some local cell of the 4x4 grid is stored at index `idx` under
/// rotation state `r`.
pub open spec fn rotate_reaches(r: int, idx: int) -> bool {
    exists|px: int, py: int|
        0 <= px < 4 && 0 <= py < 4 && #[trigger] rotate_index(px, py, r) == idx
}

/// For every fixed rotation state the transform is a bijection between the
/// 16 local cells and the 16 indices of the flat layout: it stays within
/// `0..16`, maps distinct cells to distinct indices, and reaches every index.
pub proof fn lemma_rotate_bijective(r: int)
    ensures
        forall|px: int, py: int|
            0 <= px < 4 && 0 <= py < 4 ==> 0 <= #[trigger] rotate_index(px, py, r) < 16,
        forall|px1: int, py1: int, px2: int, py2: int|
            0 <= px1 < 4 && 0 <= py1 < 4 && 0 <= px2 < 4 && 0 <= py2 < 4
                && #[trigger] rotate_index(px1, py1, r) == #[trigger] rotate_index(px2, py2, r)
                ==> px1 == px2 && py1 == py2,
        forall|idx: int| 0 <= idx < 16 ==> #[trigger] rotate_reaches(r, idx),
{
    let rm = r % 4;
    assert(0 <= rm < 4);
    assert forall|idx: int| 0 <= idx < 16 implies #[trigger] rotate_reaches(r, idx) by {
        if rm == 0 {
            let px = idx % 4;
            let py = idx / 4;
            assert(rotate_index(px, py, r) == idx);
        } else if rm == 1 {
            let py = idx % 4;
            let px = 3 - idx / 4;
            assert(rotate_index(px, py, r) == idx);
        } else if rm == 2 {
            let px = (15 - idx) % 4;
            let py = (15 - idx) / 4;
            assert(rotate_index(px, py, r) == idx);
        } else {
            let py = (3 - idx) % 4;
            let px = (idx - 3 + py) / 4;
            assert(rotate_index(px, py, r) == idx);
        }
    }
}

/// Every shape keeps at least one occupied cell under every rotation state.
pub proof fn lemma_shape_has_cell(shape: int, r: int)
    requires
        0 <= shape < 7,
    ensures
        exists|px: int, py: int|
            0 <= px < 4 && 0 <= py < 4 && shape_occupied(
                shape,
                #[trigger] rotate_index(px, py, r),
            ),
{
    lemma_rotate_bijective(r);
    let idx0: int = if shape == 4 || shape == 5 {
        1
    } else if shape == 2 {
        5
    } else {
        2
    };
    assert(shape_occupied(shape, idx0));
    assert(rotate_reaches(r, idx0));
    let (px, py) = choose|px: int, py: int|
        0 <= px < 4 && 0 <= py < 4 && #[trigger] rotate_index(px, py, r) == idx0;
    assert(shape_occupied(shape, rotate_index(px, py, r)));
}

} // verus!
