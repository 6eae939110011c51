//! The playfield: the grid of locked cells with its permanent border.
//!
//! Cell values: `0` is empty, `1..=7` is a locked block tagged by the shape
//! that produced it, and `9` is the permanent border.  Every cell in column
//! `0`, in column `width - 1`, or in row `height - 1` is border; the
//! remaining cells are the playable interior.

use vstd::prelude::*;

verus! {

use crate::piece::CurrentPiece;
use crate::shapes::rotate;
use crate::shapes::rotate_index;
use crate::shapes::shape_cell;
use crate::shapes::shape_occupied;

/// Whether `(x, y)` is a border position of a `w` by `h` field.
pub open spec fn is_border(w: int, h: int, x: int, y: int) -> bool {
    x == 0 || x == w - 1 || y == h - 1
}

/// A freshly initialised `w` by `h` field: border cells 9, playable cells 0.
pub open spec fn fresh_field(f: GameField, w: int, h: int) -> bool {
    &&& f.wf()
    &&& f.width == w
    &&& f.height == h
    &&& forall|x: int, y: int|
        0 <= x < w && 0 <= y < h ==> #[trigger] f.spec_get(x, y) == (if is_border(w, h, x, y) {
            9u8
        } else {
            0u8
        })
}

/// The grid of locked cells, row-major, `width * height` cells.
pub struct GameField {
    /// Cell storage; `(x, y)` lives at index `y * width + x`.
    pub field: Vec<u8>,
    /// Number of columns, including the two border columns.
    pub width: usize,
    /// Number of rows, including the bottom border row.
    pub height: usize,
}

impl GameField {
    /// Well-formedness: sizes large enough to hold a border, small enough
    /// that `i32` piece coordinates span the grid, and a matching storage.
    pub open spec fn wf(self) -> bool {
        &&& 3 <= self.width
        &&& 2 <= self.height
        &&& self.width <= 0x4000_0000
        &&& self.height <= 0x4000_0000
        &&& self.width * self.height <= usize::MAX
        &&& self.field@.len() == self.width * self.height
    }

    /// Value of cell `(x, y)`; any out-of-range coordinate reads as the
    /// border sentinel 9, so callers need not special-case the edges.
    pub open spec fn spec_get(self, x: int, y: int) -> u8 {
        if 0 <= x < self.width && 0 <= y < self.height {
            self.field@[y * self.width + x]
        } else {
            9
        }
    }

    /// A fresh field: all playable cells 0, all border cells 9.
    pub fn new(width: usize, height: usize) -> (f: GameField)
        requires
            3 <= width <= 0x4000_0000,
            2 <= height <= 0x4000_0000,
            width * height <= usize::MAX,
        ensures
            fresh_field(f, width as int, height as int),
    {
        let mut cells: Vec<u8> = Vec::new();
        let mut y: usize = 0;
        let mut i: usize = 0;
        while y < height
            invariant
                3 <= width <= 0x4000_0000,
                2 <= height <= 0x4000_0000,
                width * height <= usize::MAX,
                y <= height,
                i == y * width,
                cells@.len() == i,
                forall|xx: int, yy: int|
                    0 <= xx < width && 0 <= yy < y ==> cells@[yy * width + xx] == (
                    if is_border(width as int, height as int, xx, yy) {
                        9u8
                    } else {
                        0u8
                    }),
            decreases height - y,
        {
            let mut x: usize = 0;
            proof {
                assert((y + 1) * width == y * width + width) by (nonlinear_arith);
                assert(y * width + width <= width * height) by (nonlinear_arith)
                    requires
                        y < height,
                ;
            }
            while x < width
                invariant
                    3 <= width <= 0x4000_0000,
                    2 <= height <= 0x4000_0000,
                    width * height <= usize::MAX,
                    y < height,
                    x <= width,
                    i == y * width + x,
                    y * width + width <= width * height,
                    cells@.len() == i,
                    forall|xx: int, yy: int|
                        0 <= xx < width && 0 <= yy < y ==> cells@[yy * width + xx] == (
                        if is_border(width as int, height as int, xx, yy) {
                            9u8
                        } else {
                            0u8
                        }),
                    forall|xx: int|
                        0 <= xx < x ==> cells@[y * width + xx] == (
                        if is_border(width as int, height as int, xx, y as int) {
                            9u8
                        } else {
                            0u8
                        }),
                decreases width - x,
            {
                if x == 0 || x == width - 1 || y == height - 1 {
                    cells.push(9);
                } else {
                    cells.push(0);
                }
                proof {
                    assert forall|xx: int, yy: int| 0 <= xx < width && 0 <= yy < y implies #[trigger]
                    (yy * width + xx) < y * width by {
                        assert(yy * width + width <= y * width) by (nonlinear_arith)
                            requires
                                yy < y,
                                width >= 0,
                        ;
                    }
                }
                x += 1;
                i += 1;
            }
            y += 1;
        }
        proof {
            assert(height * width == width * height) by (nonlinear_arith);
        }
        let f = GameField { field: cells, width, height };
        proof {
            assert forall|x: int, yy: int| 0 <= x < width && 0 <= yy < height implies
                #[trigger] f.spec_get(x, yy) == (if is_border(
                width as int,
                height as int,
                x,
                yy,
            ) {
                9u8
            } else {
                0u8
            }) by {
                assert(yy * width + x < width * height) by (nonlinear_arith)
                    requires
                        0 <= x < width,
                        0 <= yy < height,
                ;
            }
        }
        f
    }

    /// Read the cell at `(x, y)`, the border sentinel 9 when out of range.
    pub fn get_block(&self, x: usize, y: usize) -> (v: u8)
        requires
            self.wf(),
        ensures
            v == self.spec_get(x as int, y as int),
    {
        if x < self.width && y < self.height {
            proof {
                assert(y * self.width + x < self.width * self.height) by (nonlinear_arith)
                    requires
                        0 <= x < self.width,
                        0 <= y < self.height,
                ;
            }
            self.field[y * self.width + x]
        } else {
            9
        }
    }

    /// Write `value` to the cell at `(x, y)`; out-of-range writes are
    /// silently dropped.
    pub fn set_block(&mut self, x: usize, y: usize, value: u8)
        requires
            old(self).wf(),
        ensures
            final(self).wf(),
            final(self).width == old(self).width,
            final(self).height == old(self).height,
            forall|i: int, j: int|
                #[trigger] final(self).spec_get(i, j) == (if i == x && j == y && x < old(
                    self,
                ).width && y < old(self).height {
                    value
                } else {
                    old(self).spec_get(i, j)
                }),
    {
        if x < self.width && y < self.height {
            proof {
                assert(y * self.width + x < self.width * self.height) by (nonlinear_arith)
                    requires
                        0 <= x < self.width,
                        0 <= y < self.height,
                ;
            }
            let idx = y * self.width + x;
            self.field[idx] = value;
            proof {
                assert forall|i: int, j: int| #[trigger]
                    self.spec_get(i, j) == (if i == x && j == y {
                        value
                    } else {
                        old(self).spec_get(i, j)
                    }) by {
                    if 0 <= i < self.width && 0 <= j < self.height {
                        assert(0 <= j * self.width + i < self.width * self.height)
                            by (nonlinear_arith)
                            requires
                                0 <= i < self.width,
                                0 <= j < self.height,
                        ;
                        if i == x && j == y {
                            assert(j * self.width + i == idx);
                        } else if j != y {
                            assert(j * self.width + i != y * self.width + x) by (nonlinear_arith)
                                requires
                                    0 <= i < self.width,
                                    0 <= x < self.width,
                                    j != y,
                            ;
                            assert(self.field@[j * self.width + i] == old(self).field@[j
                                * self.width + i]);
                        } else {
                            assert(j * self.width + i != idx);
                        }
                    }
                }
            }
        }
    }

    /// Whether playable row `y`'s interior is completely occupied.
    fn row_full_at(&self, y: usize) -> (b: bool)
        requires
            self.wf(),
            y < self.height - 1,
        ensures
            b == row_is_full(*self, y as int),
    {
        let mut x: usize = 1;
        let mut full = true;
        while x < self.width - 1
            invariant
                self.wf(),
                y < self.height - 1,
                1 <= x <= self.width - 1,
                full == forall|xx: int| 1 <= xx < x ==> #[trigger] self.spec_get(xx, y as int) != 0,
            decreases self.width - 1 - x,
        {
            if self.get_block(x, y) == 0 {
                full = false;
            }
            x += 1;
        }
        full
    }

    /// Copy the interior of row `src` onto row `dst`; borders stay.
    fn copy_row_interior(&mut self, src: usize, dst: usize)
        requires
            old(self).wf(),
            src < old(self).height,
            dst < old(self).height,
        ensures
            final(self).wf(),
            final(self).width == old(self).width,
            final(self).height == old(self).height,
            forall|x: int, y: int|
                #[trigger] final(self).spec_get(x, y) == (if 1 <= x < old(self).width - 1 && y
                    == dst {
                    old(self).spec_get(x, src as int)
                } else {
                    old(self).spec_get(x, y)
                }),
    {
        let mut x: usize = 1;
        while x < self.width - 1
            invariant
                self.wf(),
                self.width == old(self).width,
                self.height == old(self).height,
                src < self.height,
                dst < self.height,
                1 <= x <= self.width - 1,
                forall|xx: int, yy: int|
                    #[trigger] self.spec_get(xx, yy) == (if 1 <= xx < x && yy == dst {
                        old(self).spec_get(xx, src as int)
                    } else {
                        old(self).spec_get(xx, yy)
                    }),
            decreases self.width - 1 - x,
        {
            let v = self.get_block(x, src);
            self.set_block(x, dst, v);
            x += 1;
        }
    }

    /// Zero the interior of row `y`; borders stay.
    fn zero_row_interior(&mut self, y: usize)
        requires
            old(self).wf(),
            y < old(self).height,
        ensures
            final(self).wf(),
            final(self).width == old(self).width,
            final(self).height == old(self).height,
            forall|x: int, yy: int|
                #[trigger] final(self).spec_get(x, yy) == (if 1 <= x < old(self).width - 1 && yy
                    == y {
                    0u8
                } else {
                    old(self).spec_get(x, yy)
                }),
    {
        let mut x: usize = 1;
        while x < self.width - 1
            invariant
                self.wf(),
                self.width == old(self).width,
                self.height == old(self).height,
                y < self.height,
                1 <= x <= self.width - 1,
                forall|xx: int, yy: int|
                    #[trigger] self.spec_get(xx, yy) == (if 1 <= xx < x && yy == y {
                        0u8
                    } else {
                        old(self).spec_get(xx, yy)
                    }),
            decreases self.width - 1 - x,
        {
            self.set_block(x, y, 0);
            x += 1;
        }
    }

    /// Scan the playable rows from the bottom up, drop every full row,
    /// compact the remaining rows downward, empty the vacated top rows,
    /// and return how many rows were full.
    pub fn check_and_clear_lines(&mut self) -> (n: u32)
        requires
            old(self).wf(),
        ensures
            clear_result(*old(self), *final(self), n as int),
    {
        let ghost orig = *old(self);
        let h = self.height;
        let ghost h2 = h as int - 2;
        let mut cleared: usize = 0;
        let mut write_row: usize = h - 2;
        let mut rr: usize = h - 1;
        while rr > 0
            invariant
                self.wf(),
                orig.wf(),
                self.width == orig.width,
                self.height == orig.height,
                h == orig.height,
                h2 == h - 2,
                rr <= h - 1,
                cleared <= h - 1 - rr,
                cleared == full_count_upto(orig, h2) - full_count_upto(orig, rr - 1),
                rr > 0 ==> write_row == rr - 1 + cleared,
                rr == 0 && cleared > 0 ==> write_row == cleared - 1,
                rr == 0 && cleared == 0 ==> write_row == 0,
                forall|x: int, y: int|
                    !(1 <= x < orig.width - 1 && write_row < y <= h2) ==> #[trigger] self.spec_get(
                        x,
                        y,
                    ) == orig.spec_get(x, y),
                forall|x: int, y: int|
                    1 <= x < orig.width - 1 && write_row < y <= h2 ==> #[trigger] self.spec_get(
                        x,
                        y,
                    ) == orig.spec_get(x, nth_nonfull(orig, h2, h2 - y)),
            decreases rr,
        {
            rr -= 1;
            let ghost t = rr as int;
            proof {
                lemma_full_count_range(orig, -1, t - 1);
                lemma_full_count_range(orig, t - 1, t);
                lemma_full_count_range(orig, t, h2);
                assert(t <= write_row);
                lemma_row_full_transfer(*self, orig, t);
            }
            let full = self.row_full_at(rr);
            if full {
                cleared += 1;
            } else {
                let ghost pre = *self;
                proof {
                    lemma_nth_nonfull_locate(orig, h2, t);
                }
                if write_row != rr {
                    self.copy_row_interior(rr, write_row);
                }
                proof {
                    assert(nth_nonfull(orig, h2, h2 - write_row) == t);
                    assert forall|x: int, y: int|
                        1 <= x < orig.width - 1 && write_row <= y <= h2 implies #[trigger]
                    self.spec_get(x, y) == orig.spec_get(x, nth_nonfull(orig, h2, h2 - y)) by {
                        if y == write_row {
                            assert(self.spec_get(x, y) == pre.spec_get(x, t));
                            assert(pre.spec_get(x, t) == orig.spec_get(x, t));
                        } else {
                            assert(self.spec_get(x, y) == pre.spec_get(x, y));
                        }
                    }
                }
                if write_row > 0 {
                    write_row -= 1;
                }
            }
        }
        let ghost k = cleared as int;
        proof {
            assert(k == full_count_upto(orig, h2));
            if cleared == 0 {
                lemma_full_count_range(orig, 0, h2);
                lemma_nth_nonfull_locate(orig, h2, 0);
                assert(!row_is_full(orig, 0));
                assert(nth_nonfull(orig, h2, h2) == 0);
            }
        }
        let mut yy: usize = 0;
        while yy < cleared
            invariant
                self.wf(),
                orig.wf(),
                self.width == orig.width,
                self.height == orig.height,
                h == orig.height,
                h2 == h - 2,
                k == cleared,
                k == full_count_upto(orig, h2),
                cleared <= h - 1,
                yy <= cleared,
                forall|x: int, y: int|
                    1 <= x < orig.width - 1 && 0 <= y < yy ==> #[trigger] self.spec_get(x, y)
                        == 0,
                forall|x: int, y: int|
                    1 <= x < orig.width - 1 && yy <= y < k ==> #[trigger] self.spec_get(x, y)
                        == orig.spec_get(x, y),
                forall|x: int, y: int|
                    1 <= x < orig.width - 1 && k <= y <= h2 ==> #[trigger] self.spec_get(x, y)
                        == orig.spec_get(x, nth_nonfull(orig, h2, h2 - y)),
                forall|x: int, y: int|
                    !(1 <= x < orig.width - 1 && 0 <= y <= h2) ==> #[trigger] self.spec_get(x, y)
                        == orig.spec_get(x, y),
            decreases cleared - yy,
        {
            self.zero_row_interior(yy);
            yy += 1;
        }
        proof {
            assert forall|x: int, y: int|
                #[trigger] self.spec_get(x, y) == cleared_cell(orig, x, y) by {
                if 0 <= x < orig.width && 0 <= y < orig.height {
                    if 1 <= x < orig.width - 1 && 0 <= y <= h2 {
                        if y < k {
                        } else {
                        }
                    }
                }
            }
        }
        cleared as u32
    }

    /// Stamp `piece` into the grid: every occupied local cell of the
    /// rotated shape that lands inside the grid is overwritten with
    /// `shape_index + 1`, so locked blocks carry values `1..=7`.  Cells the
    /// piece does not cover keep their value.  The caller is expected to
    /// have checked the fit first; out-of-range cells are silently skipped.
    pub fn lock_piece(&mut self, piece: &CurrentPiece)
        requires
            old(self).wf(),
            piece.shape_index < 7,
        ensures
            lock_result(*old(self), *piece, *final(self)),
    {
        let mut j: usize = 0;
        while j < 16
            invariant
                self.wf(),
                piece.shape_index < 7,
                self.width == old(self).width,
                self.height == old(self).height,
                j <= 16,
                forall|x: int, y: int|
                    #[trigger] self.spec_get(x, y) == (if lock_covers_upto(*piece, x, y, j as int)
                        && 0 <= x < old(self).width && 0 <= y < old(self).height {
                        (piece.shape_index + 1) as u8
                    } else {
                        old(self).spec_get(x, y)
                    }),
            decreases 16 - j,
        {
            let px = (j % 4) as i32;
            let py = (j / 4) as i32;
            let idx = rotate(px, py, piece.rotation);
            let ghost prev = *self;
            let occupied = shape_cell(piece.shape_index, idx);
            if occupied {
                let fx: i64 = piece.x as i64 + px as i64;
                let fy: i64 = piece.y as i64 + py as i64;
                if fx >= 0 && fx < self.width as i64 && fy >= 0 && fy < self.height as i64 {
                    self.set_block(fx as usize, fy as usize, (piece.shape_index + 1) as u8);
                }
            }
            proof {
                assert forall|x: int, y: int|
                    lock_covers_upto(*piece, x, y, j + 1) && !lock_covers_upto(
                        *piece,
                        x,
                        y,
                        j as int,
                    ) implies x == piece.x + px && y == piece.y + py && shape_occupied(
                    piece.shape_index as int,
                    rotate_index(px as int, py as int, piece.rotation as int),
                ) by {
                    let jj = choose|jj: int|
                        0 <= jj < j + 1 && shape_occupied(
                            piece.shape_index as int,
                            #[trigger] rotate_index(jj % 4, jj / 4, piece.rotation as int),
                        ) && piece.x + jj % 4 == x && piece.y + jj / 4 == y;
                    assert(jj == j);
                }
                assert forall|x: int, y: int|
                    lock_covers_upto(*piece, x, y, j as int) implies lock_covers_upto(
                    *piece,
                    x,
                    y,
                    j + 1,
                ) by {
                }
                if occupied && 0 <= piece.x + px < self.width && 0 <= piece.y + py < self.height {
                    assert(lock_covers_upto(*piece, piece.x + px as int, piece.y + py as int, j + 1));
                }
            }
            j += 1;
        }
        proof {
            assert forall|x: int, y: int|
                lock_covers_upto(*piece, x, y, 16) == lock_covers(*piece, x, y) by {
                lemma_lock_covers_upto_full(*piece, x, y);
            }
        }
    }
}

/// Whether playable row `y` is full: every interior cell is non-zero.
pub open spec fn row_is_full(f: GameField, y: int) -> bool {
    forall|x: int| 1 <= x < f.width - 1 ==> #[trigger] f.spec_get(x, y) != 0
}

/// Number of full rows among rows `0..=from`.
pub open spec fn full_count_upto(f: GameField, from: int) -> int
    decreases from + 1,
{
    if from < 0 {
        0
    } else {
        full_count_upto(f, from - 1) + if row_is_full(f, from) {
            1int
        } else {
            0int
        }
    }
}

/// Index of the `j`-th non-full row at or below row `from`, counting
/// upward from the bottom (`j == 0` names the lowest one); `-1` when there
/// are fewer than `j + 1` such rows.
pub open spec fn nth_nonfull(f: GameField, from: int, j: int) -> int
    decreases from + 1,
{
    if from < 0 {
        -1
    } else if !row_is_full(f, from) {
        if j == 0 {
            from
        } else {
            nth_nonfull(f, from - 1, j - 1)
        }
    } else {
        nth_nonfull(f, from - 1, j)
    }
}

/// Fullness of a row depends only on that row's interior cells.
pub proof fn lemma_row_full_transfer(a: GameField, b: GameField, y: int)
    requires
        a.width == b.width,
        forall|x: int| 1 <= x < a.width - 1 ==> #[trigger] a.spec_get(x, y) == b.spec_get(x, y),
    ensures
        row_is_full(a, y) == row_is_full(b, y),
{
    if row_is_full(a, y) {
        assert forall|x: int| 1 <= x < b.width - 1 implies #[trigger] b.spec_get(x, y) != 0 by {
            assert(a.spec_get(x, y) != 0);
        }
    }
    if row_is_full(b, y) {
        assert forall|x: int| 1 <= x < a.width - 1 implies #[trigger] a.spec_get(x, y) != 0 by {
            assert(b.spec_get(x, y) != 0);
        }
    }
}

/// The count of full rows over a range grows by at most one per row.
pub proof fn lemma_full_count_range(f: GameField, a: int, b: int)
    requires
        a <= b,
    ensures
        full_count_upto(f, a) <= full_count_upto(f, b) <= full_count_upto(f, a) + (b - a),
    decreases b - a,
{
    if a < b {
        lemma_full_count_range(f, a, b - 1);
    }
}

/// A non-full row `y` is found by `nth_nonfull` at the position given by
/// the number of non-full rows strictly between it and `from`.
pub proof fn lemma_nth_nonfull_locate(f: GameField, from: int, y: int)
    requires
        0 <= y <= from,
        !row_is_full(f, y),
    ensures
        nth_nonfull(
            f,
            from,
            (from - y) - (full_count_upto(f, from) - full_count_upto(f, y)),
        ) == y,
    decreases from - y,
{
    lemma_full_count_range(f, y, from);
    if from == y {
    } else if row_is_full(f, from) {
        lemma_nth_nonfull_locate(f, from - 1, y);
    } else {
        lemma_nth_nonfull_locate(f, from - 1, y);
        lemma_full_count_range(f, y, from - 1);
    }
}

/// Value of cell `(x, y)` after clearing the full rows of `f`: full
/// playable rows vanish, the rows above them compact downward, the vacated
/// top rows become empty, and every border cell keeps its value.
pub open spec fn cleared_cell(f: GameField, x: int, y: int) -> u8 {
    if !(0 <= x < f.width && 0 <= y < f.height) {
        9
    } else if x == 0 || x == f.width - 1 || y == f.height - 1 {
        f.spec_get(x, y)
    } else if y < full_count_upto(f, f.height - 2) {
        0
    } else {
        f.spec_get(x, nth_nonfull(f, f.height - 2, f.height - 2 - y))
    }
}

/// A range with no full row counts zero full rows.
proof fn lemma_full_count_zero(f: GameField, b: int)
    requires
        forall|y: int| 0 <= y <= b ==> !row_is_full(f, y),
    ensures
        full_count_upto(f, b) == 0,
    decreases b + 1,
{
    if b >= 0 {
        lemma_full_count_zero(f, b - 1);
    }
}

/// A range whose only full row is `r` counts exactly one full row once
/// the range reaches `r`.
proof fn lemma_full_count_single(f: GameField, r: int, b: int)
    requires
        0 <= r,
        row_is_full(f, r),
        forall|y: int| 0 <= y <= b && y != r ==> !row_is_full(f, y),
    ensures
        full_count_upto(f, b) == if r <= b {
            1int
        } else {
            0int
        },
    decreases b + 1,
{
    if b >= 0 {
        lemma_full_count_single(f, r, b - 1);
    }
}

/// Law: clearing a field with no full playable row reports zero lines and
/// leaves every cell unchanged.
pub proof fn lemma_clear_no_full_rows(f: GameField)
    requires
        f.wf(),
        forall|y: int| 0 <= y <= f.height - 2 ==> !row_is_full(f, y),
    ensures
        full_count_upto(f, f.height - 2) == 0,
        forall|x: int, y: int| #[trigger] cleared_cell(f, x, y) == f.spec_get(x, y),
{
    let h2 = f.height as int - 2;
    lemma_full_count_zero(f, h2);
    assert forall|x: int, y: int| #[trigger] cleared_cell(f, x, y) == f.spec_get(x, y) by {
        if 0 <= x < f.width && 0 <= y < f.height && !(x == 0 || x == f.width - 1 || y == f.height
            - 1) {
            lemma_full_count_zero(f, y);
            lemma_nth_nonfull_locate(f, h2, y);
            assert(nth_nonfull(f, h2, h2 - y) == y);
        }
    }
}

/// Law: clearing a field whose only full playable row is `r` reports one
/// line; the rows above `r` shift down by one, the rows below keep their
/// place, and the top playable row's interior empties.
pub proof fn lemma_clear_single_full_row(f: GameField, r: int)
    requires
        f.wf(),
        0 <= r <= f.height - 2,
        row_is_full(f, r),
        forall|y: int| 0 <= y <= f.height - 2 && y != r ==> !row_is_full(f, y),
    ensures
        full_count_upto(f, f.height - 2) == 1,
        forall|x: int| 1 <= x < f.width - 1 ==> #[trigger] cleared_cell(f, x, 0) == 0,
        forall|x: int, y: int|
            1 <= x < f.width - 1 && 1 <= y <= r ==> #[trigger] cleared_cell(f, x, y)
                == f.spec_get(x, y - 1),
        forall|x: int, y: int|
            1 <= x < f.width - 1 && r < y <= f.height - 2 ==> #[trigger] cleared_cell(f, x, y)
                == f.spec_get(x, y),
{
    let h2 = f.height as int - 2;
    lemma_full_count_single(f, r, h2);
    assert forall|x: int, y: int| 1 <= x < f.width - 1 && 1 <= y <= r implies #[trigger]
    cleared_cell(f, x, y) == f.spec_get(x, y - 1) by {
        lemma_full_count_single(f, r, y - 1);
        lemma_nth_nonfull_locate(f, h2, y - 1);
        assert(nth_nonfull(f, h2, h2 - y) == y - 1);
    }
    assert forall|x: int, y: int| 1 <= x < f.width - 1 && r < y <= h2 implies #[trigger]
    cleared_cell(f, x, y) == f.spec_get(x, y) by {
        lemma_full_count_single(f, r, y);
        lemma_nth_nonfull_locate(f, h2, y);
        assert(nth_nonfull(f, h2, h2 - y) == y);
    }
}

/// Relation between a field, a piece being locked into it, and the grid
/// that results: covered in-range cells take `shape_index + 1`, all other
/// cells keep their value.
pub open spec fn lock_result(pre: GameField, p: CurrentPiece, post: GameField) -> bool {
    &&& post.wf()
    &&& post.width == pre.width
    &&& post.height == pre.height
    &&& forall|x: int, y: int|
        #[trigger] post.spec_get(x, y) == (if lock_covers(p, x, y) && 0 <= x < pre.width && 0 <= y
            < pre.height {
            (p.shape_index + 1) as u8
        } else {
            pre.spec_get(x, y)
        })
}

/// Relation between a field, the field after clearing its full rows, and
/// the number of rows that were full.
pub open spec fn clear_result(pre: GameField, post: GameField, n: int) -> bool {
    &&& post.wf()
    &&& post.width == pre.width
    &&& post.height == pre.height
    &&& n == full_count_upto(pre, pre.height - 2)
    &&& forall|x: int, y: int| #[trigger] post.spec_get(x, y) == cleared_cell(pre, x, y)
}

/// Whether locking `piece` targets the cell at `(x, y)`: some occupied
/// local cell of the rotated shape lands there.
pub open spec fn lock_covers(p: CurrentPiece, x: int, y: int) -> bool {
    exists|px: int, py: int|
        0 <= px < 4 && 0 <= py < 4 && shape_occupied(
            p.shape_index as int,
            #[trigger] rotate_index(px, py, p.rotation as int),
        ) && p.x + px == x && p.y + py == y
}

/// `lock_covers` restricted to the first `n` local cells in row-major scan
/// order, local cell `j` being `(j % 4, j / 4)`.
pub open spec fn lock_covers_upto(p: CurrentPiece, x: int, y: int, n: int) -> bool {
    exists|j: int|
        0 <= j < n && shape_occupied(
            p.shape_index as int,
            #[trigger] rotate_index(j % 4, j / 4, p.rotation as int),
        ) && p.x + j % 4 == x && p.y + j / 4 == y
}

/// Scanning all 16 local cells reaches exactly the covered cells.
proof fn lemma_lock_covers_upto_full(p: CurrentPiece, x: int, y: int)
    ensures
        lock_covers_upto(p, x, y, 16) == lock_covers(p, x, y),
{
    if lock_covers_upto(p, x, y, 16) {
        let j = choose|j: int|
            0 <= j < 16 && shape_occupied(
                p.shape_index as int,
                #[trigger] rotate_index(j % 4, j / 4, p.rotation as int),
            ) && p.x + j % 4 == x && p.y + j / 4 == y;
        assert(0 <= j % 4 < 4 && 0 <= j / 4 < 4);
        assert(lock_covers(p, x, y));
    }
    if lock_covers(p, x, y) {
        let (px, py) = choose|px: int, py: int|
            0 <= px < 4 && 0 <= py < 4 && shape_occupied(
                p.shape_index as int,
                #[trigger] rotate_index(px, py, p.rotation as int),
            ) && p.x + px == x && p.y + py == y;
        let j = py * 4 + px;
        assert(j % 4 == px && j / 4 == py);
        assert(lock_covers_upto(p, x, y, 16));
    }
}

/// Every occupied local cell of a piece is covered by its lock: querying
/// the grid there right after `lock_piece` returns `shape_index + 1`.
pub proof fn lemma_lock_covers_occupied(p: CurrentPiece, px: int, py: int)
    requires
        0 <= px < 4,
        0 <= py < 4,
        shape_occupied(p.shape_index as int, rotate_index(px, py, p.rotation as int)),
    ensures
        lock_covers(p, p.x + px, p.y + py),
{
}

} // verus!
