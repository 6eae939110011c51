use tetris_core::does_piece_fit;
use tetris_core::rotate;
use tetris_core::CurrentPiece;
use tetris_core::GameField;
use tetris_core::FIELD_HEIGHT;
use tetris_core::FIELD_WIDTH;

fn default_field() -> GameField {
    GameField::new(FIELD_WIDTH, FIELD_HEIGHT)
}

#[test]
fn test_rotate_0_degrees() {
    // Point (1,0): index 0*4 + 1 = 1.
    assert_eq!(rotate(1, 0, 0), 1);
}

#[test]
fn test_rotate_90_degrees() {
    // Point (1,0) rotated 90 degrees: 12 + 0 - (1 * 4) = 8.
    assert_eq!(rotate(1, 0, 1), 8);
}

#[test]
fn test_rotate_180_degrees() {
    // Point (1,0) rotated 180 degrees: 15 - (0*4) - 1 = 14.
    assert_eq!(rotate(1, 0, 2), 14);
}

#[test]
fn test_rotate_270_degrees() {
    // Point (1,0) rotated 270 degrees: 3 - 0 + (1*4) = 7.
    assert_eq!(rotate(1, 0, 3), 7);
}

#[test]
fn test_game_field_init() {
    let game_field = default_field();
    // A corner border cell.
    assert_eq!(game_field.get_block(0, 0), 9);
    // An inner cell.
    assert_eq!(game_field.get_block(1, 1), 0);
    // The bottom border.
    assert_eq!(game_field.get_block(5, FIELD_HEIGHT - 1), 9);
}

#[test]
fn test_does_piece_fit_empty_field_clear_center() {
    let field = default_field();
    // The I-shape (index 0) has its blocks at local x=2.
    let pos_x = (FIELD_WIDTH / 2) as i32 - 2;
    assert!(
        does_piece_fit(&field, 0, 0, pos_x, 0),
        "I-shape should fit in empty field center"
    );
}

#[test]
fn test_does_piece_fit_collision_with_left_border() {
    let field = default_field();
    // At pos_x = -2 the I-shape's column lands on field x = 0, a border.
    assert!(
        !does_piece_fit(&field, 0, 0, -2, 0),
        "Should collide with left border (block at field x=0)"
    );
}

#[test]
fn test_does_piece_fit_out_of_bounds_left() {
    let field = default_field();
    // At pos_x = -3 the I-shape's column lands on field x = -1, out of bounds.
    assert!(
        !does_piece_fit(&field, 0, 0, -3, 0),
        "Should be false if 'X' block is out of bounds left"
    );
}

#[test]
fn test_does_piece_fit_collision_with_bottom_border() {
    let field = default_field();
    // The I-shape's lowest block is at local y=3; it lands on the bottom border.
    assert!(
        !does_piece_fit(&field, 0, 0, 5, (FIELD_HEIGHT - 4) as i32),
        "Should collide with bottom border"
    );
}

#[test]
fn test_does_piece_fit_out_of_bounds_bottom() {
    let field = default_field();
    // The I-shape's lowest block lands one past the bottom border.
    assert!(
        !does_piece_fit(&field, 0, 0, 5, (FIELD_HEIGHT - 3) as i32),
        "Should be false if 'X' block is out of bounds bottom"
    );
}

#[test]
fn test_does_piece_fit_collision_with_existing_block() {
    let mut field = default_field();
    field.set_block(5, 2, 1);
    // The I-shape's block at local (2,1) targets field (3+2, 1+1) = (5,2).
    assert!(
        !does_piece_fit(&field, 0, 0, 3, 1),
        "Should collide with existing block at (5,2)"
    );
}

#[test]
fn test_does_piece_fit_o_shape_near_border() {
    let field = default_field();
    // The O-shape's blocks sit at local x=1,2; at pos_x=0 they land on x=1,2.
    assert!(
        does_piece_fit(&field, 2, 0, 0, 0),
        "O-shape at (0,0) should fit if its blocks are not on border index 0"
    );
    // At pos_x=-1 the O-shape's left blocks land on x=0, the border.
    assert!(
        !does_piece_fit(&field, 2, 0, -1, 0),
        "O-shape at (-1,0) should collide with left border"
    );
}

#[test]
fn rotate_identity_maps_row_major() {
    for py in 0..4 {
        for px in 0..4 {
            assert_eq!(rotate(px, py, 0), (py * 4 + px) as usize);
        }
    }
}

#[test]
fn rotate_is_a_bijection_for_each_state() {
    for r in 0..4 {
        let mut seen = [false; 16];
        for py in 0..4 {
            for px in 0..4 {
                let idx = rotate(px, py, r);
                assert!(idx < 16);
                assert!(!seen[idx], "index {} hit twice at rotation {}", idx, r);
                seen[idx] = true;
            }
        }
        assert!(seen.iter().all(|&s| s), "rotation {} missed an index", r);
    }
}

#[test]
fn rotate_reduces_rotation_modulo_four() {
    for py in 0..4 {
        for px in 0..4 {
            assert_eq!(rotate(px, py, 4), rotate(px, py, 0));
            assert_eq!(rotate(px, py, 5), rotate(px, py, 1));
            assert_eq!(rotate(px, py, -1), rotate(px, py, 3));
            assert_eq!(rotate(px, py, -4), rotate(px, py, 0));
        }
    }
}

#[test]
fn fresh_field_is_borders_and_zeroes_exactly() {
    let f = GameField::new(7, 5);
    for y in 0..5 {
        for x in 0..7 {
            let border = x == 0 || x == 6 || y == 4;
            let expect = if border { 9 } else { 0 };
            assert_eq!(f.get_block(x, y), expect, "cell ({}, {})", x, y);
        }
    }
    // Out-of-range reads give the border sentinel.
    assert_eq!(f.get_block(7, 0), 9);
    assert_eq!(f.get_block(0, 5), 9);
}

#[test]
fn set_block_ignores_out_of_range_writes() {
    let mut f = GameField::new(7, 5);
    f.set_block(7, 0, 3);
    f.set_block(0, 5, 3);
    for y in 0..5 {
        for x in 0..7 {
            let border = x == 0 || x == 6 || y == 4;
            let expect = if border { 9 } else { 0 };
            assert_eq!(f.get_block(x, y), expect);
        }
    }
}

#[test]
fn lock_piece_writes_shape_index_plus_one() {
    let mut f = default_field();
    // The vertical I-piece at (4,0) occupies column 6, rows 0..=3.
    let piece = CurrentPiece::new(0);
    f.lock_piece(&piece);
    for y in 0..4 {
        assert_eq!(f.get_block(6, y), 1, "locked cell (6, {})", y);
    }
    // Neighbouring cells stay empty.
    assert_eq!(f.get_block(5, 0), 0);
    assert_eq!(f.get_block(7, 0), 0);
    assert_eq!(f.get_block(6, 4), 0);
}

#[test]
fn lock_piece_of_each_shape_tags_its_cells() {
    for shape in 0..7 {
        let mut f = default_field();
        let piece = CurrentPiece {
            shape_index: shape,
            rotation: 0,
            x: 4,
            y: 5,
        };
        f.lock_piece(&piece);
        let mut count = 0;
        for y in 0..FIELD_HEIGHT {
            for x in 0..FIELD_WIDTH {
                let v = f.get_block(x, y);
                if v != 0 && v != 9 {
                    assert_eq!(v as usize, shape + 1);
                    count += 1;
                }
            }
        }
        assert_eq!(count, 4, "shape {} has four blocks", shape);
    }
}

#[test]
fn clear_with_no_full_rows_changes_nothing() {
    let mut f = default_field();
    f.set_block(3, 16, 2);
    f.set_block(5, 10, 7);
    f.set_block(10, 16, 1);
    let before: Vec<u8> = snapshot(&f);
    let n = f.check_and_clear_lines();
    assert_eq!(n, 0);
    assert_eq!(snapshot(&f), before, "field must be byte-for-byte unchanged");
}

fn snapshot(f: &GameField) -> Vec<u8> {
    let mut cells = Vec::new();
    for y in 0..FIELD_HEIGHT {
        for x in 0..FIELD_WIDTH {
            cells.push(f.get_block(x, y));
        }
    }
    cells
}

#[test]
fn clear_single_full_row_shifts_rows_down() {
    let mut f = default_field();
    // Fill playable row 16 completely.
    for x in 1..(FIELD_WIDTH - 1) {
        f.set_block(x, 16, 1);
    }
    // A marker block above the full row.
    f.set_block(3, 15, 5);
    // A marker well above, to watch it shift by exactly one.
    f.set_block(7, 2, 4);
    let n = f.check_and_clear_lines();
    assert_eq!(n, 1);
    // Border untouched.
    assert_eq!(f.get_block(5, 17), 9);
    // The cleared row now holds what was above it.
    assert_eq!(f.get_block(3, 16), 5);
    assert_eq!(f.get_block(3, 15), 0);
    assert_eq!(f.get_block(7, 3), 4);
    assert_eq!(f.get_block(7, 2), 0);
    // The top playable row is empty.
    for x in 1..(FIELD_WIDTH - 1) {
        assert_eq!(f.get_block(x, 0), 0);
    }
}

#[test]
fn clear_scenario_row_sixteen() {
    let mut f = GameField::new(12, 18);
    for x in 1..11 {
        f.set_block(x, 16, 1);
    }
    assert_eq!(f.get_block(0, 16), 9);
    assert_eq!(f.get_block(11, 16), 9);
    let n = f.check_and_clear_lines();
    assert_eq!(n, 1);
    assert_eq!(f.get_block(5, 17), 9, "border untouched");
    assert_eq!(f.get_block(5, 16), 0, "row emptied by compaction");
    assert_eq!(f.get_block(5, 0), 0);
}

#[test]
fn clear_all_playable_rows_full() {
    let mut f = GameField::new(12, 18);
    for y in 0..17 {
        for x in 1..11 {
            f.set_block(x, y, 3);
        }
    }
    let n = f.check_and_clear_lines();
    assert_eq!(n, 17);
    for y in 0..17 {
        for x in 1..11 {
            assert_eq!(f.get_block(x, y), 0, "cell ({}, {})", x, y);
        }
    }
    // Borders survive a total clear.
    assert_eq!(f.get_block(0, 0), 9);
    assert_eq!(f.get_block(11, 16), 9);
    assert_eq!(f.get_block(5, 17), 9);
}

#[test]
fn clear_four_rows_at_once() {
    let mut f = GameField::new(12, 18);
    for y in 13..17 {
        for x in 1..11 {
            f.set_block(x, y, 2);
        }
    }
    f.set_block(4, 12, 6);
    let n = f.check_and_clear_lines();
    assert_eq!(n, 4);
    assert_eq!(f.get_block(4, 16), 6, "lone block falls to the bottom row");
    assert_eq!(f.get_block(4, 12), 0);
}

#[test]
fn spawn_is_centered_at_the_top() {
    let p = CurrentPiece::new(0);
    assert_eq!(p.shape_index, 0);
    assert_eq!(p.rotation, 0);
    assert_eq!(p.x, 4);
    assert_eq!(p.y, 0);
    let q = CurrentPiece::spawn(3, 20);
    assert_eq!(q.x, 8);
    assert_eq!(q.y, 0);
}
