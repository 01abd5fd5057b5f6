use hypertetris::{Block, Field, FIELD_HEIGHT, FIELD_WIDTH};

fn fill_row_except(field: &mut Field, y: i16, gap: i16, color: usize) {
    let mut cells: Vec<(i16, i16, usize)> = Vec::new();
    for x in 1..FIELD_WIDTH - 1 {
        if x != gap {
            cells.push((x, y, color));
        }
    }
    field.lock_cells(&cells);
}

#[test]
fn new_field_has_walls_and_empty_inside() {
    let f = Field::new();
    for y in 0..FIELD_HEIGHT {
        for x in 0..FIELD_WIDTH {
            let expected = if x == 0 || x == FIELD_WIDTH - 1 || y == FIELD_HEIGHT - 1 {
                Block::Wall
            } else {
                Block::Empty
            };
            assert_eq!(f.cell_at(x, y), expected);
        }
    }
}

#[test]
fn lock_cells_writes_colors_and_keeps_the_rest() {
    let mut f = Field::new();
    f.lock_cells(&vec![(3, 4, 2), (10, 16, 7), (1, 0, 5)]);
    assert_eq!(f.cell_at(3, 4), Block::Tetro(2));
    assert_eq!(f.cell_at(10, 16), Block::Tetro(7));
    assert_eq!(f.cell_at(1, 0), Block::Tetro(5));
    assert_eq!(f.cell_at(4, 4), Block::Empty);
    assert_eq!(f.cell_at(0, 4), Block::Wall);
}

#[test]
fn lock_cells_later_entry_wins() {
    let mut f = Field::new();
    f.lock_cells(&vec![(5, 5, 1), (5, 5, 3)]);
    assert_eq!(f.cell_at(5, 5), Block::Tetro(3));
}

#[test]
fn full_row_is_cleared_and_row_above_moves_down() {
    let mut f = Field::new();
    fill_row_except(&mut f, 10, 6, 4);
    f.lock_cells(&vec![(3, 9, 5), (2, 8, 6)]);
    // a vertical piece that completes row 10 and stands in rows 10 to 13
    f.lock_cells(&vec![(6, 10, 1), (6, 11, 1), (6, 12, 1), (6, 13, 1)]);
    let cleared = f.clear_full_lines(10, 14);
    assert_eq!(cleared, 1);
    for x in 1..FIELD_WIDTH - 1 {
        let expected = if x == 3 { Block::Tetro(5) } else { Block::Empty };
        assert_eq!(f.cell_at(x, 10), expected);
    }
    assert_eq!(f.cell_at(2, 9), Block::Tetro(6));
    assert_eq!(f.cell_at(3, 9), Block::Empty);
    for y in 11..14 {
        assert_eq!(f.cell_at(6, y), Block::Tetro(1));
    }
    for x in 1..FIELD_WIDTH - 1 {
        assert_eq!(f.cell_at(x, 0), Block::Empty);
    }
    assert_eq!(f.cell_at(0, 10), Block::Wall);
    assert_eq!(f.cell_at(11, 10), Block::Wall);
}

#[test]
fn row_with_a_gap_is_not_cleared() {
    let mut f = Field::new();
    fill_row_except(&mut f, 12, 4, 3);
    assert!(!f.is_row_full(12));
    assert_eq!(f.clear_full_lines(10, 14), 0);
    assert_eq!(f.cell_at(3, 12), Block::Tetro(3));
    assert_eq!(f.cell_at(4, 12), Block::Empty);
}

#[test]
fn two_full_rows_are_both_cleared() {
    let mut f = Field::new();
    fill_row_except(&mut f, 15, 0, 2);
    fill_row_except(&mut f, 16, 0, 3);
    f.lock_cells(&vec![(7, 14, 6)]);
    assert!(f.is_row_full(15));
    assert_eq!(f.clear_full_lines(13, 17), 2);
    assert_eq!(f.cell_at(7, 16), Block::Tetro(6));
    assert_eq!(f.cell_at(7, 14), Block::Empty);
    assert_eq!(f.cell_at(6, 16), Block::Empty);
    assert_eq!(f.cell_at(6, 15), Block::Empty);
}

#[test]
fn rows_outside_the_range_are_not_scanned() {
    let mut f = Field::new();
    fill_row_except(&mut f, 5, 0, 2);
    assert_eq!(f.clear_full_lines(6, 10), 0);
    assert!(f.is_row_full(5));
    assert_eq!(f.clear_full_lines(5, 6), 1);
    assert!(!f.is_row_full(5));
}

#[test]
fn negative_and_floor_rows_are_skipped() {
    let mut f = Field::new();
    assert_eq!(f.clear_full_lines(-3, 0), 0);
    assert_eq!(f.clear_full_lines(17, 20), 0);
    assert_eq!(f.cell_at(5, 17), Block::Wall);
    assert_eq!(f.clear_full_lines(4, 2), 0);
}

#[test]
fn clearing_top_row_empties_it() {
    let mut f = Field::new();
    fill_row_except(&mut f, 0, 0, 4);
    assert_eq!(f.clear_full_lines(-1, 3), 1);
    for x in 1..FIELD_WIDTH - 1 {
        assert_eq!(f.cell_at(x, 0), Block::Empty);
    }
}

#[test]
fn shift_rows_down_moves_contents() {
    let mut f = Field::new();
    f.lock_cells(&vec![(2, 0, 1), (4, 3, 2), (9, 7, 3)]);
    f.shift_rows_down(4);
    assert_eq!(f.cell_at(2, 1), Block::Tetro(1));
    assert_eq!(f.cell_at(2, 0), Block::Empty);
    assert_eq!(f.cell_at(4, 4), Block::Tetro(2));
    assert_eq!(f.cell_at(4, 3), Block::Empty);
    assert_eq!(f.cell_at(9, 7), Block::Tetro(3));
}
