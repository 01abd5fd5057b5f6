use hypertetris::{
    rotated_index, shape_block, tick_due, Block, Field, Game, State, FIELD_HEIGHT, FIELD_WIDTH,
    SPAWN_X, SPAWN_Y,
};

fn piece_cells(g: &Game) -> Vec<(i16, i16)> {
    let mut cells = Vec::new();
    for x in 0..4i16 {
        for y in 0..4i16 {
            let idx = rotated_index(x, y, g.rotation());
            if shape_block(g.piece_kind(), idx) != Block::Empty {
                cells.push((g.origin_x() + x, g.origin_y() + y));
            }
        }
    }
    cells
}

fn snapshot(f: &Field) -> Vec<Block> {
    let mut v = Vec::new();
    for y in 0..FIELD_HEIGHT {
        for x in 0..FIELD_WIDTH {
            v.push(f.cell_at(x, y));
        }
    }
    v
}

#[test]
fn new_game_spawns_vertical_piece() {
    let g = Game::new();
    assert_eq!(g.piece_kind(), 0);
    assert_eq!(g.rotation(), 0);
    assert_eq!(g.origin_x(), 4);
    assert_eq!(g.origin_y(), -1);
    assert_eq!((SPAWN_X, SPAWN_Y), (4, -1));
    assert_eq!(g.state(), State::Dropping);
    assert!(g.can_place(0, 0, 0));
}

#[test]
fn vertical_piece_falls_to_floor_then_locks() {
    let mut g = Game::new();
    let empty = snapshot(g.field());
    for step in 0..14 {
        assert_eq!(g.origin_y(), -1 + step);
        g.tick_with(0);
    }
    assert_eq!(g.origin_y(), 13);
    assert_eq!(piece_cells(&g), vec![(6, 13), (6, 14), (6, 15), (6, 16)]);
    assert_eq!(snapshot(g.field()), empty);
    assert!(!g.can_place(0, 1, 0));
    g.tick_with(3);
    for y in 13..17 {
        assert_eq!(g.field().cell_at(6, y), Block::Tetro(1));
    }
    assert_eq!(g.field().cell_at(6, 12), Block::Empty);
    assert_eq!(g.piece_kind(), 3);
    assert_eq!((g.origin_x(), g.origin_y(), g.rotation()), (4, -1, 0));
    assert_eq!(g.state(), State::Dropping);
}

#[test]
fn locked_piece_completes_row() {
    let mut f = Field::new();
    let mut cells: Vec<(i16, i16, usize)> = Vec::new();
    for x in 1..FIELD_WIDTH - 1 {
        if x != 6 {
            cells.push((x, 10, 2));
        }
    }
    cells.push((3, 9, 5));
    cells.push((6, 14, 4));
    f.lock_cells(&cells);
    let mut g = Game::with_field(f, 0);
    for _ in 0..11 {
        g.tick_with(1);
    }
    assert_eq!(g.origin_y(), 10);
    assert_eq!(piece_cells(&g), vec![(6, 10), (6, 11), (6, 12), (6, 13)]);
    g.tick_with(1);
    // row 10 was full and took row 9's contents
    for x in 1..FIELD_WIDTH - 1 {
        let expected = if x == 3 { Block::Tetro(5) } else { Block::Empty };
        assert_eq!(g.field().cell_at(x, 10), expected);
    }
    assert_eq!(g.field().cell_at(6, 11), Block::Tetro(1));
    assert_eq!(g.field().cell_at(6, 13), Block::Tetro(1));
    assert_eq!(g.field().cell_at(6, 14), Block::Tetro(4));
    assert_eq!(g.piece_kind(), 1);
}

#[test]
fn move_left_stops_at_the_wall() {
    let mut g = Game::new();
    for _ in 0..5 {
        g.move_left();
    }
    assert_eq!(g.origin_x(), -1);
    assert!(!g.can_place(-1, 0, 0));
    let field_before = snapshot(g.field());
    for _ in 0..3 {
        g.move_left();
        assert_eq!(g.origin_x(), -1);
        assert_eq!(g.origin_y(), -1);
    }
    assert_eq!(snapshot(g.field()), field_before);
    assert_eq!(piece_cells(&g)[0].0, 1);
}

#[test]
fn move_right_stops_at_the_wall() {
    let mut g = Game::new();
    for _ in 0..10 {
        g.move_right();
    }
    assert_eq!(g.origin_x(), 8);
    assert!(!g.can_place(1, 0, 0));
}

#[test]
fn soft_drop_moves_down_one_row() {
    let mut g = Game::new();
    g.soft_drop();
    g.soft_drop();
    assert_eq!(g.origin_y(), 1);
    assert_eq!(g.origin_x(), 4);
}

#[test]
fn rotate_turns_the_piece() {
    let mut g = Game::new();
    g.tick_with(0);
    g.tick_with(0);
    assert_eq!(g.origin_y(), 1);
    g.rotate();
    assert_eq!(g.rotation(), 1);
    // the vertical bar lies flat in row 2 of its box
    assert_eq!(piece_cells(&g), vec![(4, 3), (5, 3), (6, 3), (7, 3)]);
    for _ in 0..3 {
        g.rotate();
    }
    assert_eq!(g.rotation(), 0);
    assert_eq!(piece_cells(&g), vec![(6, 1), (6, 2), (6, 3), (6, 4)]);
}

#[test]
fn rotate_blocked_by_the_wall() {
    let mut g = Game::new();
    g.tick_with(0);
    for _ in 0..5 {
        g.move_left();
    }
    assert_eq!(g.origin_x(), -1);
    assert!(!g.can_place(0, 0, 1));
    g.rotate();
    assert_eq!(g.rotation(), 0);
    assert_eq!(g.origin_x(), -1);
}

#[test]
fn spawn_blocked_ends_the_game() {
    let mut f = Field::new();
    let mut cells: Vec<(i16, i16, usize)> = Vec::new();
    for y in 3..FIELD_HEIGHT - 1 {
        cells.push((6, y, 2));
    }
    f.lock_cells(&cells);
    let mut g = Game::with_field(f, 0);
    assert_eq!(g.state(), State::Dropping);
    g.tick_with(0);
    assert_eq!(g.state(), State::GameOver);
    assert!(g.is_game_over());
    for y in 0..3 {
        assert_eq!(g.field().cell_at(6, y), Block::Tetro(1));
    }
    let frozen = snapshot(g.field());
    let pos = (g.origin_x(), g.origin_y(), g.rotation(), g.piece_kind());
    for d in 0..5 {
        g.tick_with(d);
        g.tick();
        g.move_left();
        g.move_right();
        g.soft_drop();
        g.rotate();
    }
    assert_eq!(snapshot(g.field()), frozen);
    assert_eq!((g.origin_x(), g.origin_y(), g.rotation(), g.piece_kind()), pos);
    assert_eq!(g.state(), State::GameOver);
}

#[test]
fn with_field_blocked_spawn_is_over_at_once() {
    let mut f = Field::new();
    f.lock_cells(&vec![(6, 1, 3)]);
    let g = Game::with_field(f, 0);
    assert_eq!(g.state(), State::GameOver);
    let mut f2 = Field::new();
    f2.lock_cells(&vec![(6, 1, 3)]);
    let g2 = Game::with_field(f2, 4);
    assert_eq!(g2.state(), State::Dropping);
}

#[test]
fn draw_picks_next_shape_mod_seven() {
    let mut g = Game::new();
    for _ in 0..15 {
        g.tick_with(9);
    }
    assert_eq!(g.origin_y(), -1);
    assert_eq!(g.piece_kind(), 2);
    assert_eq!(g.field().cell_at(6, 16), Block::Tetro(1));
}

#[test]
fn random_ticks_keep_walls() {
    let mut g = Game::new();
    for i in 0..400 {
        g.tick();
        if i % 3 == 0 {
            g.move_left();
        }
        if i % 5 == 0 {
            g.rotate();
        }
        if i % 7 == 0 {
            g.move_right();
        }
        assert!(g.piece_kind() < 7);
        assert!(g.rotation() < 4);
    }
    let f = g.field();
    for y in 0..FIELD_HEIGHT {
        assert_eq!(f.cell_at(0, y), Block::Wall);
        assert_eq!(f.cell_at(FIELD_WIDTH - 1, y), Block::Wall);
    }
    for x in 0..FIELD_WIDTH {
        assert_eq!(f.cell_at(x, FIELD_HEIGHT - 1), Block::Wall);
    }
}

#[test]
fn tick_due_after_a_quarter_second() {
    assert!(!tick_due(0));
    assert!(!tick_due(249));
    assert!(tick_due(250));
    assert!(tick_due(1000));
}

#[test]
fn allowed_move_lands_on_empty_cells() {
    let mut f = Field::new();
    f.lock_cells(&vec![(3, 2, 5), (8, 2, 5), (5, 4, 5)]);
    let mut g = Game::with_field(f, 2);
    g.tick_with(0);
    let deltas: [(i16, i16, usize); 4] = [(-1, 0, 0), (1, 0, 0), (0, 1, 0), (0, 0, 1)];
    for _ in 0..6 {
        for (dx, dy, dr) in deltas {
            if g.can_place(dx, dy, dr) {
                match (dx, dy, dr) {
                    (-1, 0, 0) => g.move_left(),
                    (1, 0, 0) => g.move_right(),
                    (0, 1, 0) => g.soft_drop(),
                    _ => g.rotate(),
                }
                for (x, y) in piece_cells(&g) {
                    if x >= 0 && x < FIELD_WIDTH && y >= 0 && y < FIELD_HEIGHT {
                        assert_eq!(g.field().cell_at(x, y), Block::Empty);
                    }
                }
            }
        }
    }
}
