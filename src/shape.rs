use vstd::prelude::*;
use crate::block::Block;

verus! {

/// Whether cell `i` (row-major, 0 to 15) of the 4x4 grid of shape `kind` is
/// part of the shape.
pub open spec fn shape_occupies(kind: int, i: int) -> bool {
    if kind == 0 {
        i == 2 || i == 6 || i == 10 || i == 14
    } else if kind == 1 {
        i == 2 || i == 5 || i == 6 || i == 9
    } else if kind == 2 {
        i == 1 || i == 5 || i == 6 || i == 10
    } else if kind == 3 {
        i == 5 || i == 6 || i == 10 || i == 14
    } else if kind == 4 {
        i == 5 || i == 6 || i == 9 || i == 13
    } else if kind == 5 {
        i == 2 || i == 5 || i == 6 || i == 10
    } else if kind == 6 {
        i == 5 || i == 6 || i == 9 || i == 10
    } else {
        false
    }
}

/// The numeric code of a shape cell: 0 where the cell is empty, otherwise the
/// shape's color index `kind + 1`.
pub open spec fn spec_shape_code(kind: int, i: int) -> int {
    if shape_occupies(kind, i) {
        kind + 1
    } else {
        0
    }
}

/// The block a numeric shape code stands for.
pub open spec fn spec_block_of_code(c: int) -> Block {
    if c == 0 {
        Block::Empty
    } else {
        Block::Tetro(c as usize)
    }
}

/// The block at cell `i` of shape `kind`.
pub open spec fn spec_shape_block(kind: int, i: int) -> Block {
    spec_block_of_code(spec_shape_code(kind, i))
}

/// The index into the 4x4 shape grid that local cell `(px, py)` reads when the
/// piece is turned by `rot` quarter turns (taken mod 4).
pub open spec fn spec_rotated_index(px: int, py: int, rot: int) -> int {
    let s = rot % 4;
    if s == 0 {
        py * 4 + px
    } else if s == 1 {
        12 + py - px * 4
    } else if s == 2 {
        15 - py * 4 - px
    } else {
        3 - py + px * 4
    }
}

/// A quarter turn of a local cell of the 4x4 grid.
pub open spec fn quarter_turn(px: int, py: int) -> (int, int) {
    (py, 3 - px)
}

pub open spec fn in_box(px: int, py: int) -> bool {
    0 <= px < 4 && 0 <= py < 4
}

/// Whether `i` indexes the 16 cells of a shape grid.
pub open spec fn in_grid(i: int) -> bool {
    0 <= i < 16
}

/// Turns a numeric shape code into a block: 0 is empty, anything else is a
/// piece cell of that color.
pub fn block_of_code(c: usize) -> (r: Block)
    ensures
        r == spec_block_of_code(c as int),
{
    if c == 0 {
        Block::Empty
    } else {
        Block::Tetro(c)
    }
}

/// The numeric code of cell `idx` of shape `kind`.
pub fn shape_code(kind: usize, idx: usize) -> (r: usize)
    requires
        kind < 7,
        idx < 16,
    ensures
        r as int == spec_shape_code(kind as int, idx as int),
        r <= 7,
{
    let occupied = if kind == 0 {
        idx == 2 || idx == 6 || idx == 10 || idx == 14
    } else if kind == 1 {
        idx == 2 || idx == 5 || idx == 6 || idx == 9
    } else if kind == 2 {
        idx == 1 || idx == 5 || idx == 6 || idx == 10
    } else if kind == 3 {
        idx == 5 || idx == 6 || idx == 10 || idx == 14
    } else if kind == 4 {
        idx == 5 || idx == 6 || idx == 9 || idx == 13
    } else if kind == 5 {
        idx == 2 || idx == 5 || idx == 6 || idx == 10
    } else {
        idx == 5 || idx == 6 || idx == 9 || idx == 10
    };
    if occupied {
        kind + 1
    } else {
        0
    }
}

/// The block at cell `idx` of shape `kind`.
pub fn shape_block(kind: usize, idx: usize) -> (r: Block)
    requires
        kind < 7,
        idx < 16,
    ensures
        r == spec_shape_block(kind as int, idx as int),
{
    block_of_code(shape_code(kind, idx))
}

/// The shape-grid index read by local cell `(px, py)` at rotation `rot`.
pub fn rotated_index(px: i16, py: i16, rot: usize) -> (r: usize)
    requires
        0 <= px < 4,
        0 <= py < 4,
    ensures
        r as int == spec_rotated_index(px as int, py as int, rot as int),
        r < 16,
{
    let s = rot % 4;
    let v: i16 = if s == 0 {
        py * 4 + px
    } else if s == 1 {
        12 + py - px * 4
    } else if s == 2 {
        15 - py * 4 - px
    } else {
        3 - py + px * 4
    };
    v as usize
}

/// For each rotation, the rotated index maps the 16 local cells one to one
/// onto the 16 cells of the shape grid.
pub proof fn lemma_rotation_bijective(rot: int)
    ensures
        forall|px: int, py: int|
            #[trigger] in_box(px, py) ==> 0 <= spec_rotated_index(px, py, rot) < 16,
        forall|px1: int, py1: int, px2: int, py2: int|
            in_box(px1, py1) && in_box(px2, py2) && #[trigger] spec_rotated_index(px1, py1, rot)
                == #[trigger] spec_rotated_index(px2, py2, rot) ==> px1 == px2 && py1 == py2,
        forall|i: int|
            #[trigger] in_grid(i) ==> exists|px: int, py: int|
                in_box(px, py) && #[trigger] spec_rotated_index(px, py, rot) == i,
{
    assert forall|i: int| #[trigger] in_grid(i) implies exists|px: int, py: int|
        in_box(px, py) && #[trigger] spec_rotated_index(px, py, rot) == i by {
        let s = rot % 4;
        if s == 0 {
            assert(spec_rotated_index(i % 4, i / 4, rot) == i);
        } else if s == 1 {
            assert(spec_rotated_index(3 - i / 4, i % 4, rot) == i);
        } else if s == 2 {
            assert(spec_rotated_index((15 - i) % 4, (15 - i) / 4, rot) == i);
        } else {
            assert(spec_rotated_index(i / 4, 3 - i % 4, rot) == i);
        }
    }
}

/// Rotation state `rot + 1` reads the grid as state `rot` does after a quarter
/// turn of the local cell; four quarter turns give back every cell, so the
/// rotation states repeat with period 4 and every cell keeps its shape value.
pub proof fn lemma_rotation_order_four(kind: int, px: int, py: int, rot: int)
    requires
        rot >= 0,
    ensures
        spec_rotated_index(px, py, rot + 1) == spec_rotated_index(
            quarter_turn(px, py).0,
            quarter_turn(px, py).1,
            rot,
        ),
        ({
            let q1 = quarter_turn(px, py);
            let q2 = quarter_turn(q1.0, q1.1);
            let q3 = quarter_turn(q2.0, q2.1);
            let q4 = quarter_turn(q3.0, q3.1);
            q4 == (px, py)
        }),
        spec_rotated_index(px, py, rot + 4) == spec_rotated_index(px, py, rot),
        spec_shape_block(kind, spec_rotated_index(px, py, rot + 4)) == spec_shape_block(
            kind,
            spec_rotated_index(px, py, rot),
        ),
{
    assert((rot + 4) % 4 == rot % 4);
}

} // verus!
