use vstd::prelude::*;
use crate::block::Block;

verus! {

/// Width of the field in cells, wall columns included.
pub const FIELD_WIDTH: i16 = 12;

/// Height of the field in cells, floor row included.
pub const FIELD_HEIGHT: i16 = 18;

/// Number of cells of the field.
pub const FIELD_AREA: usize = 216;

/// The offset of cell `(x, y)` in the row-major cell array.
pub open spec fn cell_index(x: int, y: int) -> int {
    y * FIELD_WIDTH + x
}

/// Column of the cell at offset `i`.
pub open spec fn col_of(i: int) -> int {
    i % (FIELD_WIDTH as int)
}

/// Row of the cell at offset `i`.
pub open spec fn row_of(i: int) -> int {
    i / (FIELD_WIDTH as int)
}

pub open spec fn in_field(x: int, y: int) -> bool {
    0 <= x < FIELD_WIDTH && 0 <= y < FIELD_HEIGHT
}

/// The wall columns at both sides and the floor row.
pub open spec fn is_boundary(x: int, y: int) -> bool {
    x == 0 || x == FIELD_WIDTH - 1 || y == FIELD_HEIGHT - 1
}

/// The cells inside the walls.
pub open spec fn in_playable(x: int, y: int) -> bool {
    1 <= x <= FIELD_WIDTH - 2 && 0 <= y <= FIELD_HEIGHT - 2
}

/// The cell at offset `i` of a fresh field.
pub open spec fn initial_cell(i: int) -> Block {
    if is_boundary(col_of(i), row_of(i)) {
        Block::Wall
    } else {
        Block::Empty
    }
}

/// A row of the field is full when none of its cells inside the walls is empty.
pub open spec fn row_full(f: Seq<Block>, y: int) -> bool {
    forall|x: int| 1 <= x <= FIELD_WIDTH - 2 ==> f[#[trigger] cell_index(x, y)] != Block::Empty
}

/// The cell at offset `i` after row `line` is removed: every row down to
/// `line` takes the contents of the row above it, row 0 becomes empty, and the
/// walls and the rows below `line` stay.
pub open spec fn shifted_cell(f: Seq<Block>, line: int, i: int) -> Block {
    let x = col_of(i);
    let y = row_of(i);
    if 1 <= x <= FIELD_WIDTH - 2 && y <= line {
        if y == 0 {
            Block::Empty
        } else {
            f[i - FIELD_WIDTH]
        }
    } else {
        f[i]
    }
}

/// The field after row `line` is removed and the rows above it collapse.
pub open spec fn shift_down(f: Seq<Block>, line: int) -> Seq<Block> {
    Seq::new(f.len(), |i: int| shifted_cell(f, line, i))
}

/// Whether row `y` is taken into account by line clearing.
pub open spec fn clearable_row(y: int) -> bool {
    0 <= y <= FIELD_HEIGHT - 2
}

/// One step of line clearing: row `y` is removed if it is full.
pub open spec fn clear_step(f: Seq<Block>, y: int) -> Seq<Block> {
    if clearable_row(y) && row_full(f, y) {
        shift_down(f, y)
    } else {
        f
    }
}

/// The field after clearing the full rows among `y..end`, scanned upwards in
/// row number, each row tested after the earlier ones were removed.
pub open spec fn clear_rows(f: Seq<Block>, y: int, end: int) -> Seq<Block>
    decreases end - y,
{
    if y >= end {
        f
    } else {
        clear_rows(clear_step(f, y), y + 1, end)
    }
}

/// The number of rows that `clear_rows` removes.
pub open spec fn cleared_count(f: Seq<Block>, y: int, end: int) -> nat
    decreases end - y,
{
    if y >= end {
        0
    } else {
        (if clearable_row(y) && row_full(f, y) {
            1nat
        } else {
            0nat
        }) + cleared_count(clear_step(f, y), y + 1, end)
    }
}

/// The field after each `(x, y, color)` of `cells` is written, in order, as a
/// piece cell of that color.
pub open spec fn lock_spec(f: Seq<Block>, cells: Seq<(i16, i16, usize)>) -> Seq<Block>
    decreases cells.len(),
{
    if cells.len() == 0 {
        f
    } else {
        let c = cells.last();
        lock_spec(f, cells.drop_last()).update(
            cell_index(c.0 as int, c.1 as int),
            Block::Tetro(c.2),
        )
    }
}

/// A field's cells: the right number of them, and walls all along the
/// boundary.
pub open spec fn field_wf(f: Seq<Block>) -> bool {
    &&& f.len() == FIELD_AREA
    &&& forall|i: int|
        0 <= i < FIELD_AREA && is_boundary(col_of(i), row_of(i)) ==> #[trigger] f[i]
            == Block::Wall
}

/// Offsets and coordinates agree.
pub proof fn lemma_coords(x: int, y: int)
    requires
        0 <= x < FIELD_WIDTH,
        0 <= y,
    ensures
        col_of(cell_index(x, y)) == x,
        row_of(cell_index(x, y)) == y,
{
    vstd::arithmetic::div_mod::lemma_fundamental_div_mod_converse(cell_index(x, y), 12, y, x);
}

/// Every boundary cell of a well-formed field is a wall.
pub proof fn lemma_boundary_walls(f: Seq<Block>)
    requires
        field_wf(f),
    ensures
        forall|x: int, y: int|
            in_field(x, y) && is_boundary(x, y) ==> f[#[trigger] cell_index(x, y)] == Block::Wall,
{
    assert forall|x: int, y: int| in_field(x, y) && is_boundary(x, y) implies f[#[trigger] cell_index(
        x,
        y,
    )] == Block::Wall by {
        lemma_coords(x, y);
    }
}

/// Writing piece cells inside the walls keeps the walls.
pub proof fn lemma_lock_keeps_walls(f: Seq<Block>, cells: Seq<(i16, i16, usize)>)
    requires
        field_wf(f),
        forall|k: int|
            0 <= k < cells.len() ==> in_playable((#[trigger] cells[k]).0 as int, cells[k].1 as int),
    ensures
        field_wf(lock_spec(f, cells)),
    decreases cells.len(),
{
    if cells.len() > 0 {
        let c = cells.last();
        assert(in_playable(c.0 as int, c.1 as int));
        lemma_coords(c.0 as int, c.1 as int);
        lemma_lock_keeps_walls(f, cells.drop_last());
    }
}

/// Removing a row keeps the walls.
pub proof fn lemma_shift_keeps_walls(f: Seq<Block>, line: int)
    requires
        field_wf(f),
        clearable_row(line),
    ensures
        field_wf(shift_down(f, line)),
{
}

/// Clearing rows keeps the walls.
pub proof fn lemma_clear_keeps_walls(f: Seq<Block>, y: int, end: int)
    requires
        field_wf(f),
    ensures
        field_wf(clear_rows(f, y, end)),
    decreases end - y,
{
    if y < end {
        if clearable_row(y) && row_full(f, y) {
            lemma_shift_keeps_walls(f, y);
        }
        lemma_clear_keeps_walls(clear_step(f, y), y + 1, end);
    }
}

/// When a full row is removed, each row down to it holds what the row above
/// it held, row 0 is empty inside the walls, and the walls and the rows below
/// stay as they were.
pub proof fn lemma_removed_row_takes_row_above(f: Seq<Block>, line: int)
    requires
        field_wf(f),
        clearable_row(line),
        row_full(f, line),
    ensures
        clear_step(f, line) == shift_down(f, line),
        forall|x: int, y: int|
            1 <= x <= FIELD_WIDTH - 2 && 1 <= y <= line ==> #[trigger] shift_down(f, line)[cell_index(
                x,
                y,
            )] == f[cell_index(x, y - 1)],
        forall|x: int|
            1 <= x <= FIELD_WIDTH - 2 ==> #[trigger] shift_down(f, line)[cell_index(x, 0)]
                == Block::Empty,
        forall|x: int, y: int|
            in_field(x, y) && (y > line || x == 0 || x == FIELD_WIDTH - 1) ==> #[trigger] shift_down(
                f,
                line,
            )[cell_index(x, y)] == f[cell_index(x, y)],
{
    assert forall|x: int, y: int| 1 <= x <= FIELD_WIDTH - 2 && 1 <= y <= line implies #[trigger] shift_down(
        f,
        line,
    )[cell_index(x, y)] == f[cell_index(x, y - 1)] by {
        lemma_coords(x, y);
    }
    assert forall|x: int| 1 <= x <= FIELD_WIDTH - 2 implies #[trigger] shift_down(f, line)[cell_index(
        x,
        0,
    )] == Block::Empty by {
        lemma_coords(x, 0);
    }
    assert forall|x: int, y: int|
        in_field(x, y) && (y > line || x == 0 || x == FIELD_WIDTH - 1) implies #[trigger] shift_down(
        f,
        line,
    )[cell_index(x, y)] == f[cell_index(x, y)] by {
        lemma_coords(x, y);
    }
}

/// The playing field: a fixed grid of blocks, stored row by row, whose wall
/// columns and floor row are walls for its whole life.
#[derive(Debug)]
pub struct Field {
    cells: Vec<Block>,
}

impl View for Field {
    type V = Seq<Block>;

    closed spec fn view(&self) -> Seq<Block> {
        self.cells@
    }
}

impl Field {
    /// The field has its size and its walls.
    pub open spec fn wf(&self) -> bool {
        field_wf(self@)
    }

    /// A field with walls at both sides and at the bottom, empty inside.
    pub fn new() -> (r: Field)
        ensures
            r.wf(),
            r@.len() == FIELD_AREA,
            forall|i: int| 0 <= i < FIELD_AREA ==> #[trigger] r@[i] == initial_cell(i),
    {
        let mut cells: Vec<Block> = Vec::new();
        let mut i: usize = 0;
        while i < FIELD_AREA
            invariant
                i <= FIELD_AREA,
                cells@.len() == i,
                forall|j: int| 0 <= j < i ==> #[trigger] cells@[j] == initial_cell(j),
            decreases FIELD_AREA - i,
        {
            let x = i % 12;
            let y = i / 12;
            if x == 0 || x == 11 || y == 17 {
                cells.push(Block::Wall);
            } else {
                cells.push(Block::Empty);
            }
            i = i + 1;
        }
        Field { cells }
    }

    /// The block at `(x, y)`.
    pub fn cell_at(&self, x: i16, y: i16) -> (r: Block)
        requires
            self@.len() == FIELD_AREA,
            in_field(x as int, y as int),
        ensures
            r == self@[cell_index(x as int, y as int)],
    {
        self.cells[(y * FIELD_WIDTH + x) as usize]
    }

    /// Writes each `(x, y, color)` of `cells`, in order, as a piece cell.
    pub fn lock_cells(&mut self, cells: &Vec<(i16, i16, usize)>)
        requires
            old(self).wf(),
            forall|k: int|
                0 <= k < cells@.len() ==> in_playable(
                    (#[trigger] cells@[k]).0 as int,
                    cells@[k].1 as int,
                ),
        ensures
            final(self).wf(),
            final(self)@ == lock_spec(old(self)@, cells@),
    {
        let mut k: usize = 0;
        while k < cells.len()
            invariant
                k <= cells@.len(),
                self.wf(),
                self@ == lock_spec(old(self)@, cells@.subrange(0, k as int)),
                forall|j: int|
                    0 <= j < cells@.len() ==> in_playable(
                        (#[trigger] cells@[j]).0 as int,
                        cells@[j].1 as int,
                    ),
            decreases cells@.len() - k,
        {
            let (x, y, c) = cells[k];
            proof {
                assert(cells@.subrange(0, k + 1).drop_last() =~= cells@.subrange(0, k as int));
                lemma_coords(x as int, y as int);
            }
            let idx = (y * FIELD_WIDTH + x) as usize;
            self.cells.set(idx, Block::Tetro(c));
            k = k + 1;
        }
        proof {
            assert(cells@.subrange(0, cells@.len() as int) =~= cells@);
        }
    }

    /// Whether row `y` is full: no cell inside the walls is empty.
    pub fn is_row_full(&self, y: i16) -> (r: bool)
        requires
            self.wf(),
            clearable_row(y as int),
        ensures
            r == row_full(self@, y as int),
    {
        let mut x: i16 = 1;
        while x <= FIELD_WIDTH - 2
            invariant
                1 <= x <= FIELD_WIDTH - 1,
                self.wf(),
                clearable_row(y as int),
                forall|q: int|
                    1 <= q < x ==> self@[#[trigger] cell_index(q, y as int)] != Block::Empty,
            decreases FIELD_WIDTH - x,
        {
            if self.cells[(y * FIELD_WIDTH + x) as usize] == Block::Empty {
                assert(self@[cell_index(x as int, y as int)] == Block::Empty);
                return false;
            }
            x = x + 1;
        }
        true
    }

    /// Removes row `line`: every row down to `line` takes the contents of the
    /// row above it and row 0 becomes empty, inside the walls.
    pub fn shift_rows_down(&mut self, line: i16)
        requires
            old(self).wf(),
            clearable_row(line as int),
        ensures
            final(self).wf(),
            final(self)@ == shift_down(old(self)@, line as int),
    {
        let ghost f = self@;
        let mut py: i16 = line;
        while py >= 1
            invariant
                0 <= py <= line,
                clearable_row(line as int),
                f.len() == FIELD_AREA,
                self@.len() == FIELD_AREA,
                forall|i: int|
                    0 <= i < FIELD_AREA ==> #[trigger] self@[i] == if 1 <= col_of(i)
                        <= FIELD_WIDTH - 2 && py < row_of(i) <= line {
                        f[i - FIELD_WIDTH]
                    } else {
                        f[i]
                    },
            decreases py,
        {
            let mut px: i16 = 1;
            while px <= FIELD_WIDTH - 2
                invariant
                    1 <= px <= FIELD_WIDTH - 1,
                    1 <= py <= line,
                    clearable_row(line as int),
                    f.len() == FIELD_AREA,
                    self@.len() == FIELD_AREA,
                    forall|i: int|
                        0 <= i < FIELD_AREA ==> #[trigger] self@[i] == if (1 <= col_of(i)
                            <= FIELD_WIDTH - 2 && py < row_of(i) <= line) || (row_of(i) == py
                            && 1 <= col_of(i) < px) {
                            f[i - FIELD_WIDTH]
                        } else {
                            f[i]
                        },
                decreases FIELD_WIDTH - px,
            {
                proof {
                    lemma_coords(px as int, py as int);
                    lemma_coords(px as int, py - 1);
                }
                let b = self.cells[((py - 1) * FIELD_WIDTH + px) as usize];
                self.cells.set((py * FIELD_WIDTH + px) as usize, b);
                px = px + 1;
            }
            py = py - 1;
        }
        let mut px: i16 = 1;
        while px <= FIELD_WIDTH - 2
            invariant
                1 <= px <= FIELD_WIDTH - 1,
                clearable_row(line as int),
                f.len() == FIELD_AREA,
                self@.len() == FIELD_AREA,
                forall|i: int|
                    0 <= i < FIELD_AREA ==> #[trigger] self@[i] == if 1 <= col_of(i)
                        <= FIELD_WIDTH - 2 && 0 < row_of(i) <= line {
                        f[i - FIELD_WIDTH]
                    } else if row_of(i) == 0 && 1 <= col_of(i) < px {
                        Block::Empty
                    } else {
                        f[i]
                    },
            decreases FIELD_WIDTH - px,
        {
            proof {
                lemma_coords(px as int, 0);
            }
            self.cells.set(px as usize, Block::Empty);
            px = px + 1;
        }
        assert(self@ =~= shift_down(f, line as int));
    }

    /// Clears the full rows among `y_start..y_end`, scanning upwards in row
    /// number; rows outside the walls' inside are skipped. Returns how many
    /// rows were removed.
    pub fn clear_full_lines(&mut self, y_start: i32, y_end: i32) -> (r: usize)
        requires
            old(self).wf(),
        ensures
            final(self).wf(),
            final(self)@ == clear_rows(old(self)@, y_start as int, y_end as int),
            r as nat == cleared_count(old(self)@, y_start as int, y_end as int),
    {
        let mut count: usize = 0;
        let mut y: i32 = y_start;
        while y < y_end
            invariant
                y_start <= y,
                self.wf(),
                count <= y - y_start,
                clear_rows(old(self)@, y_start as int, y_end as int) == clear_rows(
                    self@,
                    y as int,
                    y_end as int,
                ),
                cleared_count(old(self)@, y_start as int, y_end as int) == count + cleared_count(
                    self@,
                    y as int,
                    y_end as int,
                ),
            decreases y_end - y,
        {
            if 0 <= y && y <= (FIELD_HEIGHT - 2) as i32 {
                let row = y as i16;
                if self.is_row_full(row) {
                    self.shift_rows_down(row);
                    count = count + 1;
                }
            }
            y = y + 1;
        }
        count
    }
}

} // verus!
