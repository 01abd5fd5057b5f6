use vstd::prelude::*;
use crate::block::Block;
use crate::field::{
    cell_index, clear_rows, field_wf, in_field, in_playable, lemma_clear_keeps_walls,
    lemma_coords, lemma_lock_keeps_walls, lock_spec, Field, FIELD_HEIGHT, FIELD_WIDTH,
};
use crate::shape::{
    in_box, rotated_index, shape_block, spec_rotated_index, spec_shape_block, spec_shape_code,
};

verus! {

/// Milliseconds between two gravity steps.
pub const MILLIS_PER_UPDATE: u64 = 250;

/// Number of shapes a piece can take.
pub const SHAPE_COUNT: usize = 7;

/// Column of a new piece's 4x4 box: centred, half the field width less two.
pub const SPAWN_X: i16 = 4;

/// Row of a new piece's 4x4 box: one row above the field.
pub const SPAWN_Y: i16 = -1;

/// Where the engine stands.
#[derive(Clone, Copy, PartialEq, Eq, Structural, Debug)]
pub enum State {
    /// A piece is falling; ticks and intents act.
    Dropping,
    /// A piece is being locked and rows cleared; never seen between calls.
    Clearing,
    /// A new piece could not be placed; nothing changes any more.
    GameOver,
}

/// What a game is: the field's cells, the falling piece and the state.
pub struct GameView {
    pub field: Seq<Block>,
    pub kind: int,
    pub rotation: int,
    pub x: int,
    pub y: int,
    pub state: State,
}

/// Whether local cell `(px, py)` of shape `kind` turned by `rot` is part of
/// the piece.
pub open spec fn occupied_local(kind: int, rot: int, px: int, py: int) -> bool {
    spec_shape_block(kind, spec_rotated_index(px, py, rot)) != Block::Empty
}

/// Whether shape `kind` turned by `rot`, with its box at `(x, y)`, can stand
/// on field `f`: each of its cells that lies in the field lies on an empty
/// cell. Cells outside the field never block.
pub open spec fn can_place_at(f: Seq<Block>, kind: int, rot: int, x: int, y: int) -> bool {
    forall|px: int, py: int|
        in_box(px, py) && in_field(x + px, y + py) && #[trigger] occupied_local(kind, rot, px, py)
            ==> f[cell_index(x + px, y + py)] == Block::Empty
}

pub open spec fn fits_i16(v: int) -> bool {
    i16::MIN <= v <= i16::MAX
}

/// A game's invariant: a walled field, a known shape, a rotation below 4, no
/// transient state, and a falling piece that stands where it is.
pub open spec fn view_wf(g: GameView) -> bool {
    &&& field_wf(g.field)
    &&& 0 <= g.kind < SHAPE_COUNT
    &&& 0 <= g.rotation < 4
    &&& fits_i16(g.x)
    &&& fits_i16(g.y)
    &&& g.state != State::Clearing
    &&& g.state == State::Dropping ==> can_place_at(g.field, g.kind, g.rotation, g.x, g.y)
}

/// Whether the piece can be moved by `(dx, dy)` and turned by `dr`.
pub open spec fn step_ok(g: GameView, dx: int, dy: int, dr: int) -> bool {
    &&& fits_i16(g.x + dx)
    &&& fits_i16(g.y + dy)
    &&& can_place_at(g.field, g.kind, (g.rotation + dr) % 4, g.x + dx, g.y + dy)
}

/// The game with the piece moved by `(dx, dy)` and turned by `dr`.
pub open spec fn stepped(g: GameView, dx: int, dy: int, dr: int) -> GameView {
    GameView {
        field: g.field,
        kind: g.kind,
        rotation: (g.rotation + dr) % 4,
        x: g.x + dx,
        y: g.y + dy,
        state: g.state,
    }
}

/// A movement intent: applied when the piece is falling and the moved piece
/// can stand, otherwise nothing changes.
pub open spec fn after_intent(g: GameView, dx: int, dy: int, dr: int) -> GameView {
    if g.state == State::Dropping && step_ok(g, dx, dy, dr) {
        stepped(g, dx, dy, dr)
    } else {
        g
    }
}

/// The cells that the piece writes into the field when it locks: the first
/// `n` local cells, column by column, that are part of the piece and lie in
/// the field, with their color.
pub open spec fn footprint(kind: int, rot: int, x: int, y: int, n: int) -> Seq<(i16, i16, usize)>
    decreases n,
{
    if n <= 0 {
        Seq::empty()
    } else {
        let prev = footprint(kind, rot, x, y, n - 1);
        let px = (n - 1) / 4;
        let py = (n - 1) % 4;
        if in_field(x + px, y + py) && occupied_local(kind, rot, px, py) {
            prev.push(
                (
                    (x + px) as i16,
                    (y + py) as i16,
                    spec_shape_code(kind, spec_rotated_index(px, py, rot)) as usize,
                ),
            )
        } else {
            prev
        }
    }
}

/// A new piece of shape `draw % 7` at the spawn position on field `f`; the
/// game is over when it cannot stand there.
pub open spec fn respawn(f: Seq<Block>, draw: int) -> GameView {
    let kind = draw % (SHAPE_COUNT as int);
    GameView {
        field: f,
        kind,
        rotation: 0,
        x: SPAWN_X as int,
        y: SPAWN_Y as int,
        state: if can_place_at(f, kind, 0, SPAWN_X as int, SPAWN_Y as int) {
            State::Dropping
        } else {
            State::GameOver
        },
    }
}

/// The field after the piece locks: its cells are written, then the full rows
/// among the four rows of its box are cleared.
pub open spec fn locked_field(g: GameView) -> Seq<Block> {
    clear_rows(lock_spec(g.field, footprint(g.kind, g.rotation, g.x, g.y, 16)), g.y, g.y + 4)
}

/// One gravity step: the piece falls one row if it can; otherwise it locks,
/// rows are cleared, and a piece of shape `draw % 7` is spawned. A game that
/// is over stays as it is.
pub open spec fn tick_spec(g: GameView, draw: int) -> GameView {
    if g.state != State::Dropping {
        g
    } else if step_ok(g, 0, 1, 0) {
        stepped(g, 0, 1, 0)
    } else {
        respawn(locked_field(g), draw)
    }
}

/// Each cell that a placed piece locks lies inside the walls.
proof fn lemma_footprint_playable(f: Seq<Block>, kind: int, rot: int, x: int, y: int, n: int)
    requires
        field_wf(f),
        can_place_at(f, kind, rot, x, y),
        0 <= n <= 16,
    ensures
        forall|k: int|
            0 <= k < footprint(kind, rot, x, y, n).len() ==> in_playable(
                (#[trigger] footprint(kind, rot, x, y, n)[k]).0 as int,
                footprint(kind, rot, x, y, n)[k].1 as int,
            ),
    decreases n,
{
    if n > 0 {
        lemma_footprint_playable(f, kind, rot, x, y, n - 1);
        let px = (n - 1) / 4;
        let py = (n - 1) % 4;
        if in_field(x + px, y + py) && occupied_local(kind, rot, px, py) {
            lemma_coords(x + px, y + py);
            assert(f[cell_index(x + px, y + py)] == Block::Empty);
            let code = spec_shape_code(kind, spec_rotated_index(px, py, rot));
            let c = ((x + px) as i16, (y + py) as i16, code as usize);
            assert(footprint(kind, rot, x, y, n) == footprint(kind, rot, x, y, n - 1).push(c));
        } else {
            assert(footprint(kind, rot, x, y, n) == footprint(kind, rot, x, y, n - 1));
        }
    }
}

/// A movement intent keeps the game's invariant.
pub proof fn lemma_intent_keeps_invariant(g: GameView, dx: int, dy: int, dr: int)
    requires
        view_wf(g),
    ensures
        view_wf(after_intent(g, dx, dy, dr)),
{
}

/// A gravity step keeps the game's invariant, and with it the walls, whatever
/// the next piece's shape.
pub proof fn lemma_tick_keeps_invariant(g: GameView, draw: int)
    requires
        view_wf(g),
        0 <= draw,
    ensures
        view_wf(tick_spec(g, draw)),
{
    if g.state == State::Dropping && !step_ok(g, 0, 1, 0) {
        let cells = footprint(g.kind, g.rotation, g.x, g.y, 16);
        lemma_footprint_playable(g.field, g.kind, g.rotation, g.x, g.y, 16);
        lemma_lock_keeps_walls(g.field, cells);
        lemma_clear_keeps_walls(lock_spec(g.field, cells), g.y, g.y + 4);
    }
}

/// When a move is allowed, every cell of the moved piece that lies in the
/// field lies on an empty cell.
pub proof fn lemma_allowed_move_lands_on_empty(g: GameView, dx: int, dy: int, dr: int)
    requires
        view_wf(g),
        g.state == State::Dropping,
        step_ok(g, dx, dy, dr),
    ensures
        ({
            let h = after_intent(g, dx, dy, dr);
            forall|px: int, py: int|
                in_box(px, py) && in_field(h.x + px, h.y + py) && #[trigger] occupied_local(
                    h.kind,
                    h.rotation,
                    px,
                    py,
                ) ==> h.field[cell_index(h.x + px, h.y + py)] == Block::Empty
        }),
{
}

/// Relies on rand::random::<usize>: a number drawn from the thread's
/// generator. Nothing is known of its value.
#[verifier::external_body]
fn random_draw() -> (r: usize) {
    rand::random::<usize>()
}

/// Whether enough time has passed since the last gravity step for the next.
pub fn tick_due(elapsed_ms: u64) -> (r: bool)
    ensures
        r == (elapsed_ms >= MILLIS_PER_UPDATE),
{
    elapsed_ms >= MILLIS_PER_UPDATE
}

/// The engine: the field, the falling piece and the state.
pub struct Game {
    field: Field,
    piece: usize,
    rotation: usize,
    origin_x: i16,
    origin_y: i16,
    state: State,
}

impl View for Game {
    type V = GameView;

    closed spec fn view(&self) -> GameView {
        GameView {
            field: self.field@,
            kind: self.piece as int,
            rotation: self.rotation as int,
            x: self.origin_x as int,
            y: self.origin_y as int,
            state: self.state,
        }
    }
}

impl Game {
    pub open spec fn wf(&self) -> bool {
        view_wf(self@)
    }

    /// A game on a fresh field, with a piece of shape 0 at the spawn position.
    pub fn new() -> (r: Game)
        ensures
            r.wf(),
            r@ == respawn(r@.field, 0),
            r@.state == State::Dropping,
            forall|i: int|
                0 <= i < crate::field::FIELD_AREA ==> #[trigger] r@.field[i]
                    == crate::field::initial_cell(i),
    {
        let field = Field::new();
        let g = Game {
            field,
            piece: 0,
            rotation: 0,
            origin_x: SPAWN_X,
            origin_y: SPAWN_Y,
            state: State::Dropping,
        };
        assert forall|px: int, py: int|
            in_box(px, py) && in_field(SPAWN_X + px, SPAWN_Y + py) && #[trigger] occupied_local(
                0,
                0,
                px,
                py,
            ) implies g.field@[cell_index(SPAWN_X + px, SPAWN_Y + py)] == Block::Empty by {
            lemma_coords(SPAWN_X + px, SPAWN_Y + py);
        }
        g
    }

    /// A game on `field`, with a piece of shape `kind` at the spawn position;
    /// it is over at once if that piece cannot stand there.
    pub fn with_field(field: Field, kind: usize) -> (r: Game)
        requires
            field.wf(),
            kind < SHAPE_COUNT,
        ensures
            r.wf(),
            r@ == respawn(field@, kind as int),
    {
        let mut g = Game {
            field,
            piece: kind,
            rotation: 0,
            origin_x: SPAWN_X,
            origin_y: SPAWN_Y,
            state: State::Clearing,
        };
        if g.can_place(0, 0, 0) {
            g.state = State::Dropping;
        } else {
            g.state = State::GameOver;
        }
        g
    }

    /// Whether the piece, moved by `(dx, dy)` and turned by `drot`, would stand:
    /// none of its cells that lie in the field lies on a cell that is not empty.
    pub fn can_place(&self, dx: i16, dy: i16, drot: usize) -> (r: bool)
        requires
            0 <= self@.kind < SHAPE_COUNT,
            0 <= self@.rotation < 4,
            self@.field.len() == crate::field::FIELD_AREA,
        ensures
            r == can_place_at(
                self@.field,
                self@.kind,
                (self@.rotation + drot) % 4,
                self@.x + dx,
                self@.y + dy,
            ),
    {
        let nx: i32 = self.origin_x as i32 + dx as i32;
        let ny: i32 = self.origin_y as i32 + dy as i32;
        let rot: usize = (self.rotation + drot % 4) % 4;
        assert(rot == (self.rotation + drot) % 4) by (nonlinear_arith)
            requires
                rot == (self.rotation + drot % 4) % 4,
        ;
        let ghost f = self@.field;
        let ghost kind = self@.kind;
        let mut px: i16 = 0;
        while px < 4
            invariant
                0 <= px <= 4,
                0 <= self.piece < SHAPE_COUNT,
                rot < 4,
                rot == (self@.rotation + drot) % 4,
                f == self@.field,
                kind == self@.kind,
                f.len() == crate::field::FIELD_AREA,
                nx == self@.x + dx,
                ny == self@.y + dy,
                forall|qx: int, qy: int|
                    in_box(qx, qy) && qx < px && in_field(nx + qx, ny + qy)
                        && #[trigger] occupied_local(kind, rot as int, qx, qy) ==> f[cell_index(
                        nx + qx,
                        ny + qy,
                    )] == Block::Empty,
            decreases 4 - px,
        {
            let mut py: i16 = 0;
            while py < 4
                invariant
                    0 <= px < 4,
                    0 <= py <= 4,
                    0 <= self.piece < SHAPE_COUNT,
                    rot < 4,
                    rot == (self@.rotation + drot) % 4,
                    f == self@.field,
                    kind == self@.kind,
                    f.len() == crate::field::FIELD_AREA,
                    nx == self@.x + dx,
                    ny == self@.y + dy,
                    forall|qx: int, qy: int|
                        in_box(qx, qy) && (qx < px || (qx == px && qy < py)) && in_field(
                            nx + qx,
                            ny + qy,
                        ) && #[trigger] occupied_local(kind, rot as int, qx, qy) ==> f[cell_index(
                            nx + qx,
                            ny + qy,
                        )] == Block::Empty,
                decreases 4 - py,
            {
                let fx = nx + px as i32;
                let fy = ny + py as i32;
                if 0 <= fx && fx < FIELD_WIDTH as i32 && 0 <= fy && fy < FIELD_HEIGHT as i32 {
                    let pi = rotated_index(px, py, rot);
                    if shape_block(self.piece, pi) != Block::Empty {
                        if self.field.cell_at(fx as i16, fy as i16) != Block::Empty {
                            assert(occupied_local(kind, rot as int, px as int, py as int));
                            return false;
                        }
                    }
                }
                py = py + 1;
            }
            px = px + 1;
        }
        true
    }

    /// Moves the piece by `(dx, dy)` and turns it by `drot` if the game is
    /// running and the moved piece can stand; returns whether it moved.
    fn step(&mut self, dx: i16, dy: i16, drot: usize) -> (moved: bool)
        requires
            old(self).wf(),
        ensures
            final(self).wf(),
            moved == (old(self)@.state == State::Dropping && step_ok(
                old(self)@,
                dx as int,
                dy as int,
                drot as int,
            )),
            final(self)@ == after_intent(old(self)@, dx as int, dy as int, drot as int),
    {
        if self.state != State::Dropping {
            return false;
        }
        let nx: i32 = self.origin_x as i32 + dx as i32;
        let ny: i32 = self.origin_y as i32 + dy as i32;
        if nx < i16::MIN as i32 || nx > i16::MAX as i32 || ny < i16::MIN as i32 || ny
            > i16::MAX as i32 {
            return false;
        }
        if !self.can_place(dx, dy, drot) {
            return false;
        }
        let r0 = self.rotation;
        let r1 = (r0 + drot % 4) % 4;
        assert(r1 == (r0 + drot) % 4) by (nonlinear_arith)
            requires
                r1 == (r0 + drot % 4) % 4,
        ;
        self.origin_x = nx as i16;
        self.origin_y = ny as i16;
        self.rotation = r1;
        true
    }

    /// Moves the piece one column left if it can stand there.
    pub fn move_left(&mut self)
        requires
            old(self).wf(),
        ensures
            final(self).wf(),
            final(self)@ == after_intent(old(self)@, -1, 0, 0),
    {
        self.step(-1, 0, 0);
    }

    /// Moves the piece one column right if it can stand there.
    pub fn move_right(&mut self)
        requires
            old(self).wf(),
        ensures
            final(self).wf(),
            final(self)@ == after_intent(old(self)@, 1, 0, 0),
    {
        self.step(1, 0, 0);
    }

    /// Moves the piece one row down if it can stand there.
    pub fn soft_drop(&mut self)
        requires
            old(self).wf(),
        ensures
            final(self).wf(),
            final(self)@ == after_intent(old(self)@, 0, 1, 0),
    {
        self.step(0, 1, 0);
    }

    /// Turns the piece a quarter turn if it can stand turned.
    pub fn rotate(&mut self)
        requires
            old(self).wf(),
        ensures
            final(self).wf(),
            final(self)@ == after_intent(old(self)@, 0, 0, 1),
    {
        self.step(0, 0, 1);
    }

    /// The cells of the piece that lie in the field, with their color.
    fn lock_footprint(&self) -> (r: Vec<(i16, i16, usize)>)
        requires
            0 <= self@.kind < SHAPE_COUNT,
            0 <= self@.rotation < 4,
        ensures
            r@ == footprint(self@.kind, self@.rotation, self@.x, self@.y, 16),
    {
        let mut cells: Vec<(i16, i16, usize)> = Vec::new();
        let mut k: usize = 0;
        while k < 16
            invariant
                k <= 16,
                0 <= self@.kind < SHAPE_COUNT,
                0 <= self@.rotation < 4,
                cells@ == footprint(self@.kind, self@.rotation, self@.x, self@.y, k as int),
            decreases 16 - k,
        {
            let px = (k / 4) as i16;
            let py = (k % 4) as i16;
            let fx: i32 = self.origin_x as i32 + px as i32;
            let fy: i32 = self.origin_y as i32 + py as i32;
            if 0 <= fx && fx < FIELD_WIDTH as i32 && 0 <= fy && fy < FIELD_HEIGHT as i32 {
                let b = shape_block(self.piece, rotated_index(px, py, self.rotation));
                match b {
                    Block::Tetro(c) => {
                        cells.push((fx as i16, fy as i16, c));
                    },
                    _ => {},
                }
            }
            k = k + 1;
        }
        cells
    }

    /// One gravity step, with `draw` choosing the shape of the next piece
    /// (`draw % 7`): the piece falls one row if it can; otherwise it locks,
    /// the full rows among the four rows of its box are cleared, and the next
    /// piece spawns, ending the game if it cannot stand. A game that is over
    /// stays as it is.
    pub fn tick_with(&mut self, draw: usize)
        requires
            old(self).wf(),
        ensures
            final(self).wf(),
            final(self)@ == tick_spec(old(self)@, draw as int),
    {
        if self.state != State::Dropping {
            return;
        }
        if self.step(0, 1, 0) {
            return;
        }
        self.state = State::Clearing;
        let cells = self.lock_footprint();
        proof {
            lemma_footprint_playable(
                self@.field,
                self@.kind,
                self@.rotation,
                self@.x,
                self@.y,
                16,
            );
        }
        self.field.lock_cells(&cells);
        let y0: i32 = self.origin_y as i32;
        self.field.clear_full_lines(y0, y0 + 4);
        self.piece = draw % SHAPE_COUNT;
        self.rotation = 0;
        self.origin_x = SPAWN_X;
        self.origin_y = SPAWN_Y;
        if self.can_place(0, 0, 0) {
            self.state = State::Dropping;
        } else {
            self.state = State::GameOver;
        }
    }

    /// One gravity step, the next piece's shape drawn at random.
    pub fn tick(&mut self)
        requires
            old(self).wf(),
        ensures
            final(self).wf(),
            exists|draw: usize| final(self)@ == tick_spec(old(self)@, draw as int),
    {
        let draw = random_draw();
        self.tick_with(draw);
    }

    /// The field.
    pub fn field(&self) -> (r: &Field)
        ensures
            r@ == self@.field,
    {
        &self.field
    }

    /// The shape of the falling piece.
    pub fn piece_kind(&self) -> (r: usize)
        ensures
            r as int == self@.kind,
    {
        self.piece
    }

    /// The rotation of the falling piece, below 4.
    pub fn rotation(&self) -> (r: usize)
        ensures
            r as int == self@.rotation,
    {
        self.rotation
    }

    /// The column of the falling piece's box.
    pub fn origin_x(&self) -> (r: i16)
        ensures
            r as int == self@.x,
    {
        self.origin_x
    }

    /// The row of the falling piece's box.
    pub fn origin_y(&self) -> (r: i16)
        ensures
            r as int == self@.y,
    {
        self.origin_y
    }

    /// Where the engine stands.
    pub fn state(&self) -> (r: State)
        ensures
            r == self@.state,
    {
        self.state
    }

    /// Whether the game is over.
    pub fn is_game_over(&self) -> (r: bool)
        ensures
            r == (self@.state == State::GameOver),
    {
        self.state == State::GameOver
    }
}

} // verus!
