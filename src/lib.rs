//! A falling-block puzzle engine: a walled grid of blocks, a falling piece
//! built from a fixed table of shapes, and the rules for moving, rotating,
//! locking and clearing full rows.
pub mod block;
pub mod field;
pub mod game;
pub mod shape;

pub use block::Block;
pub use field::{Field, FIELD_AREA, FIELD_HEIGHT, FIELD_WIDTH};
pub use game::{tick_due, Game, State, MILLIS_PER_UPDATE, SHAPE_COUNT, SPAWN_X, SPAWN_Y};
pub use shape::{block_of_code, rotated_index, shape_block, shape_code};
