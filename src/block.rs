use vstd::prelude::*;

verus! {

/// One cell of the playing field or of a shape.
#[derive(Clone, Copy, PartialEq, Eq, Structural, Debug)]
pub enum Block {
    /// Nothing here.
    Empty,
    /// A cell of a piece, with its color index (1 to 7 for the shapes).
    Tetro(usize),
    /// Reserved: no rule produces it.
    Garbage,
    /// The immutable border of the field.
    Wall,
}

} // verus!
