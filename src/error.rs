use vstd::prelude::*;

verus! {

/// Failures reported by the library.
#[derive(Clone, Copy, Debug, PartialEq, Eq, Structural)]
pub enum ChessError {
    /// A rank or file outside 1..=8 was given for a square.
    InvalidSquare,
    /// The origin holds no piece of the side to move, or the destination
    /// holds a piece of that same side.
    MoveNotApplicable,
}

} // verus!
