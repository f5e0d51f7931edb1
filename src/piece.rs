use vstd::prelude::*;

verus! {

/// Kind of a piece. The color is kept apart, by where the piece is stored.
#[derive(Clone, Copy, Debug, PartialEq, Eq, Structural, PartialOrd, Ord, Hash)]
pub enum Piece {
    Pawn,
    Knight,
    Bishop,
    Rook,
    Queen,
    King,
}

impl Piece {
    /// The kinds a pawn may promote to.
    pub open spec fn is_promotion_kind(self) -> bool {
        self == Piece::Queen || self == Piece::Rook || self == Piece::Bishop || self == Piece::Knight
    }
}

} // verus!
