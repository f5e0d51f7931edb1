use vstd::prelude::*;

use crate::piece::Piece;
use crate::square::Square;

verus! {

/// Movement representation.
///
/// A movement names the square a piece leaves and the square it goes to, the
/// piece it captures, if any, and for a pawn reaching the last rank the piece
/// that replaces it. Castling is a king movement of more than one file.
#[derive(Clone, Copy, Debug, PartialEq, Eq, Structural)]
pub struct Movement {
    pub from: Square,
    pub to: Square,
    pub capture: Option<Piece>,
    pub promotion: Option<Piece>,
}

impl Movement {
    /// Check if the movement is a capture.
    pub fn is_capture(&self) -> (r: bool)
        ensures
            r == self.capture is Some,
    {
        self.capture.is_some()
    }

    /// Rank distance covered, destination minus origin.
    pub open spec fn rank_delta(self) -> int {
        self.to@.0 - self.from@.0
    }

    /// File distance covered, destination minus origin.
    pub open spec fn file_delta(self) -> int {
        self.to@.1 - self.from@.1
    }
}

} // verus!
