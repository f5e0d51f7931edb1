use vstd::prelude::*;

verus! {

/// Side of a piece, and side to move.
///
/// White moves first and advances toward increasing rank; Black advances
/// toward decreasing rank.
#[derive(Clone, Copy, Debug, PartialEq, Eq, Structural, PartialOrd, Ord, Hash)]
pub enum Color {
    White,
    Black,
}

impl Color {
    pub open spec fn opposite_spec(self) -> Color {
        match self {
            Color::White => Color::Black,
            Color::Black => Color::White,
        }
    }

    /// Return the opposite color.
    pub fn opposite(&self) -> (r: Color)
        ensures
            r == self.opposite_spec(),
            r != *self,
    {
        match self {
            Color::Black => Color::White,
            Color::White => Color::Black,
        }
    }

    /// Rank step of a pawn of this color: +1 for White, -1 for Black.
    pub open spec fn direction(self) -> int {
        match self {
            Color::White => 1,
            Color::Black => -1,
        }
    }

    /// Rank on which the pieces of this color start (1 for White, 8 for Black).
    pub open spec fn home_rank(self) -> int {
        match self {
            Color::White => 1,
            Color::Black => 8,
        }
    }

    /// Rank on which the pawns of this color start (2 for White, 7 for Black).
    pub open spec fn pawn_rank(self) -> int {
        match self {
            Color::White => 2,
            Color::Black => 7,
        }
    }

    /// Rank on which a pawn of this color promotes (8 for White, 1 for Black).
    pub open spec fn last_rank(self) -> int {
        match self {
            Color::White => 8,
            Color::Black => 1,
        }
    }
}

} // verus!
