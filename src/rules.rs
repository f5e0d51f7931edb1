use vstd::prelude::*;

use crate::board::BoardState;
use crate::color::Color;
use crate::movement::Movement;
use crate::piece::Piece;
use crate::square::{
    group_square, is_king_offset, is_knight_offset, ray_point, valid, Square,
};

verus! {

broadcast use group_square;

/// Number of unit steps (dr, df) that lead from `v` toward `w`, read off the
/// axis along which the direction moves.
pub open spec fn ray_distance(v: (int, int), w: (int, int), dr: int, df: int) -> int {
    if dr > 0 {
        w.0 - v.0
    } else if dr < 0 {
        v.0 - w.0
    } else if df > 0 {
        w.1 - v.1
    } else {
        v.1 - w.1
    }
}

impl BoardState {
    /// The destination is empty and nothing is captured, or it holds a piece
    /// of the opponent and that piece is the one captured.
    pub open spec fn lands(self, m: Movement) -> bool {
        match self.occupant(m.to@) {
            None => m.capture is None,
            Some((p, c)) => c != self.side_to_move && m.capture == Some(p),
        }
    }

    /// A knight jump: a two-by-one displacement onto an empty or enemy square.
    pub open spec fn is_knight_move(self, m: Movement) -> bool {
        &&& is_knight_offset(m.rank_delta(), m.file_delta())
        &&& m.promotion is None
        &&& self.lands(m)
    }

    /// A king step: one square in any direction onto an empty or enemy square.
    pub open spec fn is_king_step(self, m: Movement) -> bool {
        &&& is_king_offset(m.rank_delta(), m.file_delta())
        &&& m.promotion is None
        &&& self.lands(m)
    }

    /// A slide in the unit direction (dr, df): every square passed over is
    /// empty, and the destination is empty or holds an enemy piece.
    pub open spec fn slides(self, m: Movement, dr: int, df: int) -> bool {
        let k = ray_distance(m.from@, m.to@, dr, df);
        &&& k >= 1
        &&& m.to@ == ray_point(m.from@, dr, df, k)
        &&& forall|j: int|
            1 <= j < k ==> self.is_empty(#[trigger] ray_point(m.from@, dr, df, j))
        &&& m.promotion is None
        &&& self.lands(m)
    }

    pub open spec fn is_bishop_move(self, m: Movement) -> bool {
        self.slides(m, 1, 1) || self.slides(m, 1, -1) || self.slides(m, -1, 1) || self.slides(
            m,
            -1,
            -1,
        )
    }

    pub open spec fn is_rook_move(self, m: Movement) -> bool {
        self.slides(m, 1, 0) || self.slides(m, -1, 0) || self.slides(m, 0, 1) || self.slides(
            m,
            0,
            -1,
        )
    }

    pub open spec fn is_queen_move(self, m: Movement) -> bool {
        self.is_bishop_move(m) || self.is_rook_move(m)
    }

    /// Castling of the side to move: the right is held, the king stands on its
    /// home square, the own rook on its corner, the squares between are empty,
    /// and the king moves two files toward the rook.
    pub open spec fn castles(self, m: Movement, kingside: bool) -> bool {
        let c = self.side_to_move;
        let r = c.home_rank();
        let (queenside_right, kingside_right) = self.castling_of(c);
        &&& m.from@ == (r, 5int)
        &&& m.capture is None
        &&& m.promotion is None
        &&& if kingside {
            &&& kingside_right
            &&& m.to@ == (r, 7int)
            &&& self.is_empty((r, 6int))
            &&& self.is_empty((r, 7int))
            &&& self.piece_of(c, (r, 8int)) == Some(Piece::Rook)
        } else {
            &&& queenside_right
            &&& m.to@ == (r, 3int)
            &&& self.is_empty((r, 2int))
            &&& self.is_empty((r, 3int))
            &&& self.is_empty((r, 4int))
            &&& self.piece_of(c, (r, 1int)) == Some(Piece::Rook)
        }
    }

    pub open spec fn is_king_move(self, m: Movement) -> bool {
        self.is_king_step(m) || self.castles(m, true) || self.castles(m, false)
    }

    /// A pawn reaching the last rank names one promotion kind; otherwise none.
    pub open spec fn promotes_right(self, m: Movement) -> bool {
        if m.to@.0 == self.side_to_move.last_rank() {
            m.promotion matches Some(p) && p.is_promotion_kind()
        } else {
            m.promotion is None
        }
    }

    /// One square straight forward, onto an empty square.
    pub open spec fn is_pawn_push(self, m: Movement) -> bool {
        let dir = self.side_to_move.direction();
        &&& m.to@ == (m.from@.0 + dir, m.from@.1)
        &&& self.is_empty(m.to@)
        &&& m.capture is None
        &&& self.promotes_right(m)
    }

    /// Two squares straight forward from the start rank, over an empty square
    /// onto an empty square.
    pub open spec fn is_pawn_double_push(self, m: Movement) -> bool {
        let dir = self.side_to_move.direction();
        &&& m.from@.0 == self.side_to_move.pawn_rank()
        &&& m.to@ == (m.from@.0 + 2 * dir, m.from@.1)
        &&& self.is_empty((m.from@.0 + dir, m.from@.1))
        &&& self.is_empty(m.to@)
        &&& m.capture is None
        &&& m.promotion is None
    }

    /// One square diagonally forward.
    pub open spec fn is_pawn_diagonal(self, m: Movement) -> bool {
        &&& m.to@.0 == m.from@.0 + self.side_to_move.direction()
        &&& (m.to@.1 == m.from@.1 - 1 || m.to@.1 == m.from@.1 + 1)
    }

    /// A diagonal capture of an enemy piece.
    pub open spec fn is_pawn_capture(self, m: Movement) -> bool {
        &&& self.is_pawn_diagonal(m)
        &&& self.occupant(m.to@) matches Some((p, c)) && c != self.side_to_move && m.capture
            == Some(p)
        &&& self.promotes_right(m)
    }

    /// A diagonal capture onto the empty en passant target, taking the enemy
    /// pawn beside the origin, on the destination's file.
    pub open spec fn is_en_passant(self, m: Movement) -> bool {
        &&& self.is_pawn_diagonal(m)
        &&& self.en_passant matches Some(t) && t == m.to
        &&& self.is_empty(m.to@)
        &&& self.occupant((m.from@.0, m.to@.1)) == Some(
            (Piece::Pawn, self.side_to_move.opposite_spec()),
        )
        &&& m.capture == Some(Piece::Pawn)
        &&& m.promotion is None
    }

    pub open spec fn is_pawn_move(self, m: Movement) -> bool {
        self.is_pawn_push(m) || self.is_pawn_double_push(m) || self.is_pawn_capture(m)
            || self.is_en_passant(m)
    }

    /// A pseudo-legal movement: the piece of the side to move on the origin
    /// may make it by its rules of movement, whether or not it leaves its own
    /// king attacked.
    pub open spec fn is_pseudo_legal(self, m: Movement) -> bool {
        &&& valid(m.from@)
        &&& valid(m.to@)
        &&& match self.piece_of(self.side_to_move, m.from@) {
            Some(Piece::Pawn) => self.is_pawn_move(m),
            Some(Piece::Knight) => self.is_knight_move(m),
            Some(Piece::Bishop) => self.is_bishop_move(m),
            Some(Piece::Rook) => self.is_rook_move(m),
            Some(Piece::Queen) => self.is_queen_move(m),
            Some(Piece::King) => self.is_king_move(m),
            None => false,
        }
    }
}

/// A knight alone on an otherwise empty board, at least two squares from
/// every edge, has exactly the eight movements of its two-by-one
/// displacements, all onto empty squares.
pub proof fn lemma_lone_knight_moves(b: BoardState, from: Square, m: Movement)
    requires
        b.wf(),
        3 <= from@.0 <= 6,
        3 <= from@.1 <= 6,
        b.piece_of(b.side_to_move, from@) == Some(Piece::Knight),
        forall|v: (int, int)| valid(v) && v != from@ ==> #[trigger] b.is_empty(v),
    ensures
        b.is_pseudo_legal(m) <==> m.from == from && is_knight_offset(
            m.rank_delta(),
            m.file_delta(),
        ) && m.capture is None && m.promotion is None,
{
    if b.is_pseudo_legal(m) {
        assert(!b.is_empty(m.from@));
        assert(m.from@ == from@);
        assert(b.is_empty(m.to@));
    }
    if m.from == from && is_knight_offset(m.rank_delta(), m.file_delta()) {
        assert(valid(m.to@));
        assert(b.is_empty(m.to@));
    }
}

/// A pawn on its start rank with both squares ahead empty may push one
/// square and two squares; with the square just ahead occupied it may push
/// neither, even when the square two ahead is empty.
pub proof fn lemma_pawn_pushes_from_start(b: BoardState, from: Square)
    requires
        b.wf(),
        valid(from@),
        b.piece_of(b.side_to_move, from@) == Some(Piece::Pawn),
        from@.0 == b.side_to_move.pawn_rank(),
    ensures
        ({
            let dir = b.side_to_move.direction();
            let one = Movement {
                from,
                to: Square::at(from@.0 + dir, from@.1),
                capture: None,
                promotion: None,
            };
            let two = Movement {
                from,
                to: Square::at(from@.0 + 2 * dir, from@.1),
                capture: None,
                promotion: None,
            };
            &&& b.is_empty(one.to@) && b.is_empty(two.to@) ==> b.is_pseudo_legal(one)
                && b.is_pseudo_legal(two)
            &&& !b.is_empty(one.to@) ==> !b.is_pseudo_legal(one) && !b.is_pseudo_legal(two)
        }),
{
}

/// A pawn one step from the last rank, with the square ahead empty, moves
/// onto it in exactly four ways: without capture, one per promotion kind.
pub proof fn lemma_promotion_moves(b: BoardState, from: Square, m: Movement)
    requires
        b.wf(),
        valid(from@),
        b.piece_of(b.side_to_move, from@) == Some(Piece::Pawn),
        from@.0 + b.side_to_move.direction() == b.side_to_move.last_rank(),
        b.is_empty((from@.0 + b.side_to_move.direction(), from@.1)),
        m.from == from,
        m.to@ == (from@.0 + b.side_to_move.direction(), from@.1),
    ensures
        b.is_pseudo_legal(m) <==> m.capture is None && (m.promotion matches Some(p)
            && p.is_promotion_kind()),
{
}

} // verus!
