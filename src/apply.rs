use vstd::prelude::*;

use crate::board::{Board, BoardState};
use crate::color::Color;
use crate::error::ChessError;
use crate::movement::Movement;
use crate::piece::Piece;
use crate::square::{cell_of, group_square, valid, Square};

verus! {

broadcast use group_square;

/// What a movement overwrote, kept to take the movement back.
#[derive(Clone, Copy, Debug)]
pub struct UndoRecord {
    /// The kind of the piece that moved (a pawn, for a promotion).
    pub moved: Piece,
    /// The piece captured and the square it stood on.
    pub captured: Option<(Piece, Square)>,
    pub white_kingside_castling: bool,
    pub white_queenside_castling: bool,
    pub black_kingside_castling: bool,
    pub black_queenside_castling: bool,
    pub en_passant: Option<Square>,
    pub reversible_moves: u32,
    pub side_to_move: Color,
}

/// A king movement of more than one file.
pub open spec fn is_castling(piece: Piece, m: Movement) -> bool {
    piece == Piece::King && (m.file_delta() > 1 || m.file_delta() < -1)
}

/// The corner a castling rook comes from: toward the side the king moves.
pub open spec fn rook_corner(m: Movement) -> (int, int) {
    (m.from@.0, if m.file_delta() > 0 { 8 } else { 1 })
}

/// The square a castling rook goes to: beside the king, on the inner side.
pub open spec fn rook_target(m: Movement) -> (int, int) {
    (m.from@.0, if m.file_delta() > 0 { m.to@.1 - 1 } else { m.to@.1 + 1 })
}

impl BoardState {
    /// Both tables emptied at cell `i`.
    pub open spec fn cleared(self, i: int) -> BoardState {
        BoardState { white: self.white.update(i, None), black: self.black.update(i, None), ..self }
    }

    /// The table of `color` emptied at cell `i`.
    pub open spec fn cleared_of(self, i: int, color: Color) -> BoardState {
        match color {
            Color::White => BoardState { white: self.white.update(i, None), ..self },
            Color::Black => BoardState { black: self.black.update(i, None), ..self },
        }
    }

    /// Cell `i` holding `piece` of `color`, and nothing of the other color.
    pub open spec fn with_piece(self, i: int, piece: Piece, color: Color) -> BoardState {
        match color {
            Color::White => BoardState {
                white: self.white.update(i, Some(piece)),
                black: self.black.update(i, None),
                ..self
            },
            Color::Black => BoardState {
                white: self.white.update(i, None),
                black: self.black.update(i, Some(piece)),
                ..self
            },
        }
    }

    /// The piece of the side to move on the origin.
    pub open spec fn mover(self, m: Movement) -> Option<Piece> {
        self.piece_of(self.side_to_move, m.from@)
    }

    /// The origin holds a piece of the side to move, and the destination
    /// holds none of that side.
    pub open spec fn applicable(self, m: Movement) -> bool {
        self.mover(m) is Some && self.piece_of(self.side_to_move, m.to@) is None
    }

    /// A pawn moving diagonally onto the empty en passant target.
    pub open spec fn takes_en_passant(self, m: Movement) -> bool {
        &&& self.mover(m) == Some(Piece::Pawn)
        &&& m.to@.1 != m.from@.1
        &&& self.is_empty(m.to@)
        &&& self.en_passant == Some(m.to)
    }

    /// The square whose enemy piece the movement removes: the destination,
    /// or for en passant the square beside the origin on the destination's file.
    pub open spec fn capture_square(self, m: Movement) -> (int, int) {
        if self.takes_en_passant(m) {
            (m.from@.0, m.to@.1)
        } else {
            m.to@
        }
    }

    /// The enemy piece the movement removes, if any.
    pub open spec fn captured_piece(self, m: Movement) -> Option<Piece> {
        self.piece_of(self.side_to_move.opposite_spec(), self.capture_square(m))
    }

    /// Whether a castling right of `color` survives the movement: it is lost
    /// when that color's king moves or is captured, or its rook leaves or is
    /// captured on its corner.
    pub open spec fn keeps_right(self, m: Movement, color: Color, kingside: bool) -> bool {
        let (queenside_right, kingside_right) = self.castling_of(color);
        let corner = (color.home_rank(), if kingside { 8int } else { 1int });
        let mover = self.mover(m);
        let captured = self.captured_piece(m);
        &&& if kingside { kingside_right } else { queenside_right }
        &&& !(color == self.side_to_move && (mover == Some(Piece::King) || (mover == Some(
            Piece::Rook,
        ) && m.from@ == corner)))
        &&& !(color != self.side_to_move && (captured == Some(Piece::King) || (captured == Some(
            Piece::Rook,
        ) && self.capture_square(m) == corner)))
    }

    /// The en passant target after the movement: the square a double pawn
    /// push passed over.
    pub open spec fn next_en_passant(self, m: Movement) -> Option<Square> {
        if self.mover(m) == Some(Piece::Pawn) && (m.rank_delta() == 2 || m.rank_delta() == -2) {
            Some(
                Square::at(
                    if m.rank_delta() > 0 {
                        m.from@.0 + 1
                    } else {
                        m.from@.0 - 1
                    },
                    m.from@.1,
                ),
            )
        } else {
            None
        }
    }

    /// The reversible-move counter after the movement: reset by a pawn move
    /// or a capture, else one more (saturating).
    pub open spec fn next_reversible_moves(self, m: Movement) -> u32 {
        if self.mover(m) == Some(Piece::Pawn) || self.captured_piece(m) is Some {
            0
        } else if self.reversible_moves < u32::MAX {
            (self.reversible_moves + 1) as u32
        } else {
            self.reversible_moves
        }
    }

    /// The placement after the movement: the piece leaves the origin, the
    /// captured piece leaves its square, the piece (or its promotion) stands
    /// on the destination, and when castling the rook moves beside the king.
    pub open spec fn placed(self, m: Movement) -> BoardState {
        let side = self.side_to_move;
        let mover = self.mover(m)->0;
        let s1 = self.cleared(m.from.cell());
        let s2 = s1.cleared_of(cell_of(self.capture_square(m)), side.opposite_spec());
        let kind = match m.promotion {
            Some(p) => p,
            None => mover,
        };
        let s3 = s2.with_piece(m.to.cell(), kind, side);
        if is_castling(mover, m) && self.piece_of(side, rook_corner(m)) == Some(Piece::Rook) {
            s3.cleared(cell_of(rook_corner(m))).with_piece(
                cell_of(rook_target(m)),
                Piece::Rook,
                side,
            )
        } else {
            s3
        }
    }

    /// The board after an applicable movement.
    pub open spec fn applied(self, m: Movement) -> BoardState {
        let p = self.placed(m);
        BoardState {
            white: p.white,
            black: p.black,
            side_to_move: self.side_to_move.opposite_spec(),
            white_kingside_castling: self.keeps_right(m, Color::White, true),
            white_queenside_castling: self.keeps_right(m, Color::White, false),
            black_kingside_castling: self.keeps_right(m, Color::Black, true),
            black_queenside_castling: self.keeps_right(m, Color::Black, false),
            en_passant: self.next_en_passant(m),
            reversible_moves: self.next_reversible_moves(m),
        }
    }

    /// The record an applicable movement leaves for taking it back.
    pub open spec fn undo_record(self, m: Movement) -> UndoRecord {
        UndoRecord {
            moved: self.mover(m)->0,
            captured: match self.captured_piece(m) {
                Some(p) => Some((p, Square::at(self.capture_square(m).0, self.capture_square(m).1))),
                None => None,
            },
            white_kingside_castling: self.white_kingside_castling,
            white_queenside_castling: self.white_queenside_castling,
            black_kingside_castling: self.black_kingside_castling,
            black_queenside_castling: self.black_queenside_castling,
            en_passant: self.en_passant,
            reversible_moves: self.reversible_moves,
            side_to_move: self.side_to_move,
        }
    }

    /// The board after taking a movement back with its record: the piece on
    /// the destination returns to the origin as the kind recorded, a castling
    /// rook returns to its corner, the captured piece returns to its square,
    /// and every other field is restored from the record.
    pub open spec fn unapplied(self, m: Movement, u: UndoRecord) -> BoardState {
        let side = u.side_to_move;
        let s1 = self.cleared(m.to.cell());
        let s2 = s1.with_piece(m.from.cell(), u.moved, side);
        let s3 = if is_castling(u.moved, m) && self.piece_of(side, rook_target(m)) == Some(
            Piece::Rook,
        ) {
            s2.cleared(cell_of(rook_target(m))).with_piece(
                cell_of(rook_corner(m)),
                Piece::Rook,
                side,
            )
        } else {
            s2
        };
        let s4 = match u.captured {
            Some((p, sq)) => s3.with_piece(sq.cell(), p, side.opposite_spec()),
            None => s3,
        };
        BoardState {
            white: s4.white,
            black: s4.black,
            side_to_move: side,
            white_kingside_castling: u.white_kingside_castling,
            white_queenside_castling: u.white_queenside_castling,
            black_kingside_castling: u.black_kingside_castling,
            black_queenside_castling: u.black_queenside_castling,
            en_passant: u.en_passant,
            reversible_moves: u.reversible_moves,
        }
    }
}

/// Taking back a pseudo-legal movement with the record its application left
/// gives back the board as it was, in every field.
pub proof fn lemma_make_unmake_round_trip(b: BoardState, m: Movement)
    requires
        b.wf(),
        b.is_pseudo_legal(m),
    ensures
        b.applicable(m),
        b.applied(m).unapplied(m, b.undo_record(m)) == b,
{
    let a = b.applied(m);
    let u = b.undo_record(m);
    let r = a.unapplied(m, u);
    let side = b.side_to_move;
    let mover = b.mover(m)->0;
    assert(m.from.cell() != m.to.cell());
    if b.takes_en_passant(m) {
        assert(b.is_en_passant(m));
        assert(r.white =~= b.white);
        assert(r.black =~= b.black);
    } else if is_castling(mover, m) {
        assert(b.castles(m, true) || b.castles(m, false));
        assert(r.white =~= b.white);
        assert(r.black =~= b.black);
    } else {
        assert(r.white =~= b.white);
        assert(r.black =~= b.black);
    }
}

/// After a double pawn push, an enemy pawn beside the pushed pawn may capture
/// en passant onto the square passed over, which is empty; doing so removes
/// the pushed pawn, one rank behind the target, and leaves the capturing pawn
/// on the target.
pub proof fn lemma_en_passant_after_double_push(b: BoardState, m: Movement, e: Movement)
    requires
        b.wf(),
        valid(m.from@),
        valid(e.from@),
        b.mover(m) == Some(Piece::Pawn),
        b.is_pawn_double_push(m),
        e.from@ == (m.to@.0, m.to@.1 - 1) || e.from@ == (m.to@.0, m.to@.1 + 1),
        b.piece_of(b.side_to_move.opposite_spec(), e.from@) == Some(Piece::Pawn),
        e.to@ == (m.from@.0 + b.side_to_move.direction(), m.from@.1),
        e.capture == Some(Piece::Pawn),
        e.promotion is None,
    ensures
        b.is_pseudo_legal(m),
        b.applied(m).en_passant == Some(e.to),
        b.applied(m).is_empty(e.to@),
        b.applied(m).is_pseudo_legal(e),
        b.applied(m).applied(e).is_empty(m.to@),
        b.applied(m).applied(e).occupant(e.to@) == Some(
            (Piece::Pawn, b.side_to_move.opposite_spec()),
        ),
{
    broadcast use lemma_cleared_wf, lemma_cleared_of_wf, lemma_with_piece_wf;

    let a = b.applied(m);
    assert(!b.takes_en_passant(m));
    assert(a.wf());
    assert(a.piece_of(a.side_to_move, e.from@) == Some(Piece::Pawn));
    assert(a.is_empty(e.to@));
    assert(a.occupant(m.to@) == Some((Piece::Pawn, b.side_to_move)));
    assert(a.is_en_passant(e));
    assert(a.takes_en_passant(e));
}

impl Board {
    /// Empty cell `i` in both tables.
    fn clear_cell(&mut self, i: usize)
        requires
            old(self)@.wf(),
            i < 64,
        ensures
            final(self)@ == old(self)@.cleared(i as int),
            final(self)@.wf(),
    {
        self.white_pieces.set(i, None);
        self.black_pieces.set(i, None);
    }

    /// Empty cell `i` in the table of `color`.
    fn clear_cell_of(&mut self, i: usize, color: Color)
        requires
            old(self)@.wf(),
            i < 64,
        ensures
            final(self)@ == old(self)@.cleared_of(i as int, color),
            final(self)@.wf(),
    {
        match color {
            Color::White => self.white_pieces.set(i, None),
            Color::Black => self.black_pieces.set(i, None),
        }
    }

    /// Put `piece` of `color` on cell `i`, removing whatever stood there.
    fn put_piece(&mut self, i: usize, piece: Piece, color: Color)
        requires
            old(self)@.wf(),
            i < 64,
        ensures
            final(self)@ == old(self)@.with_piece(i as int, piece, color),
            final(self)@.wf(),
    {
        match color {
            Color::White => {
                self.white_pieces.set(i, Some(piece));
                self.black_pieces.set(i, None);
            },
            Color::Black => {
                self.white_pieces.set(i, None);
                self.black_pieces.set(i, Some(piece));
            },
        }
    }

    /// Whether a castling right of `color` survives a movement, given the
    /// piece that moves and the piece it captures on `capture_square`.
    fn keeps_right(
        &self,
        movement: &Movement,
        mover: Piece,
        captured: Option<Piece>,
        capture_square: &Square,
        color: Color,
        kingside: bool,
    ) -> (r: bool)
        requires
            self@.mover(*movement) == Some(mover),
            self@.captured_piece(*movement) == captured,
            self@.capture_square(*movement) == capture_square@,
        ensures
            r == self@.keeps_right(*movement, color, kingside),
    {
        let (queenside_right, kingside_right) = self.castling_rights(color);
        let had = if kingside {
            kingside_right
        } else {
            queenside_right
        };
        let home: isize = match color {
            Color::White => 1,
            Color::Black => 8,
        };
        let corner_file: isize = if kingside {
            8
        } else {
            1
        };
        let own = color == self.side_to_move;
        let from = &movement.from;
        let lost_by_moving = own && (mover == Piece::King || (mover == Piece::Rook && from.rank()
            == home && from.file() == corner_file));
        let lost_by_capture = !own && match captured {
            Some(Piece::King) => true,
            Some(Piece::Rook) => capture_square.rank() == home && capture_square.file()
                == corner_file,
            _ => false,
        };
        had && !lost_by_moving && !lost_by_capture
    }

    /// Make a movement in the current position.
    ///
    /// Fails with `MoveNotApplicable`, leaving the board as it was, when the
    /// origin holds no piece of the side to move or the destination holds one.
    /// Otherwise the board becomes `applied` and the record returned takes the
    /// movement back with `unmake_move`.
    #[verifier::rlimit(60)]
    pub fn make_move(&mut self, movement: &Movement) -> (r: Result<UndoRecord, ChessError>)
        requires
            old(self)@.wf(),
        ensures
            final(self)@.wf(),
            r is Ok <==> old(self)@.applicable(*movement),
            r matches Ok(u) ==> u == old(self)@.undo_record(*movement) && final(self)@ == old(
                self,
            )@.applied(*movement),
            r is Err ==> r == Err::<UndoRecord, ChessError>(ChessError::MoveNotApplicable)
                && final(self)@ == old(self)@,
    {
        let m = *movement;
        let side = self.side_to_move;
        let opp = side.opposite();
        let from_i = m.from.index();
        let to_i = m.to.index();
        let own = self.get_pieces_to_move();
        let mover = match own[from_i] {
            Some(p) => p,
            None => {
                return Err(ChessError::MoveNotApplicable);
            },
        };
        if own[to_i].is_some() {
            return Err(ChessError::MoveNotApplicable);
        }
        let takes_ep = mover == Piece::Pawn && m.to.file() != m.from.file() && self.get_square(
            &m.to,
        ).is_none() && match self.en_passant {
            Some(t) => t == m.to,
            None => false,
        };
        let capture_square = if takes_ep {
            Square::from_coords(m.from.rank(), m.to.file())
        } else {
            m.to
        };
        let cap_i = capture_square.index();
        let captured = match opp {
            Color::White => self.white_pieces[cap_i],
            Color::Black => self.black_pieces[cap_i],
        };
        let file_delta = m.to.file() - m.from.file();
        let castling = mover == Piece::King && (file_delta > 1 || file_delta < -1);
        let rank = m.from.rank();
        let corner = Square::from_coords(
            rank,
            if file_delta > 0 {
                8
            } else {
                1
            },
        );
        let rook_square = if file_delta > 0 {
            m.to.file() - 1
        } else {
            m.to.file() + 1
        };
        let moves_rook = castling && matches!(own[corner.index()], Some(Piece::Rook));
        let record = UndoRecord {
            moved: mover,
            captured: match captured {
                Some(p) => Some((p, capture_square)),
                None => None,
            },
            white_kingside_castling: self.white_kingside_castling,
            white_queenside_castling: self.white_queenside_castling,
            black_kingside_castling: self.black_kingside_castling,
            black_queenside_castling: self.black_queenside_castling,
            en_passant: self.en_passant,
            reversible_moves: self.reversible_moves,
            side_to_move: side,
        };
        let wk = self.keeps_right(&m, mover, captured, &capture_square, Color::White, true);
        let wq = self.keeps_right(&m, mover, captured, &capture_square, Color::White, false);
        let bk = self.keeps_right(&m, mover, captured, &capture_square, Color::Black, true);
        let bq = self.keeps_right(&m, mover, captured, &capture_square, Color::Black, false);
        let rank_delta = m.to.rank() - m.from.rank();
        let next_ep = if mover == Piece::Pawn && (rank_delta == 2 || rank_delta == -2) {
            Some(
                Square::from_coords(
                    if rank_delta > 0 {
                        rank + 1
                    } else {
                        rank - 1
                    },
                    m.from.file(),
                ),
            )
        } else {
            None
        };
        let next_clock = if mover == Piece::Pawn || captured.is_some() {
            0
        } else if self.reversible_moves < u32::MAX {
            self.reversible_moves + 1
        } else {
            self.reversible_moves
        };
        let kind = match m.promotion {
            Some(p) => p,
            None => mover,
        };
        self.clear_cell(from_i);
        self.clear_cell_of(cap_i, opp);
        self.put_piece(to_i, kind, side);
        if moves_rook {
            let target = Square::from_coords(rank, rook_square);
            self.clear_cell(corner.index());
            self.put_piece(target.index(), Piece::Rook, side);
        }
        self.side_to_move = opp;
        self.white_kingside_castling = wk;
        self.white_queenside_castling = wq;
        self.black_kingside_castling = bk;
        self.black_queenside_castling = bq;
        self.en_passant = next_ep;
        self.reversible_moves = next_clock;
        Ok(record)
    }

    /// Take a movement back, given the record its application returned.
    ///
    /// The result is `unapplied`; it is the board before `make_move` when the
    /// record is the one that call returned on it (and meaningless otherwise).
    #[verifier::rlimit(60)]
    pub fn unmake_move(&mut self, movement: &Movement, undo: &UndoRecord)
        requires
            old(self)@.wf(),
        ensures
            final(self)@.wf(),
            final(self)@ == old(self)@.unapplied(*movement, *undo),
    {
        let m = *movement;
        let side = undo.side_to_move;
        let from_i = m.from.index();
        let to_i = m.to.index();
        let file_delta = m.to.file() - m.from.file();
        let rank = m.from.rank();
        let corner = Square::from_coords(
            rank,
            if file_delta > 0 {
                8
            } else {
                1
            },
        );
        let castling = undo.moved == Piece::King && (file_delta > 1 || file_delta < -1);
        let mut target_i: usize = 0;
        let mut moves_rook = false;
        if castling {
            let target = Square::from_coords(
                rank,
                if file_delta > 0 {
                    m.to.file() - 1
                } else {
                    m.to.file() + 1
                },
            );
            target_i = target.index();
            moves_rook = match side {
                Color::White => matches!(self.white_pieces[target_i], Some(Piece::Rook)),
                Color::Black => matches!(self.black_pieces[target_i], Some(Piece::Rook)),
            };
        }
        self.clear_cell(to_i);
        self.put_piece(from_i, undo.moved, side);
        if moves_rook {
            self.clear_cell(target_i);
            self.put_piece(corner.index(), Piece::Rook, side);
        }
        match undo.captured {
            Some((p, sq)) => self.put_piece(sq.index(), p, side.opposite()),
            None => {},
        }
        self.side_to_move = side;
        self.white_kingside_castling = undo.white_kingside_castling;
        self.white_queenside_castling = undo.white_queenside_castling;
        self.black_kingside_castling = undo.black_kingside_castling;
        self.black_queenside_castling = undo.black_queenside_castling;
        self.en_passant = undo.en_passant;
        self.reversible_moves = undo.reversible_moves;
    }
}

pub broadcast proof fn lemma_cleared_wf(b: BoardState, i: int)
    requires
        b.wf(),
        0 <= i < 64,
    ensures
        #[trigger] b.cleared(i).wf(),
{
}

pub broadcast proof fn lemma_cleared_of_wf(b: BoardState, i: int, color: Color)
    requires
        b.wf(),
        0 <= i < 64,
    ensures
        #[trigger] b.cleared_of(i, color).wf(),
{
}

pub broadcast proof fn lemma_with_piece_wf(b: BoardState, i: int, piece: Piece, color: Color)
    requires
        b.wf(),
        0 <= i < 64,
    ensures
        #[trigger] b.with_piece(i, piece, color).wf(),
{
}

/// No square is ever occupied by both colors: applying an applicable
/// movement, or taking back any movement with any record, keeps the tables
/// disjoint.
pub proof fn lemma_moves_keep_colors_apart(b: BoardState, m: Movement, u: UndoRecord)
    requires
        b.wf(),
        valid(m.from@),
        valid(m.to@),
        u.captured matches Some((_, sq)) ==> valid(sq@),
    ensures
        b.applicable(m) ==> b.applied(m).wf(),
        b.unapplied(m, u).wf(),
{
    broadcast use lemma_cleared_wf, lemma_cleared_of_wf, lemma_with_piece_wf;

    if b.applicable(m) {
        let p = b.placed(m);
        assert(p.wf());
        assert(b.applied(m).wf());
    }
}

impl Board {
    /// A copy of the board, equal in every field.
    pub fn duplicate(&self) -> (r: Board)
        ensures
            r@ == self@,
    {
        Board {
            white_pieces: copy_table(&self.white_pieces),
            black_pieces: copy_table(&self.black_pieces),
            side_to_move: self.side_to_move,
            white_kingside_castling: self.white_kingside_castling,
            white_queenside_castling: self.white_queenside_castling,
            black_kingside_castling: self.black_kingside_castling,
            black_queenside_castling: self.black_queenside_castling,
            en_passant: self.en_passant,
            reversible_moves: self.reversible_moves,
        }
    }
}

/// A copy of a table of cells.
fn copy_table(t: &Vec<Option<Piece>>) -> (r: Vec<Option<Piece>>)
    ensures
        r@ == t@,
{
    let mut r: Vec<Option<Piece>> = Vec::new();
    let mut i: usize = 0;
    while i < t.len()
        invariant
            i <= t@.len(),
            r@ == t@.subrange(0, i as int),
        decreases t@.len() - i,
    {
        r.push(t[i]);
        i += 1;
        proof {
            assert(r@ =~= t@.subrange(0, i as int));
        }
    }
    proof {
        assert(r@ =~= t@);
    }
    r
}

impl Movement {
    /// Make the movement on a copy of a board; the board given is left as it
    /// is. Returns the new board and the record that takes the movement back.
    pub fn make(&self, board: &Board) -> (r: Result<(Board, UndoRecord), ChessError>)
        requires
            board@.wf(),
        ensures
            r is Ok <==> board@.applicable(*self),
            r matches Ok((b, u)) ==> b@ == board@.applied(*self) && u == board@.undo_record(*self)
                && b@.wf(),
            r is Err ==> r == Err::<(Board, UndoRecord), ChessError>(ChessError::MoveNotApplicable),
    {
        let mut next = board.duplicate();
        match next.make_move(self) {
            Ok(u) => Ok((next, u)),
            Err(e) => Err(e),
        }
    }

    /// Generate the list of pseudo-legal movements of a board; the same as
    /// `Board::gen_moves`.
    pub fn generate(board: &Board) -> (moves: Vec<Movement>)
        requires
            board@.wf(),
        ensures
            forall|m: Movement| moves@.contains(m) <==> board@.is_pseudo_legal(m),
            moves@.no_duplicates(),
    {
        board.gen_moves()
    }
}

} // verus!
