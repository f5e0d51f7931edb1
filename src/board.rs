use vstd::prelude::*;

use crate::color::Color;
use crate::piece::Piece;
use crate::square::{cell_of, group_square, on_board_spec, Square};

verus! {

broadcast use group_square;

/// Board representation.
///
/// Pieces are kept in two tables of 64 cells, one per color, each indexed by
/// `Square::index` and holding the kind of the piece on that square, if any.
/// A well-formed board never has a square occupied in both tables.
#[derive(Debug)]
pub struct Board {
    pub white_pieces: Vec<Option<Piece>>,
    pub black_pieces: Vec<Option<Piece>>,
    pub side_to_move: Color,
    pub white_kingside_castling: bool,
    pub white_queenside_castling: bool,
    pub black_kingside_castling: bool,
    pub black_queenside_castling: bool,
    /// The square a pawn may capture onto en passant this ply.
    pub en_passant: Option<Square>,
    /// Moves since the last pawn move or capture (saturates at `u32::MAX`).
    pub reversible_moves: u32,
}

/// The mathematical value of a board: every field, with the tables as sequences.
pub struct BoardState {
    pub white: Seq<Option<Piece>>,
    pub black: Seq<Option<Piece>>,
    pub side_to_move: Color,
    pub white_kingside_castling: bool,
    pub white_queenside_castling: bool,
    pub black_kingside_castling: bool,
    pub black_queenside_castling: bool,
    pub en_passant: Option<Square>,
    pub reversible_moves: u32,
}

impl View for Board {
    type V = BoardState;

    open spec fn view(&self) -> BoardState {
        BoardState {
            white: self.white_pieces@,
            black: self.black_pieces@,
            side_to_move: self.side_to_move,
            white_kingside_castling: self.white_kingside_castling,
            white_queenside_castling: self.white_queenside_castling,
            black_kingside_castling: self.black_kingside_castling,
            black_queenside_castling: self.black_queenside_castling,
            en_passant: self.en_passant,
            reversible_moves: self.reversible_moves,
        }
    }
}

/// The kind of piece that starts on a file of the home rank.
pub open spec fn home_piece_spec(file: int) -> Piece {
    if file == 1 || file == 8 {
        Piece::Rook
    } else if file == 2 || file == 7 {
        Piece::Knight
    } else if file == 3 || file == 6 {
        Piece::Bishop
    } else if file == 4 {
        Piece::Queen
    } else {
        Piece::King
    }
}

/// What a color has on (rank, file) in the standard starting position.
pub open spec fn start_piece(color: Color, rank: int, file: int) -> Option<Piece> {
    if rank == color.home_rank() {
        Some(home_piece_spec(file))
    } else if rank == color.pawn_rank() {
        Some(Piece::Pawn)
    } else {
        None
    }
}

/// The standard starting position has no square occupied by both colors.
pub proof fn lemma_start_position_keeps_colors_apart(b: BoardState)
    requires
        b.is_start_position(),
    ensures
        b.wf(),
{
    assert forall|i: int| 0 <= i < 64 implies !(#[trigger] b.white[i] is Some && b.black[i] is Some) by {
        let r = i / 8 + 1;
        let f = i % 8 + 1;
        assert(cell_of((r, f)) == i);
        assert(b.white[cell_of((r, f))] == start_piece(Color::White, r, f));
    }
}

impl BoardState {
    /// Both tables have 64 cells, and no square is occupied in both.
    pub open spec fn wf(self) -> bool {
        &&& self.white.len() == 64
        &&& self.black.len() == 64
        &&& forall|i: int|
            0 <= i < 64 ==> !(#[trigger] self.white[i] is Some && self.black[i] is Some)
    }

    /// The table of a color.
    pub open spec fn pieces_of(self, color: Color) -> Seq<Option<Piece>> {
        match color {
            Color::White => self.white,
            Color::Black => self.black,
        }
    }

    /// The piece on (rank, file) and its color, looking at White's table first.
    pub open spec fn occupant(self, v: (int, int)) -> Option<(Piece, Color)> {
        let i = cell_of(v);
        match self.white[i] {
            Some(p) => Some((p, Color::White)),
            None => match self.black[i] {
                Some(p) => Some((p, Color::Black)),
                None => None,
            },
        }
    }

    pub open spec fn is_empty(self, v: (int, int)) -> bool {
        self.occupant(v) is None
    }

    /// The piece of a given color on (rank, file), if any.
    pub open spec fn piece_of(self, color: Color, v: (int, int)) -> Option<Piece> {
        self.pieces_of(color)[cell_of(v)]
    }

    /// The castling rights of a color, as (queenside, kingside).
    pub open spec fn castling_of(self, color: Color) -> (bool, bool) {
        match color {
            Color::White => (self.white_queenside_castling, self.white_kingside_castling),
            Color::Black => (self.black_queenside_castling, self.black_kingside_castling),
        }
    }

    /// The standard starting position, White to move.
    pub open spec fn is_start_position(self) -> bool {
        &&& self.white.len() == 64
        &&& self.black.len() == 64
        &&& forall|r: int, f: int|
            on_board_spec(r, f) ==> #[trigger] self.white[cell_of((r, f))] == start_piece(
                Color::White,
                r,
                f,
            ) && self.black[cell_of((r, f))] == start_piece(Color::Black, r, f)
        &&& self.side_to_move == Color::White
        &&& self.white_kingside_castling && self.white_queenside_castling
        &&& self.black_kingside_castling && self.black_queenside_castling
        &&& self.en_passant is None
        &&& self.reversible_moves == 0
    }
}

/// The kind of piece that starts on a file of the home rank.
fn home_piece(file: isize) -> (r: Piece)
    ensures
        r == home_piece_spec(file as int),
{
    if file == 1 || file == 8 {
        Piece::Rook
    } else if file == 2 || file == 7 {
        Piece::Knight
    } else if file == 3 || file == 6 {
        Piece::Bishop
    } else if file == 4 {
        Piece::Queen
    } else {
        Piece::King
    }
}

/// A table of 64 empty cells.
fn empty_table() -> (r: Vec<Option<Piece>>)
    ensures
        r@.len() == 64,
        forall|i: int| 0 <= i < 64 ==> r@[i] is None,
{
    let mut r: Vec<Option<Piece>> = Vec::new();
    while r.len() < 64
        invariant
            r@.len() <= 64,
            forall|i: int| 0 <= i < r@.len() ==> r@[i] is None,
        decreases 64 - r@.len(),
    {
        r.push(None);
    }
    r
}

impl Board {
    /// Make the standard starting board, White to move.
    pub fn new() -> (b: Board)
        ensures
            b@.is_start_position(),
            b@.wf(),
    {
        let mut white_pieces = empty_table();
        let mut black_pieces = empty_table();
        let mut file: isize = 1;
        while file <= 8
            invariant
                1 <= file <= 9,
                white_pieces@.len() == 64,
                black_pieces@.len() == 64,
                forall|r: int, f: int|
                    on_board_spec(r, f) ==> #[trigger] white_pieces@[cell_of((r, f))] == (if f
                        < file {
                        start_piece(Color::White, r, f)
                    } else {
                        None
                    }) && black_pieces@[cell_of((r, f))] == (if f < file {
                        start_piece(Color::Black, r, f)
                    } else {
                        None
                    }),
            decreases 9 - file,
        {
            let f = (file - 1) as usize;
            let kind = home_piece(file);
            let ghost w0 = white_pieces@;
            let ghost b0 = black_pieces@;
            white_pieces.set(f, Some(kind));
            white_pieces.set(8 + f, Some(Piece::Pawn));
            black_pieces.set(48 + f, Some(Piece::Pawn));
            black_pieces.set(56 + f, Some(kind));
            proof {
                assert forall|r: int, g: int| on_board_spec(r, g) implies #[trigger] white_pieces@[cell_of((r, g))] == (if g
                    < file + 1 {
                    start_piece(Color::White, r, g)
                } else {
                    None
                }) && black_pieces@[cell_of((r, g))] == (if g < file + 1 {
                    start_piece(Color::Black, r, g)
                } else {
                    None
                }) by {
                    let i = cell_of((r, g));
                    assert(w0[i] == (if g < file {
                        start_piece(Color::White, r, g)
                    } else {
                        None
                    }));
                    assert(b0[i] == (if g < file {
                        start_piece(Color::Black, r, g)
                    } else {
                        None
                    }));
                    if g == file {
                        if r == 1 {
                            assert(i == f);
                        } else if r == 2 {
                            assert(i == 8 + f);
                        } else if r == 7 {
                            assert(i == 48 + f);
                        } else if r == 8 {
                            assert(i == 56 + f);
                        } else {
                            assert(white_pieces@[i] == w0[i]);
                            assert(black_pieces@[i] == b0[i]);
                        }
                    } else {
                        assert(i != f && i != 8 + f && i != 48 + f && i != 56 + f);
                        assert(white_pieces@[i] == w0[i]);
                        assert(black_pieces@[i] == b0[i]);
                    }
                }
            }
            file += 1;
        }
        let b = Board {
            white_pieces,
            black_pieces,
            side_to_move: Color::White,
            white_kingside_castling: true,
            white_queenside_castling: true,
            black_kingside_castling: true,
            black_queenside_castling: true,
            en_passant: None,
            reversible_moves: 0,
        };
        proof {
            lemma_start_position_keeps_colors_apart(b@);
        }
        b
    }

    /// Make the standard starting board; the same as `Board::new`.
    pub fn init() -> (b: Board)
        ensures
            b@.is_start_position(),
            b@.wf(),
    {
        Board::new()
    }

    /// Get the piece on a square of the current position, and its color.
    pub fn get_square(&self, square: &Square) -> (r: Option<(Piece, Color)>)
        requires
            self@.wf(),
        ensures
            r == self@.occupant(square@),
    {
        let i = square.index();
        match self.white_pieces[i] {
            None => match self.black_pieces[i] {
                None => None,
                Some(piece) => Some((piece, Color::Black)),
            },
            Some(piece) => Some((piece, Color::White)),
        }
    }

    /// Get the table of pieces of the side to move.
    pub fn get_pieces_to_move(&self) -> (r: &Vec<Option<Piece>>)
        ensures
            r@ == self@.pieces_of(self.side_to_move),
    {
        match self.side_to_move {
            Color::White => &self.white_pieces,
            Color::Black => &self.black_pieces,
        }
    }

    /// Get the castling rights of a color, as (queenside, kingside).
    pub fn castling_rights(&self, color: Color) -> (r: (bool, bool))
        ensures
            r == self@.castling_of(color),
    {
        match color {
            Color::White => (self.white_queenside_castling, self.white_kingside_castling),
            Color::Black => (self.black_queenside_castling, self.black_kingside_castling),
        }
    }
}

} // verus!
