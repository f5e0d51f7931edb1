use cheso::apply::UndoRecord;
use cheso::board::Board;
use cheso::color::Color;
use cheso::error::ChessError;
use cheso::movement::Movement;
use cheso::piece::Piece;
use cheso::square::Square;

fn sq(rank: isize, file: isize) -> Square {
    Square::new(rank, file).unwrap()
}

fn empty_board(side: Color) -> Board {
    Board {
        white_pieces: vec![None; 64],
        black_pieces: vec![None; 64],
        side_to_move: side,
        white_kingside_castling: false,
        white_queenside_castling: false,
        black_kingside_castling: false,
        black_queenside_castling: false,
        en_passant: None,
        reversible_moves: 0,
    }
}

fn place(b: &mut Board, rank: isize, file: isize, piece: Piece, color: Color) {
    let i = sq(rank, file).index();
    match color {
        Color::White => b.white_pieces[i] = Some(piece),
        Color::Black => b.black_pieces[i] = Some(piece),
    }
}

fn mv(from: Square, to: Square, capture: Option<Piece>, promotion: Option<Piece>) -> Movement {
    Movement { from, to, capture, promotion }
}

fn same(a: &Board, b: &Board) -> bool {
    a.white_pieces == b.white_pieces
        && a.black_pieces == b.black_pieces
        && a.side_to_move == b.side_to_move
        && a.white_kingside_castling == b.white_kingside_castling
        && a.white_queenside_castling == b.white_queenside_castling
        && a.black_kingside_castling == b.black_kingside_castling
        && a.black_queenside_castling == b.black_queenside_castling
        && a.en_passant == b.en_passant
        && a.reversible_moves == b.reversible_moves
}

fn colors_apart(b: &Board) -> bool {
    (0..64).all(|i| !(b.white_pieces[i].is_some() && b.black_pieces[i].is_some()))
}

/// A position in which every kind of movement is available to White.
fn busy_position() -> Board {
    let mut b = empty_board(Color::White);
    place(&mut b, 1, 5, Piece::King, Color::White);
    place(&mut b, 1, 1, Piece::Rook, Color::White);
    place(&mut b, 1, 8, Piece::Rook, Color::White);
    place(&mut b, 5, 5, Piece::Pawn, Color::White);
    place(&mut b, 7, 2, Piece::Pawn, Color::White);
    place(&mut b, 3, 3, Piece::Knight, Color::White);
    place(&mut b, 2, 7, Piece::Bishop, Color::White);
    place(&mut b, 4, 1, Piece::Queen, Color::White);
    place(&mut b, 8, 5, Piece::King, Color::Black);
    place(&mut b, 8, 1, Piece::Rook, Color::Black);
    place(&mut b, 8, 8, Piece::Rook, Color::Black);
    place(&mut b, 5, 4, Piece::Pawn, Color::Black);
    place(&mut b, 8, 3, Piece::Bishop, Color::Black);
    place(&mut b, 4, 7, Piece::Knight, Color::Black);
    b.white_kingside_castling = true;
    b.white_queenside_castling = true;
    b.black_kingside_castling = true;
    b.black_queenside_castling = true;
    b.en_passant = Some(sq(6, 4));
    b.reversible_moves = 3;
    b
}

fn round_trips(b: &Board) -> usize {
    let moves = b.gen_moves();
    for m in &moves {
        let mut after = b.duplicate();
        let undo: UndoRecord = after.make_move(m).unwrap();
        assert!(colors_apart(&after));
        assert_eq!(after.side_to_move, b.side_to_move.opposite());
        after.unmake_move(m, &undo);
        assert!(same(&after, b));
    }
    moves.len()
}

#[test]
fn round_trip_from_start_position() {
    assert_eq!(round_trips(&Board::new()), 20);
}

#[test]
fn round_trip_from_busy_position() {
    let b = busy_position();
    let moves = b.gen_moves();
    assert!(moves.iter().any(|m| m.promotion.is_some()));
    assert!(moves.iter().any(|m| m.from == sq(1, 5) && m.to == sq(1, 7)));
    assert!(moves.iter().any(|m| m.from == sq(1, 5) && m.to == sq(1, 3)));
    assert!(moves.iter().any(|m| m.from == sq(5, 5) && m.to == sq(6, 4)));
    assert!(moves.iter().any(|m| m.capture == Some(Piece::Rook)));
    assert!(round_trips(&b) > 30);
    let mut black = busy_position();
    black.side_to_move = Color::Black;
    black.en_passant = None;
    assert!(round_trips(&black) > 20);
}

#[test]
fn en_passant_removes_the_pawn_beside() {
    let mut b = empty_board(Color::Black);
    place(&mut b, 5, 5, Piece::Pawn, Color::White);
    place(&mut b, 7, 4, Piece::Pawn, Color::Black);
    let push = mv(sq(7, 4), sq(5, 4), None, None);
    assert!(b.gen_moves().contains(&push));
    b.make_move(&push).unwrap();
    assert_eq!(b.en_passant, Some(sq(6, 4)));
    assert_eq!(b.side_to_move, Color::White);
    let ep = mv(sq(5, 5), sq(6, 4), Some(Piece::Pawn), None);
    let moves = b.gen_moves();
    assert!(moves.contains(&ep));
    assert_eq!(moves.len(), 2);
    let before = b.duplicate();
    let undo = b.make_move(&ep).unwrap();
    assert_eq!(b.get_square(&sq(6, 4)), Some((Piece::Pawn, Color::White)));
    assert_eq!(b.get_square(&sq(5, 4)), None);
    assert_eq!(b.get_square(&sq(5, 5)), None);
    assert_eq!(b.en_passant, None);
    b.unmake_move(&ep, &undo);
    assert!(same(&b, &before));
    assert_eq!(b.get_square(&sq(5, 4)), Some((Piece::Pawn, Color::Black)));
}

#[test]
fn en_passant_expires_after_one_ply() {
    let mut b = empty_board(Color::Black);
    place(&mut b, 5, 5, Piece::Pawn, Color::White);
    place(&mut b, 7, 4, Piece::Pawn, Color::Black);
    place(&mut b, 1, 1, Piece::King, Color::White);
    place(&mut b, 8, 8, Piece::King, Color::Black);
    b.make_move(&mv(sq(7, 4), sq(5, 4), None, None)).unwrap();
    b.make_move(&mv(sq(1, 1), sq(1, 2), None, None)).unwrap();
    b.make_move(&mv(sq(8, 8), sq(8, 7), None, None)).unwrap();
    assert_eq!(b.en_passant, None);
    assert!(!b.gen_moves().iter().any(|m| m.to == sq(6, 4)));
}

#[test]
fn castling_moves_the_rook() {
    let mut b = busy_position();
    let castle = mv(sq(1, 5), sq(1, 7), None, None);
    b.make_move(&castle).unwrap();
    assert_eq!(b.get_square(&sq(1, 7)), Some((Piece::King, Color::White)));
    assert_eq!(b.get_square(&sq(1, 6)), Some((Piece::Rook, Color::White)));
    assert_eq!(b.get_square(&sq(1, 8)), None);
    assert_eq!(b.castling_rights(Color::White), (false, false));
    assert_eq!(b.castling_rights(Color::Black), (true, true));
    assert_eq!(b.reversible_moves, 4);

    let mut q = busy_position();
    q.make_move(&mv(sq(1, 5), sq(1, 3), None, None)).unwrap();
    assert_eq!(q.get_square(&sq(1, 3)), Some((Piece::King, Color::White)));
    assert_eq!(q.get_square(&sq(1, 4)), Some((Piece::Rook, Color::White)));
    assert_eq!(q.get_square(&sq(1, 1)), None);
}

#[test]
fn rook_moves_and_captures_clear_rights() {
    let mut b = busy_position();
    b.make_move(&mv(sq(1, 1), sq(2, 1), None, None)).unwrap();
    assert_eq!(b.castling_rights(Color::White), (false, true));
    assert_eq!(b.castling_rights(Color::Black), (true, true));

    let mut k = busy_position();
    k.side_to_move = Color::Black;
    k.en_passant = None;
    k.make_move(&mv(sq(8, 5), sq(7, 5), None, None)).unwrap();
    assert_eq!(k.castling_rights(Color::Black), (false, false));
    assert_eq!(k.castling_rights(Color::White), (true, true));
}

#[test]
fn capturing_a_rook_on_its_corner_clears_the_right() {
    let mut b = empty_board(Color::White);
    place(&mut b, 1, 8, Piece::Rook, Color::White);
    place(&mut b, 8, 8, Piece::Rook, Color::Black);
    b.black_kingside_castling = true;
    b.black_queenside_castling = true;
    b.reversible_moves = 9;
    let take = mv(sq(1, 8), sq(8, 8), Some(Piece::Rook), None);
    assert!(b.gen_moves().contains(&take));
    b.make_move(&take).unwrap();
    assert_eq!(b.castling_rights(Color::Black), (true, false));
    assert_eq!(b.reversible_moves, 0);
    assert_eq!(b.get_square(&sq(8, 8)), Some((Piece::Rook, Color::White)));
}

#[test]
fn promotion_places_the_new_piece() {
    let mut b = empty_board(Color::White);
    place(&mut b, 7, 2, Piece::Pawn, Color::White);
    let promote = mv(sq(7, 2), sq(8, 2), None, Some(Piece::Knight));
    let undo = b.make_move(&promote).unwrap();
    assert_eq!(b.get_square(&sq(8, 2)), Some((Piece::Knight, Color::White)));
    assert_eq!(undo.moved, Piece::Pawn);
    b.unmake_move(&promote, &undo);
    assert_eq!(b.get_square(&sq(7, 2)), Some((Piece::Pawn, Color::White)));
    assert_eq!(b.get_square(&sq(8, 2)), None);
}

#[test]
fn reversible_counter_counts_quiet_moves() {
    let mut b = Board::new();
    b.make_move(&mv(sq(1, 7), sq(3, 6), None, None)).unwrap();
    assert_eq!(b.reversible_moves, 1);
    b.make_move(&mv(sq(8, 2), sq(6, 3), None, None)).unwrap();
    assert_eq!(b.reversible_moves, 2);
    b.make_move(&mv(sq(2, 5), sq(4, 5), None, None)).unwrap();
    assert_eq!(b.reversible_moves, 0);
    assert_eq!(b.en_passant, Some(sq(3, 5)));

    let mut full = empty_board(Color::White);
    place(&mut full, 4, 4, Piece::King, Color::White);
    full.reversible_moves = u32::MAX;
    full.make_move(&mv(sq(4, 4), sq(4, 5), None, None)).unwrap();
    assert_eq!(full.reversible_moves, u32::MAX);
}

#[test]
fn inapplicable_moves_are_refused() {
    let mut b = Board::new();
    let before = b.duplicate();
    assert_eq!(
        b.make_move(&mv(sq(4, 4), sq(5, 4), None, None)).unwrap_err(),
        ChessError::MoveNotApplicable
    );
    assert_eq!(
        b.make_move(&mv(sq(1, 1), sq(2, 1), None, None)).unwrap_err(),
        ChessError::MoveNotApplicable
    );
    assert_eq!(
        b.make_move(&mv(sq(7, 1), sq(6, 1), None, None)).unwrap_err(),
        ChessError::MoveNotApplicable
    );
    assert!(same(&b, &before));
}

#[test]
fn movement_make_leaves_the_board() {
    let b = Board::new();
    let push = mv(sq(2, 5), sq(4, 5), None, None);
    let (next, undo) = push.make(&b).unwrap();
    assert!(same(&b, &Board::new()));
    assert_eq!(next.get_square(&sq(4, 5)), Some((Piece::Pawn, Color::White)));
    assert_eq!(next.side_to_move, Color::Black);
    assert_eq!(undo.side_to_move, Color::White);
    assert!(undo.captured.is_none());
    assert_eq!(
        mv(sq(3, 3), sq(4, 4), None, None).make(&b).unwrap_err(),
        ChessError::MoveNotApplicable
    );
}

#[test]
fn reachable_boards_keep_colors_apart() {
    let start = Board::new();
    assert!(colors_apart(&start));
    let mut seen = 0;
    for m in start.gen_moves() {
        let mut b1 = start.duplicate();
        b1.make_move(&m).unwrap();
        assert!(colors_apart(&b1));
        for m2 in b1.gen_moves() {
            let mut b2 = b1.duplicate();
            b2.make_move(&m2).unwrap();
            assert!(colors_apart(&b2));
            for m3 in b2.gen_moves() {
                let mut b3 = b2.duplicate();
                let undo = b3.make_move(&m3).unwrap();
                assert!(colors_apart(&b3));
                b3.unmake_move(&m3, &undo);
                assert!(same(&b3, &b2));
                seen += 1;
            }
        }
    }
    assert_eq!(seen, 8902);
}
