use cheso::board::Board;
use cheso::color::Color;
use cheso::movement::Movement;
use cheso::piece::Piece;
use cheso::square::Square;

fn sq(rank: isize, file: isize) -> Square {
    Square::new(rank, file).unwrap()
}

fn empty_board(side: Color) -> Board {
    Board {
        white_pieces: vec![None; 64],
        black_pieces: vec![None; 64],
        side_to_move: side,
        white_kingside_castling: false,
        white_queenside_castling: false,
        black_kingside_castling: false,
        black_queenside_castling: false,
        en_passant: None,
        reversible_moves: 0,
    }
}

fn place(b: &mut Board, rank: isize, file: isize, piece: Piece, color: Color) {
    let i = sq(rank, file).index();
    match color {
        Color::White => b.white_pieces[i] = Some(piece),
        Color::Black => b.black_pieces[i] = Some(piece),
    }
}

fn targets(moves: &[Movement]) -> Vec<(isize, isize)> {
    let mut t: Vec<(isize, isize)> = moves.iter().map(|m| (m.to.rank(), m.to.file())).collect();
    t.sort();
    t
}

#[test]
fn start_position_has_twenty_moves() {
    let b = Board::new();
    let moves = b.gen_moves();
    assert_eq!(moves.len(), 20);
    let pawn_moves = moves
        .iter()
        .filter(|m| matches!(b.get_square(&m.from), Some((Piece::Pawn, Color::White))))
        .count();
    let knight_moves = moves
        .iter()
        .filter(|m| matches!(b.get_square(&m.from), Some((Piece::Knight, Color::White))))
        .count();
    assert_eq!(pawn_moves, 16);
    assert_eq!(knight_moves, 4);
    let doubles = moves
        .iter()
        .filter(|m| m.from.rank() == 2 && m.to.rank() == 4)
        .count();
    assert_eq!(doubles, 8);
    assert!(moves.iter().all(|m| !m.is_capture() && m.promotion.is_none()));
}

#[test]
fn start_position_black_also_has_twenty_moves() {
    let mut b = Board::init();
    b.side_to_move = Color::Black;
    let moves = b.gen_moves();
    assert_eq!(moves.len(), 20);
    assert!(moves.iter().all(|m| m.from.rank() >= 7 && m.to.rank() >= 5));
}

#[test]
fn start_position_layout() {
    let b = Board::new();
    assert_eq!(b.get_square(&sq(1, 5)), Some((Piece::King, Color::White)));
    assert_eq!(b.get_square(&sq(8, 4)), Some((Piece::Queen, Color::Black)));
    assert_eq!(b.get_square(&sq(7, 1)), Some((Piece::Pawn, Color::Black)));
    assert_eq!(b.get_square(&sq(2, 8)), Some((Piece::Pawn, Color::White)));
    assert_eq!(b.get_square(&sq(1, 2)), Some((Piece::Knight, Color::White)));
    assert_eq!(b.get_square(&sq(8, 6)), Some((Piece::Bishop, Color::Black)));
    assert_eq!(b.get_square(&sq(1, 8)), Some((Piece::Rook, Color::White)));
    assert_eq!(b.get_square(&sq(4, 4)), None);
    assert_eq!(b.get_pieces_to_move().iter().filter(|c| c.is_some()).count(), 16);
    assert_eq!(b.castling_rights(Color::White), (true, true));
    assert_eq!(b.castling_rights(Color::Black), (true, true));
    assert_eq!(b.en_passant, None);
    assert_eq!(b.reversible_moves, 0);
}

#[test]
fn lone_rook_has_fourteen_destinations() {
    let mut b = empty_board(Color::White);
    place(&mut b, 4, 4, Piece::Rook, Color::White);
    let moves = b.gen_moves();
    assert_eq!(moves.len(), 14);
    let t = targets(&moves);
    assert!(t.iter().all(|&(r, f)| (r == 4) != (f == 4)));
    let mut expected: Vec<(isize, isize)> = Vec::new();
    for k in 1..=8 {
        if k != 4 {
            expected.push((4, k));
            expected.push((k, 4));
        }
    }
    expected.sort();
    assert_eq!(t, expected);
}

#[test]
fn lone_knight_has_eight_destinations() {
    let mut b = empty_board(Color::White);
    place(&mut b, 4, 5, Piece::Knight, Color::White);
    let moves = b.gen_moves();
    assert_eq!(moves.len(), 8);
    for m in &moves {
        let dr = (m.to.rank() - 4).abs();
        let df = (m.to.file() - 5).abs();
        assert!((dr == 1 && df == 2) || (dr == 2 && df == 1));
    }
    let mut corner = empty_board(Color::Black);
    place(&mut corner, 8, 8, Piece::Knight, Color::Black);
    assert_eq!(targets(&corner.gen_moves()), vec![(6, 7), (7, 6)]);
}

#[test]
fn bishop_and_queen_counts() {
    let mut b = empty_board(Color::White);
    place(&mut b, 4, 4, Piece::Bishop, Color::White);
    assert_eq!(b.gen_moves().len(), 13);
    let mut q = empty_board(Color::White);
    place(&mut q, 4, 4, Piece::Queen, Color::White);
    assert_eq!(q.gen_moves().len(), 27);
    let mut k = empty_board(Color::White);
    place(&mut k, 1, 1, Piece::King, Color::White);
    assert_eq!(targets(&k.gen_moves()), vec![(1, 2), (2, 1), (2, 2)]);
}

#[test]
fn sliders_stop_at_pieces() {
    let mut b = empty_board(Color::White);
    place(&mut b, 1, 1, Piece::Rook, Color::White);
    place(&mut b, 1, 4, Piece::Knight, Color::Black);
    place(&mut b, 4, 1, Piece::Pawn, Color::White);
    let moves: Vec<Movement> = b.gen_moves().into_iter().filter(|m| m.from == sq(1, 1)).collect();
    assert_eq!(targets(&moves), vec![(1, 2), (1, 3), (1, 4), (2, 1), (3, 1)]);
    let capture = moves.iter().find(|m| m.to == sq(1, 4)).unwrap();
    assert_eq!(capture.capture, Some(Piece::Knight));
    assert!(capture.is_capture());
    assert_eq!(moves.iter().filter(|m| m.is_capture()).count(), 1);
}

#[test]
fn pawn_single_and_double_push() {
    let mut b = empty_board(Color::White);
    place(&mut b, 2, 3, Piece::Pawn, Color::White);
    assert_eq!(targets(&b.gen_moves()), vec![(3, 3), (4, 3)]);

    let mut blocked = empty_board(Color::White);
    place(&mut blocked, 2, 3, Piece::Pawn, Color::White);
    place(&mut blocked, 3, 3, Piece::Knight, Color::Black);
    assert!(blocked.gen_moves().is_empty());

    let mut far_blocked = empty_board(Color::White);
    place(&mut far_blocked, 2, 3, Piece::Pawn, Color::White);
    place(&mut far_blocked, 4, 3, Piece::Knight, Color::Black);
    assert_eq!(targets(&far_blocked.gen_moves()), vec![(3, 3)]);

    let mut black = empty_board(Color::Black);
    place(&mut black, 7, 6, Piece::Pawn, Color::Black);
    assert_eq!(targets(&black.gen_moves()), vec![(5, 6), (6, 6)]);

    let mut moved = empty_board(Color::White);
    place(&mut moved, 3, 3, Piece::Pawn, Color::White);
    assert_eq!(targets(&moved.gen_moves()), vec![(4, 3)]);
}

#[test]
fn pawn_promotes_to_four_kinds() {
    let mut b = empty_board(Color::White);
    place(&mut b, 7, 2, Piece::Pawn, Color::White);
    let moves = b.gen_moves();
    assert_eq!(moves.len(), 4);
    let mut kinds: Vec<Piece> = moves.iter().map(|m| m.promotion.unwrap()).collect();
    kinds.sort();
    assert_eq!(kinds, vec![Piece::Knight, Piece::Bishop, Piece::Rook, Piece::Queen]);
    assert!(moves.iter().all(|m| m.to == sq(8, 2) && m.capture.is_none()));

    let mut black = empty_board(Color::Black);
    place(&mut black, 2, 5, Piece::Pawn, Color::Black);
    place(&mut black, 1, 6, Piece::Rook, Color::White);
    let moves = black.gen_moves();
    assert_eq!(moves.len(), 8);
    assert_eq!(moves.iter().filter(|m| m.capture == Some(Piece::Rook)).count(), 4);
}

#[test]
fn pawn_captures_diagonally_only_enemies() {
    let mut b = empty_board(Color::White);
    place(&mut b, 4, 4, Piece::Pawn, Color::White);
    place(&mut b, 5, 3, Piece::Bishop, Color::Black);
    place(&mut b, 5, 5, Piece::Knight, Color::White);
    let moves: Vec<Movement> = b.gen_moves().into_iter().filter(|m| m.from == sq(4, 4)).collect();
    assert_eq!(targets(&moves), vec![(5, 3), (5, 4)]);
    assert_eq!(moves.iter().find(|m| m.to == sq(5, 3)).unwrap().capture, Some(Piece::Bishop));
}

#[test]
fn castling_when_path_is_clear() {
    let mut b = empty_board(Color::White);
    place(&mut b, 1, 5, Piece::King, Color::White);
    place(&mut b, 1, 1, Piece::Rook, Color::White);
    place(&mut b, 1, 8, Piece::Rook, Color::White);
    b.white_kingside_castling = true;
    b.white_queenside_castling = true;
    let king: Vec<Movement> = b.gen_moves().into_iter().filter(|m| m.from == sq(1, 5)).collect();
    assert_eq!(king.len(), 7);
    assert!(king.iter().any(|m| m.to == sq(1, 7)));
    assert!(king.iter().any(|m| m.to == sq(1, 3)));

    place(&mut b, 1, 2, Piece::Knight, Color::White);
    b.white_kingside_castling = false;
    let king: Vec<Movement> = b.gen_moves().into_iter().filter(|m| m.from == sq(1, 5)).collect();
    assert_eq!(king.len(), 5);
    assert!(!king.iter().any(|m| m.to == sq(1, 7) || m.to == sq(1, 3)));
}

#[test]
fn black_castles_on_its_own_rank() {
    let mut b = empty_board(Color::Black);
    place(&mut b, 8, 5, Piece::King, Color::Black);
    place(&mut b, 8, 8, Piece::Rook, Color::Black);
    b.black_kingside_castling = true;
    let king: Vec<Movement> = b.gen_moves().into_iter().filter(|m| m.from == sq(8, 5)).collect();
    assert!(king.iter().any(|m| m.to == sq(8, 7)));
    assert_eq!(king.len(), 6);
}

#[test]
fn generate_matches_gen_moves() {
    let b = Board::new();
    let mut a = Movement::generate(&b);
    let mut c = b.gen_moves();
    let key = |m: &Movement| (m.from.index(), m.to.index());
    a.sort_by_key(key);
    c.sort_by_key(key);
    assert_eq!(a, c);
}
