use cheso::color::Color;
use cheso::error::ChessError;
use cheso::square::{king_translations, knight_translations, Square};

fn sq(rank: isize, file: isize) -> Square {
    Square::new(rank, file).unwrap()
}

#[test]
fn new_accepts_board_coordinates() {
    let s = sq(3, 7);
    assert_eq!(s.rank(), 3);
    assert_eq!(s.file(), 7);
    assert_eq!(sq(1, 1).index(), 0);
    assert_eq!(sq(8, 8).index(), 63);
    assert_eq!(sq(2, 3).index(), 10);
    assert_eq!(Square::from_index(10), sq(2, 3));
}

#[test]
fn new_rejects_out_of_range() {
    assert_eq!(Square::new(0, 4), Err(ChessError::InvalidSquare));
    assert_eq!(Square::new(9, 4), Err(ChessError::InvalidSquare));
    assert_eq!(Square::new(4, 0), Err(ChessError::InvalidSquare));
    assert_eq!(Square::new(4, 9), Err(ChessError::InvalidSquare));
    assert_eq!(Square::new(-1, -1), Err(ChessError::InvalidSquare));
    assert!(Square::on_board(8, 1));
    assert!(!Square::on_board(8, 0));
}

#[test]
fn translate_stays_on_board() {
    assert_eq!(sq(4, 4).translate(2, -3), Some(sq(6, 1)));
    assert_eq!(sq(4, 4).translate(5, 0), None);
    assert_eq!(sq(1, 1).translate(-1, 0), None);
    assert_eq!(sq(1, 1).translate(isize::MAX, 0), None);
    assert_eq!(sq(8, 8).translate(isize::MIN, isize::MIN), None);
    assert_eq!(sq(4, 4).north(), Some(sq(5, 4)));
    assert_eq!(sq(4, 4).south(), Some(sq(3, 4)));
    assert_eq!(sq(4, 4).east(), Some(sq(4, 5)));
    assert_eq!(sq(4, 4).west(), Some(sq(4, 3)));
    assert_eq!(sq(4, 4).northeast(), Some(sq(5, 5)));
    assert_eq!(sq(4, 4).northwest(), Some(sq(5, 3)));
    assert_eq!(sq(4, 4).southeast(), Some(sq(3, 5)));
    assert_eq!(sq(4, 4).southwest(), Some(sq(3, 3)));
    assert_eq!(sq(8, 4).north(), None);
    assert_eq!(sq(4, 1).west(), None);
}

#[test]
fn pawn_helpers_follow_color() {
    let s = sq(2, 5);
    assert_eq!(s.forward(Color::White), Some(sq(3, 5)));
    assert_eq!(s.forward(Color::Black), Some(sq(1, 5)));
    assert_eq!(s.forward2(Color::White), Some(sq(4, 5)));
    assert_eq!(s.forward2(Color::Black), None);
    assert_eq!(s.pawn_left_capture(Color::White), Some(sq(3, 4)));
    assert_eq!(s.pawn_right_capture(Color::White), Some(sq(3, 6)));
    assert_eq!(s.pawn_left_capture(Color::Black), Some(sq(1, 4)));
    assert_eq!(s.pawn_right_capture(Color::Black), Some(sq(1, 6)));
    assert!(s.is_pawn_rank(Color::White));
    assert!(!s.is_pawn_rank(Color::Black));
    assert!(sq(7, 1).is_pawn_rank(Color::Black));
    assert!(sq(8, 3).is_last_rank(Color::White));
    assert!(sq(1, 3).is_last_rank(Color::Black));
    assert!(!sq(1, 3).is_last_rank(Color::White));
}

#[test]
fn mirrors_and_extremes() {
    let s = sq(2, 7);
    assert_eq!(s.sym_rank(), sq(7, 7));
    assert_eq!(s.sym_file(), sq(2, 2));
    assert_eq!(s.min_rank_file(), 2);
    assert_eq!(s.max_rank_file(), 7);
    assert_eq!(Color::White.opposite(), Color::Black);
    assert_eq!(Color::Black.opposite(), Color::White);
}

#[test]
fn knight_and_king_neighbourhoods() {
    assert_eq!(knight_translations().len(), 8);
    assert_eq!(king_translations().len(), 8);
    let centre = sq(4, 4).get_l_squares();
    assert_eq!(centre.len(), 8);
    for t in &centre {
        let dr = (t.rank() - 4).abs();
        let df = (t.file() - 4).abs();
        assert!((dr == 1 && df == 2) || (dr == 2 && df == 1));
    }
    assert_eq!(sq(1, 1).get_l_squares().len(), 2);
    assert_eq!(sq(4, 4).get_squares_around().len(), 8);
    assert_eq!(sq(1, 1).get_squares_around().len(), 3);
    assert_eq!(sq(1, 4).get_squares_around().len(), 5);
}

#[test]
fn rays_run_to_the_edge() {
    let s = sq(2, 3);
    assert_eq!(s.get_north_squares(), vec![sq(3, 3), sq(4, 3), sq(5, 3), sq(6, 3), sq(7, 3), sq(8, 3)]);
    assert_eq!(s.get_south_squares(), vec![sq(1, 3)]);
    assert_eq!(s.get_east_squares().len(), 5);
    assert_eq!(s.get_west_squares(), vec![sq(2, 2), sq(2, 1)]);
    assert_eq!(s.get_northeast_squares().len(), 5);
    assert_eq!(s.get_northwest_squares(), vec![sq(3, 2), sq(4, 1)]);
    assert_eq!(s.get_southeast_squares(), vec![sq(1, 4)]);
    assert_eq!(s.get_southwest_squares(), vec![sq(1, 2)]);
    assert!(sq(8, 8).get_northeast_squares().is_empty());
}
