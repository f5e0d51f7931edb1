use vstd::prelude::*;

use crate::board::{Board, BoardState};
use crate::color::Color;
use crate::movement::Movement;
use crate::piece::Piece;
use crate::rules::ray_distance;
use crate::square::{
    group_square, in_table, is_king_offset, is_unit_direction, king_translations, knight_translations,
    lemma_in_table_witness, lemma_king_table, lemma_knight_table, ray_point, steps, valid, Square,
};

verus! {

broadcast use group_square;

/// `new` is `old` followed by every movement that satisfies `pred`, each once.
pub open spec fn extends_with(
    old: Seq<Movement>,
    new: Seq<Movement>,
    pred: spec_fn(Movement) -> bool,
) -> bool {
    &&& old.len() <= new.len()
    &&& forall|i: int| 0 <= i < old.len() ==> new[i] == old[i]
    &&& forall|i: int| old.len() <= i < new.len() ==> pred(#[trigger] new[i])
    &&& forall|i: int, j: int| old.len() <= i < j < new.len() ==> new[i] != new[j]
    &&& forall|m: Movement|
        #[trigger] pred(m) ==> exists|i: int| old.len() <= i < new.len() && new[i] == m
}

/// Nothing added, when nothing satisfies the predicate.
proof fn lemma_extends_none(s: Seq<Movement>, p: spec_fn(Movement) -> bool)
    requires
        forall|m: Movement| !#[trigger] p(m),
    ensures
        extends_with(s, s, p),
{
}

/// A predicate may be replaced by an equivalent one.
proof fn lemma_extends_equiv(
    old: Seq<Movement>,
    new: Seq<Movement>,
    p: spec_fn(Movement) -> bool,
    q: spec_fn(Movement) -> bool,
)
    requires
        extends_with(old, new, p),
        forall|m: Movement| #![trigger p(m)] #![trigger q(m)] p(m) <==> q(m),
    ensures
        extends_with(old, new, q),
{
    assert forall|m: Movement| #[trigger] q(m) implies exists|i: int|
        old.len() <= i < new.len() && new[i] == m by {
        assert(p(m));
    }
}

/// Pushing one more movement, not yet satisfying the predicate.
proof fn lemma_extends_push(
    old: Seq<Movement>,
    mid: Seq<Movement>,
    m0: Movement,
    p: spec_fn(Movement) -> bool,
    q: spec_fn(Movement) -> bool,
)
    requires
        extends_with(old, mid, p),
        !p(m0),
        forall|m: Movement| #![trigger p(m)] #![trigger q(m)] q(m) <==> (p(m) || m == m0),
    ensures
        extends_with(old, mid.push(m0), q),
{
    let new = mid.push(m0);
    assert forall|i: int| old.len() <= i < new.len() implies q(#[trigger] new[i]) by {
        if i < mid.len() {
            assert(p(mid[i]));
        }
    }
    assert forall|i: int, j: int| old.len() <= i < j < new.len() implies new[i] != new[j] by {
        if j == mid.len() {
            assert(p(mid[i]));
        }
    }
    assert forall|m: Movement| #[trigger] q(m) implies exists|i: int|
        old.len() <= i < new.len() && new[i] == m by {
        if m == m0 {
            assert(new[mid.len() as int] == m);
        } else {
            assert(p(m));
            let i = choose|i: int| old.len() <= i < mid.len() && mid[i] == m;
            assert(new[i] == m);
        }
    }
}

/// Two extensions in a row, by disjoint predicates, make one by their union.
proof fn lemma_extends_trans(
    a: Seq<Movement>,
    b: Seq<Movement>,
    c: Seq<Movement>,
    p: spec_fn(Movement) -> bool,
    q: spec_fn(Movement) -> bool,
    r: spec_fn(Movement) -> bool,
)
    requires
        extends_with(a, b, p),
        extends_with(b, c, q),
        forall|m: Movement| #![trigger p(m)] #![trigger q(m)] !(p(m) && q(m)),
        forall|m: Movement| #![trigger p(m)] #![trigger q(m)] #![trigger r(m)] r(m) <==> (p(m) || q(m)),
    ensures
        extends_with(a, c, r),
{
    assert forall|i: int| a.len() <= i < c.len() implies r(#[trigger] c[i]) by {
        if i < b.len() {
            assert(p(b[i]));
        } else {
            assert(q(c[i]));
        }
    }
    assert forall|i: int, j: int| a.len() <= i < j < c.len() implies c[i] != c[j] by {
        if i < b.len() && j >= b.len() {
            assert(p(b[i]));
            assert(q(c[j]));
        }
    }
    assert forall|m: Movement| #[trigger] r(m) implies exists|i: int|
        a.len() <= i < c.len() && c[i] == m by {
        if p(m) {
            let i = choose|i: int| a.len() <= i < b.len() && b[i] == m;
            assert(c[i] == m);
        } else {
            assert(q(m));
        }
    }
}

/// Appending a sequence without repeats, holding exactly the movements that
/// satisfy a predicate.
proof fn lemma_extends_append(old: Seq<Movement>, extra: Seq<Movement>, p: spec_fn(Movement) -> bool)
    requires
        extra.no_duplicates(),
        forall|m: Movement| #[trigger] p(m) <==> extra.contains(m),
    ensures
        extends_with(old, old + extra, p),
{
    let new = old + extra;
    assert forall|i: int| old.len() <= i < new.len() implies p(#[trigger] new[i]) by {
        assert(extra[i - old.len()] == new[i]);
    }
    assert forall|i: int, j: int| old.len() <= i < j < new.len() implies new[i] != new[j] by {
        assert(extra[i - old.len()] == new[i]);
        assert(extra[j - old.len()] == new[j]);
    }
    assert forall|m: Movement| #[trigger] p(m) implies exists|i: int|
        old.len() <= i < new.len() && new[i] == m by {
        let k = choose|k: int| 0 <= k < extra.len() && extra[k] == m;
        assert(new[old.len() + k] == m);
    }
}

/// What an extension of the empty sequence holds.
proof fn lemma_extends_from_empty(new: Seq<Movement>, p: spec_fn(Movement) -> bool)
    requires
        extends_with(Seq::empty(), new, p),
    ensures
        forall|m: Movement| new.contains(m) <==> #[trigger] p(m),
        new.no_duplicates(),
{
    assert forall|m: Movement| new.contains(m) <==> #[trigger] p(m) by {
        if new.contains(m) {
            let k = choose|k: int| 0 <= k < new.len() && new[k] == m;
            assert(p(new[k]));
        }
    }
}

impl BoardState {
    /// A movement from `from` by one of the first `n` displacements of a
    /// table, onto an empty or enemy square.
    pub open spec fn jumps(
        self,
        from: Square,
        t: Seq<(isize, isize)>,
        n: int,
        m: Movement,
    ) -> bool {
        &&& m.from == from
        &&& valid(m.to@)
        &&& in_table(t, n, m.rank_delta(), m.file_delta())
        &&& m.promotion is None
        &&& self.lands(m)
    }
}

/// A movement slides along at most one direction.
proof fn lemma_slide_direction_unique(s: BoardState, m: Movement)
    ensures
        forall|a: int, b: int, c: int, e: int|
            #![trigger s.slides(m, a, b), s.slides(m, c, e)]
            is_unit_direction(a, b) && is_unit_direction(c, e) && s.slides(m, a, b) && s.slides(
                m,
                c,
                e,
            ) ==> a == c && b == e,
{
}

/// No movement slides along two different directions.
proof fn lemma_slide_direction_unique_all(s: BoardState)
    ensures
        forall|m: Movement, a: int, b: int, c: int, e: int|
            #![trigger s.slides(m, a, b), s.slides(m, c, e)]
            is_unit_direction(a, b) && is_unit_direction(c, e) && s.slides(m, a, b) && s.slides(
                m,
                c,
                e,
            ) ==> a == c && b == e,
{
    assert forall|m: Movement, a: int, b: int, c: int, e: int|
        is_unit_direction(a, b) && is_unit_direction(c, e) && #[trigger] s.slides(m, a, b)
            && #[trigger] s.slides(m, c, e) implies a == c && b == e by {
        lemma_slide_direction_unique(s, m);
    }
}

impl BoardState {
    /// A slide from `from` in the direction (dr, df).
    pub open spec fn slides_from(self, from: Square, dr: int, df: int, m: Movement) -> bool {
        &&& m.from == from
        &&& valid(m.to@)
        &&& self.slides(m, dr, df)
    }

    /// A slide from `from` in the direction (dr, df) of at most `k` steps.
    pub open spec fn slides_within(
        self,
        from: Square,
        dr: int,
        df: int,
        k: int,
        m: Movement,
    ) -> bool {
        &&& m.from == from
        &&& valid(m.to@)
        &&& self.slides(m, dr, df)
        &&& ray_distance(m.from@, m.to@, dr, df) <= k
    }
}

impl Board {
    /// Populate the list of movements from an array of translations.
    ///
    /// For each translation, a movement from the original square to its
    /// translation is generated, when the translation lies on the board and
    /// is empty or holds an enemy piece. This generates the movements of
    /// knights and kings (castling aside).
    fn gen_moves_from_array(
        &self,
        from: &Square,
        translations: &[(isize, isize)],
        moves: &mut Vec<Movement>,
    )
        requires
            self@.wf(),
            translations@.no_duplicates(),
        ensures
            extends_with(
                old(moves)@,
                final(moves)@,
                (|m: Movement| self@.jumps(*from, translations@, translations@.len() as int, m)),
            ),
    {
        let ghost start = moves@;
        let ghost t = translations@;
        proof {
            lemma_extends_none(start, |m: Movement| self@.jumps(*from, t, 0, m));
        }
        let mut i: usize = 0;
        while i < translations.len()
            invariant
                i <= t.len(),
                t == translations@,
                self@.wf(),
                t.no_duplicates(),
                extends_with(start, moves@, (|m: Movement| self@.jumps(*from, t, i as int, m))),
            decreases t.len() - i,
        {
            let (dr, df) = translations[i];
            let ghost p = |m: Movement| self@.jumps(*from, t, i as int, m);
            let ghost q = |m: Movement| self@.jumps(*from, t, i + 1, m);
            let candidate: Option<Movement> = match from.translate(dr, df) {
                Some(to) => match self.get_square(&to) {
                    None => Some(Movement { from: *from, to, capture: None, promotion: None }),
                    Some((piece, color)) => {
                        if color != self.side_to_move {
                            Some(Movement { from: *from, to, capture: Some(piece), promotion: None })
                        } else {
                            None
                        }
                    },
                },
                None => None,
            };
            proof {
                assert forall|m: Movement|
                    #[trigger] q(m) <==> (p(m) || (candidate matches Some(c) && m == c)) by {
                    if q(m) && !p(m) {
                        assert(m.rank_delta() == dr && m.file_delta() == df);
                    }
                }
                if let Some(c) = candidate {
                    if p(c) {
                        lemma_in_table_witness(t, i as int, dr as int, df as int);
                    }
                }
            }
            match candidate {
                Some(c) => {
                    let ghost mid = moves@;
                    moves.push(c);
                    proof {
                        lemma_extends_push(start, mid, c, p, q);
                    }
                },
                None => {
                    proof {
                        lemma_extends_equiv(start, moves@, p, q);
                    }
                },
            }
            i += 1;
        }
    }

    /// Populate the list of movements until collision with another piece.
    ///
    /// Starting on a square, step in the direction (dr, df) until leaving the
    /// board or reaching a piece. Each empty square passed gives a movement,
    /// and so does the piece reached, when it is an enemy. This generates the
    /// movements of bishops, rooks and queens.
    fn gen_moves_until_collision(&self, from: &Square, dr: isize, df: isize, moves: &mut Vec<Movement>)
        requires
            self@.wf(),
            is_unit_direction(dr as int, df as int),
        ensures
            extends_with(
                old(moves)@,
                final(moves)@,
                (|m: Movement| self@.slides_from(*from, dr as int, df as int, m)),
            ),
    {
        let ghost start = moves@;
        let ghost s = self@;
        let ghost d0 = dr as int;
        let ghost d1 = df as int;
        let ghost goal = |m: Movement| s.slides_from(*from, d0, d1, m);
        let ghost mut k: int = 0;
        let mut next = from.translate(dr, df);
        let _ = from.index();
        proof {
            lemma_extends_none(start, |m: Movement| s.slides_within(*from, d0, d1, 0, m));
        }
        loop
            invariant_except_break
                self@ == s,
                d0 == dr,
                d1 == df,
                goal == (|m: Movement| s.slides_from(*from, d0, d1, m)),
                s.wf(),
                is_unit_direction(d0, d1),
                valid(from@),
                0 <= k <= 7,
                match next {
                    Some(t) => t@ == ray_point(from@, d0, d1, k + 1) && valid(t@),
                    None => !valid(ray_point(from@, d0, d1, k + 1)),
                },
                forall|j: int| 1 <= j <= k ==> s.is_empty(#[trigger] ray_point(from@, d0, d1, j)),
                extends_with(start, moves@, (|m: Movement| s.slides_within(*from, d0, d1, k, m))),
            ensures
                extends_with(start, moves@, goal),
            decreases 8 - k,
        {
            let ghost p = |m: Movement| s.slides_within(*from, d0, d1, k, m);
            let ghost q = |m: Movement| s.slides_within(*from, d0, d1, k + 1, m);
            match next {
                Some(square) => match self.get_square(&square) {
                    None => {
                        let c = Movement { from: *from, to: square, capture: None, promotion: None };
                        let ghost mid = moves@;
                        proof {
                            assert forall|m: Movement| #[trigger] q(m) <==> (p(m) || m == c) by {
                                if q(m) && !p(m) {
                                    assert(m.to@ == square@);
                                }
                                if m == c {
                                    assert(ray_distance(from@, square@, d0, d1) == k + 1);
                                }
                            }
                        }
                        moves.push(c);
                        proof {
                            lemma_extends_push(start, mid, c, p, q);
                            k = k + 1;
                        }
                        next = square.translate(dr, df);
                        proof {
                            assert(ray_point(from@, d0, d1, k + 1) == (square@.0 + d0, square@.1 + d1));
                        }
                    },
                    Some((piece, color)) => {
                        if color != self.side_to_move {
                            let c = Movement {
                                from: *from,
                                to: square,
                                capture: Some(piece),
                                promotion: None,
                            };
                            let ghost mid = moves@;
                            proof {
                                assert forall|m: Movement| #[trigger] goal(m) <==> (p(m) || m == c) by {
                                    if goal(m) && !p(m) {
                                        let km = ray_distance(m.from@, m.to@, d0, d1);
                                        if km > k + 1 {
                                            assert(s.is_empty(ray_point(from@, d0, d1, k + 1)));
                                        }
                                        assert(m.to@ == square@);
                                    }
                                    if m == c {
                                        assert(ray_distance(from@, square@, d0, d1) == k + 1);
                                    }
                                }
                            }
                            moves.push(c);
                            proof {
                                lemma_extends_push(start, mid, c, p, goal);
                            }
                        } else {
                            proof {
                                assert forall|m: Movement| #[trigger] goal(m) <==> p(m) by {
                                    if goal(m) && !p(m) {
                                        let km = ray_distance(m.from@, m.to@, d0, d1);
                                        if km > k + 1 {
                                            assert(s.is_empty(ray_point(from@, d0, d1, k + 1)));
                                        }
                                        assert(m.to@ == square@);
                                    }
                                }
                                lemma_extends_equiv(start, moves@, p, goal);
                            }
                        }
                        break ;
                    },
                },
                None => {
                    proof {
                        assert forall|m: Movement| #[trigger] goal(m) <==> p(m) by {
                            if goal(m) && !p(m) {
                                let km = ray_distance(m.from@, m.to@, d0, d1);
                                assert(m.from == *from);
                                assert(valid(m.to@));
                                assert(s.slides(m, d0, d1));
                                assert(km > k);
                            }
                        }
                        lemma_extends_equiv(start, moves@, p, goal);
                    }
                    break ;
                },
            }
        }
    }

    /// Populate the list of movements from a square as a knight.
    ///
    /// Knights move two squares in a horizontal or vertical direction, then
    /// one square horizontally or vertically. They jump over other pieces.
    fn gen_knight_moves(&self, from: &Square, moves: &mut Vec<Movement>)
        requires
            self@.wf(),
        ensures
            extends_with(
                old(moves)@,
                final(moves)@,
                (|m: Movement| m.from == *from && valid(m.to@) && self@.is_knight_move(m)),
            ),
    {
        let table = knight_translations();
        proof {
            lemma_knight_table();
        }
        let ghost start = moves@;
        self.gen_moves_from_array(from, &table, moves);
        proof {
            lemma_extends_equiv(
                start,
                moves@,
                |m: Movement| self@.jumps(*from, table@, 8, m),
                |m: Movement| m.from == *from && valid(m.to@) && self@.is_knight_move(m),
            );
        }
    }

    /// Populate the list of movements from a square as a bishop.
    ///
    /// Bishops move diagonally any number of squares, and do not jump over pieces.
    fn gen_bishop_moves(&self, from: &Square, moves: &mut Vec<Movement>)
        requires
            self@.wf(),
        ensures
            extends_with(
                old(moves)@,
                final(moves)@,
                (|m: Movement| m.from == *from && valid(m.to@) && self@.is_bishop_move(m)),
            ),
    {
        let ghost s = self@;
        let ghost m0 = moves@;
        self.gen_moves_until_collision(from, 1, 1, moves);
        let ghost m1 = moves@;
        self.gen_moves_until_collision(from, 1, -1, moves);
        let ghost m2 = moves@;
        self.gen_moves_until_collision(from, -1, 1, moves);
        let ghost m3 = moves@;
        self.gen_moves_until_collision(from, -1, -1, moves);
        proof {
            let f = *from;
            lemma_slide_direction_unique_all(s);
            lemma_extends_trans(
                m0,
                m1,
                m2,
                |m: Movement| s.slides_from(f, 1, 1, m),
                |m: Movement| s.slides_from(f, 1, -1, m),
                |m: Movement| s.slides_from(f, 1, 1, m) || s.slides_from(f, 1, -1, m),
            );
            lemma_extends_trans(
                m0,
                m2,
                m3,
                |m: Movement| s.slides_from(f, 1, 1, m) || s.slides_from(f, 1, -1, m),
                |m: Movement| s.slides_from(f, -1, 1, m),
                |m: Movement|
                    s.slides_from(f, 1, 1, m) || s.slides_from(f, 1, -1, m) || s.slides_from(
                        f,
                        -1,
                        1,
                        m,
                    ),
            );
            lemma_extends_trans(
                m0,
                m3,
                moves@,
                |m: Movement|
                    s.slides_from(f, 1, 1, m) || s.slides_from(f, 1, -1, m) || s.slides_from(
                        f,
                        -1,
                        1,
                        m,
                    ),
                |m: Movement| s.slides_from(f, -1, -1, m),
                |m: Movement| m.from == f && valid(m.to@) && s.is_bishop_move(m),
            );
        }
    }

    /// Populate the list of movements from a square as a rook.
    ///
    /// Rooks move horizontally or vertically any number of squares, and do
    /// not jump over pieces.
    fn gen_rook_moves(&self, from: &Square, moves: &mut Vec<Movement>)
        requires
            self@.wf(),
        ensures
            extends_with(
                old(moves)@,
                final(moves)@,
                (|m: Movement| m.from == *from && valid(m.to@) && self@.is_rook_move(m)),
            ),
    {
        let ghost s = self@;
        let ghost m0 = moves@;
        self.gen_moves_until_collision(from, 1, 0, moves);
        let ghost m1 = moves@;
        self.gen_moves_until_collision(from, -1, 0, moves);
        let ghost m2 = moves@;
        self.gen_moves_until_collision(from, 0, 1, moves);
        let ghost m3 = moves@;
        self.gen_moves_until_collision(from, 0, -1, moves);
        proof {
            let f = *from;
            lemma_slide_direction_unique_all(s);
            lemma_extends_trans(
                m0,
                m1,
                m2,
                |m: Movement| s.slides_from(f, 1, 0, m),
                |m: Movement| s.slides_from(f, -1, 0, m),
                |m: Movement| s.slides_from(f, 1, 0, m) || s.slides_from(f, -1, 0, m),
            );
            lemma_extends_trans(
                m0,
                m2,
                m3,
                |m: Movement| s.slides_from(f, 1, 0, m) || s.slides_from(f, -1, 0, m),
                |m: Movement| s.slides_from(f, 0, 1, m),
                |m: Movement|
                    s.slides_from(f, 1, 0, m) || s.slides_from(f, -1, 0, m) || s.slides_from(
                        f,
                        0,
                        1,
                        m,
                    ),
            );
            lemma_extends_trans(
                m0,
                m3,
                moves@,
                |m: Movement|
                    s.slides_from(f, 1, 0, m) || s.slides_from(f, -1, 0, m) || s.slides_from(
                        f,
                        0,
                        1,
                        m,
                    ),
                |m: Movement| s.slides_from(f, 0, -1, m),
                |m: Movement| m.from == f && valid(m.to@) && s.is_rook_move(m),
            );
        }
    }

    /// Populate the list of movements from a square as a queen.
    ///
    /// Queens move diagonally, horizontally or vertically any number of
    /// squares, and do not jump over pieces.
    fn gen_queen_moves(&self, from: &Square, moves: &mut Vec<Movement>)
        requires
            self@.wf(),
        ensures
            extends_with(
                old(moves)@,
                final(moves)@,
                (|m: Movement| m.from == *from && valid(m.to@) && self@.is_queen_move(m)),
            ),
    {
        let ghost s = self@;
        let ghost m0 = moves@;
        self.gen_bishop_moves(from, moves);
        let ghost m1 = moves@;
        self.gen_rook_moves(from, moves);
        proof {
            let f = *from;
            lemma_slide_direction_unique_all(s);
            lemma_extends_trans(
                m0,
                m1,
                moves@,
                |m: Movement| m.from == f && valid(m.to@) && s.is_bishop_move(m),
                |m: Movement| m.from == f && valid(m.to@) && s.is_rook_move(m),
                |m: Movement| m.from == f && valid(m.to@) && s.is_queen_move(m),
            );
        }
    }

    /// Populate the list of castling movements of a king on `from`.
    fn gen_castling_moves(&self, from: &Square, moves: &mut Vec<Movement>)
        requires
            self@.wf(),
        ensures
            extends_with(
                old(moves)@,
                final(moves)@,
                (|m: Movement|
                    m.from == *from && valid(m.to@) && (self@.castles(m, true) || self@.castles(
                        m,
                        false,
                    ))),
            ),
    {
        let ghost s = self@;
        let ghost f = *from;
        let side = self.side_to_move;
        let (queenside, kingside) = self.castling_rights(side);
        let base: usize = match side {
            Color::White => 0,
            Color::Black => 56,
        };
        let pieces = self.get_pieces_to_move();
        let at_home = from.index() == base + 4;
        let ghost kp = |m: Movement| m.from == f && valid(m.to@) && s.castles(m, true);
        let ghost qp = |m: Movement| m.from == f && valid(m.to@) && s.castles(m, false);
        let ghost m0 = moves@;
        let g_sq = Square::from_index(base + 6);
        let can_kingside = at_home && kingside && self.get_square(&Square::from_index(base + 5)).is_none()
            && self.get_square(&g_sq).is_none() && matches!(pieces[base + 7], Some(Piece::Rook));
        let kc = Movement { from: *from, to: g_sq, capture: None, promotion: None };
        if can_kingside {
            proof {
                assert forall|m: Movement| #[trigger] kp(m) <==> seq![kc].contains(m) by {
                    if kp(m) {
                        assert(m.to@ == g_sq@);
                        assert(seq![kc][0] == m);
                    }
                }
                lemma_extends_append(m0, seq![kc], kp);
                assert(m0 + seq![kc] == m0.push(kc));
            }
            moves.push(kc);
        } else {
            proof {
                lemma_extends_none(m0, kp);
            }
        }
        let ghost m1 = moves@;
        let c_sq = Square::from_index(base + 2);
        let can_queenside = at_home && queenside && self.get_square(&Square::from_index(base + 1)).is_none()
            && self.get_square(&c_sq).is_none() && self.get_square(&Square::from_index(base + 3)).is_none()
            && matches!(pieces[base], Some(Piece::Rook));
        let qc = Movement { from: *from, to: c_sq, capture: None, promotion: None };
        if can_queenside {
            proof {
                assert forall|m: Movement| #[trigger] qp(m) <==> seq![qc].contains(m) by {
                    if qp(m) {
                        assert(m.to@ == c_sq@);
                        assert(seq![qc][0] == m);
                    }
                }
                lemma_extends_append(m1, seq![qc], qp);
                assert(m1 + seq![qc] == m1.push(qc));
            }
            moves.push(qc);
        } else {
            proof {
                lemma_extends_none(m1, qp);
            }
        }
        proof {
            lemma_extends_trans(
                m0,
                m1,
                moves@,
                kp,
                qp,
                |m: Movement|
                    m.from == f && valid(m.to@) && (s.castles(m, true) || s.castles(m, false)),
            );
        }
    }

    /// Populate the list of movements from a square as a king.
    ///
    /// Kings move one square in any direction, and castle.
    fn gen_king_moves(&self, from: &Square, moves: &mut Vec<Movement>)
        requires
            self@.wf(),
        ensures
            extends_with(
                old(moves)@,
                final(moves)@,
                (|m: Movement| m.from == *from && valid(m.to@) && self@.is_king_move(m)),
            ),
    {
        let ghost s = self@;
        let ghost f = *from;
        let table = king_translations();
        proof {
            lemma_king_table();
        }
        let ghost m0 = moves@;
        self.gen_moves_from_array(from, &table, moves);
        let ghost m1 = moves@;
        self.gen_castling_moves(from, moves);
        proof {
            assert forall|m: Movement|
                !(#[trigger] s.jumps(f, table@, 8, m) && (s.castles(m, true) || s.castles(
                    m,
                    false,
                ))) by {
                if s.jumps(f, table@, 8, m) {
                    assert(is_king_offset(m.rank_delta(), m.file_delta()));
                }
            }
            lemma_extends_trans(
                m0,
                m1,
                moves@,
                |m: Movement| s.jumps(f, table@, 8, m),
                |m: Movement|
                    m.from == f && valid(m.to@) && (s.castles(m, true) || s.castles(m, false)),
                |m: Movement| m.from == f && valid(m.to@) && s.is_king_move(m),
            );
        }
    }

    /// Append the movements of a pawn from `from` to `to` with the given
    /// capture: one per promotion kind on the last rank, else one.
    fn push_pawn_moves(
        &self,
        from: &Square,
        to: Square,
        capture: Option<Piece>,
        moves: &mut Vec<Movement>,
    )
        ensures
            extends_with(
                old(moves)@,
                final(moves)@,
                (|m: Movement|
                    m.from == *from && m.to == to && m.capture == capture && self@.promotes_right(
                        m,
                    )),
            ),
    {
        let ghost s = self@;
        let ghost m0 = moves@;
        let ghost p = |m: Movement|
            m.from == *from && m.to == to && m.capture == capture && s.promotes_right(m);
        if to.is_last_rank(self.side_to_move) {
            let q = Movement { from: *from, to, capture, promotion: Some(Piece::Queen) };
            let r = Movement { from: *from, to, capture, promotion: Some(Piece::Rook) };
            let b = Movement { from: *from, to, capture, promotion: Some(Piece::Bishop) };
            let n = Movement { from: *from, to, capture, promotion: Some(Piece::Knight) };
            moves.push(q);
            moves.push(r);
            moves.push(b);
            moves.push(n);
            proof {
                let extra = seq![q, r, b, n];
                assert(moves@ == m0 + extra);
                assert forall|m: Movement| #[trigger] p(m) <==> extra.contains(m) by {
                    if p(m) {
                        if m.promotion == Some(Piece::Queen) {
                            assert(extra[0] == m);
                        } else if m.promotion == Some(Piece::Rook) {
                            assert(extra[1] == m);
                        } else if m.promotion == Some(Piece::Bishop) {
                            assert(extra[2] == m);
                        } else {
                            assert(extra[3] == m);
                        }
                    }
                }
                lemma_extends_append(m0, extra, p);
            }
        } else {
            let c = Movement { from: *from, to, capture, promotion: None };
            moves.push(c);
            proof {
                let extra = seq![c];
                assert(moves@ == m0 + extra);
                assert forall|m: Movement| #[trigger] p(m) <==> extra.contains(m) by {
                    if p(m) {
                        assert(extra[0] == m);
                    }
                }
                lemma_extends_append(m0, extra, p);
            }
        }
    }

    /// Populate the list of forward movements of a pawn: one square onto an
    /// empty square, and from the start rank two squares over empty squares.
    fn gen_pawn_pushes(&self, from: &Square, moves: &mut Vec<Movement>)
        requires
            self@.wf(),
        ensures
            extends_with(
                old(moves)@,
                final(moves)@,
                (|m: Movement|
                    m.from == *from && valid(m.to@) && (self@.is_pawn_push(m)
                        || self@.is_pawn_double_push(m))),
            ),
    {
        let ghost s = self@;
        let ghost f = *from;
        let ghost m0 = moves@;
        let ghost goal = |m: Movement|
            m.from == f && valid(m.to@) && (s.is_pawn_push(m) || s.is_pawn_double_push(m));
        let ghost single = |m: Movement| m.from == f && valid(m.to@) && s.is_pawn_push(m);
        let ghost double = |m: Movement| m.from == f && valid(m.to@) && s.is_pawn_double_push(m);
        let side = self.side_to_move;
        let _ = from.index();
        match from.forward(side) {
            Some(one) => {
                if self.get_square(&one).is_none() {
                    self.push_pawn_moves(from, one, None, moves);
                    let ghost m1 = moves@;
                    proof {
                        lemma_extends_equiv(
                            m0,
                            m1,
                            |m: Movement|
                                m.from == f && m.to == one && m.capture == None::<Piece>
                                    && s.promotes_right(m),
                            single,
                        );
                    }
                    let mut pushed_two = false;
                    if from.is_pawn_rank(side) {
                        match from.forward2(side) {
                            Some(two) => {
                                if self.get_square(&two).is_none() {
                                    let c = Movement {
                                        from: *from,
                                        to: two,
                                        capture: None,
                                        promotion: None,
                                    };
                                    moves.push(c);
                                    pushed_two = true;
                                    proof {
                                        assert forall|m: Movement| #[trigger]
                                            double(m) <==> seq![c].contains(m) by {
                                            if double(m) {
                                                assert(m.to@ == two@);
                                                assert(seq![c][0] == m);
                                            }
                                        }
                                        lemma_extends_append(m1, seq![c], double);
                                        assert(m1 + seq![c] == moves@);
                                    }
                                }
                            },
                            None => {},
                        }
                    }
                    proof {
                        if !pushed_two {
                            lemma_extends_none(m1, double);
                        }
                        lemma_extends_trans(m0, m1, moves@, single, double, goal);
                    }
                } else {
                    proof {
                        lemma_extends_none(m0, goal);
                    }
                }
            },
            None => {
                proof {
                    lemma_extends_none(m0, goal);
                }
            },
        }
    }

    /// Populate the list of diagonal movements of a pawn toward one file side
    /// (`file_offset` -1 or 1): a capture of an enemy piece, or en passant.
    fn gen_pawn_diagonal(&self, from: &Square, file_offset: isize, moves: &mut Vec<Movement>)
        requires
            self@.wf(),
            file_offset == 1 || file_offset == -1,
        ensures
            extends_with(
                old(moves)@,
                final(moves)@,
                (|m: Movement|
                    m.from == *from && valid(m.to@) && m.file_delta() == file_offset && (
                    self@.is_pawn_capture(m) || self@.is_en_passant(m))),
            ),
    {
        let ghost s = self@;
        let ghost f = *from;
        let ghost m0 = moves@;
        let ghost goal = |m: Movement|
            m.from == f && valid(m.to@) && m.file_delta() == file_offset && (s.is_pawn_capture(m)
                || s.is_en_passant(m));
        let side = self.side_to_move;
        let dir: isize = match side {
            Color::White => 1,
            Color::Black => -1,
        };
        let _ = from.index();
        match from.translate(dir, file_offset) {
            Some(to) => match self.get_square(&to) {
                Some((piece, color)) => {
                    if color != side {
                        self.push_pawn_moves(from, to, Some(piece), moves);
                        proof {
                            lemma_extends_equiv(
                                m0,
                                moves@,
                                |m: Movement|
                                    m.from == f && m.to == to && m.capture == Some(piece)
                                        && s.promotes_right(m),
                                goal,
                            );
                        }
                    } else {
                        proof {
                            lemma_extends_none(m0, goal);
                        }
                    }
                },
                None => {
                    let is_target = match self.en_passant {
                        Some(t) => t == to,
                        None => false,
                    };
                    let beside = match from.translate(0, file_offset) {
                        Some(b) => match self.get_square(&b) {
                            Some((Piece::Pawn, color)) => color != side,
                            _ => false,
                        },
                        None => false,
                    };
                    if is_target && beside {
                        let c = Movement {
                            from: *from,
                            to,
                            capture: Some(Piece::Pawn),
                            promotion: None,
                        };
                        moves.push(c);
                        proof {
                            assert forall|m: Movement| #[trigger] goal(m) <==> seq![c].contains(m) by {
                                if goal(m) {
                                    assert(m.to@ == to@);
                                    assert(seq![c][0] == m);
                                }
                            }
                            lemma_extends_append(m0, seq![c], goal);
                            assert(m0 + seq![c] == moves@);
                        }
                    } else {
                        proof {
                            assert forall|m: Movement| !#[trigger] goal(m) by {
                                if goal(m) {
                                    assert(m.to@ == to@);
                                }
                            }
                            lemma_extends_none(m0, goal);
                        }
                    }
                },
            },
            None => {
                proof {
                    lemma_extends_none(m0, goal);
                }
            },
        }
    }

    /// Populate the list of movements from a square as a pawn.
    ///
    /// Pawns move one square forward, or two from their start rank; they
    /// capture one square diagonally forward, also en passant, and promote on
    /// the last rank.
    fn gen_pawn_moves(&self, from: &Square, moves: &mut Vec<Movement>)
        requires
            self@.wf(),
        ensures
            extends_with(
                old(moves)@,
                final(moves)@,
                (|m: Movement| m.from == *from && valid(m.to@) && self@.is_pawn_move(m)),
            ),
    {
        let ghost s = self@;
        let ghost f = *from;
        let ghost m0 = moves@;
        self.gen_pawn_pushes(from, moves);
        let ghost m1 = moves@;
        self.gen_pawn_diagonal(from, -1, moves);
        let ghost m2 = moves@;
        self.gen_pawn_diagonal(from, 1, moves);
        proof {
            let ahead = |m: Movement|
                m.from == f && valid(m.to@) && (s.is_pawn_push(m) || s.is_pawn_double_push(m));
            let left = |m: Movement|
                m.from == f && valid(m.to@) && m.file_delta() == -1 && (s.is_pawn_capture(m)
                    || s.is_en_passant(m));
            let right = |m: Movement|
                m.from == f && valid(m.to@) && m.file_delta() == 1 && (s.is_pawn_capture(m)
                    || s.is_en_passant(m));
            lemma_extends_trans(
                m0,
                m1,
                m2,
                ahead,
                left,
                |m: Movement| ahead(m) || left(m),
            );
            lemma_extends_trans(
                m0,
                m2,
                moves@,
                |m: Movement| ahead(m) || left(m),
                right,
                |m: Movement| m.from == f && valid(m.to@) && s.is_pawn_move(m),
            );
        }
    }

    /// Generate the list of pseudo-legal movements.
    ///
    /// Pieces obey their rules of movement, but the movements are not checked
    /// for leaving the own king attacked. Each pseudo-legal movement is listed
    /// once; the order is by origin square, then by piece rules.
    pub fn gen_moves(&self) -> (moves: Vec<Movement>)
        requires
            self@.wf(),
        ensures
            forall|m: Movement| moves@.contains(m) <==> self@.is_pseudo_legal(m),
            moves@.no_duplicates(),
    {
        let ghost s = self@;
        let mut moves: Vec<Movement> = Vec::new();
        let pieces = self.get_pieces_to_move();
        proof {
            lemma_extends_none(moves@, |m: Movement| s.is_pseudo_legal(m) && m.from.cell() < 0);
        }
        let mut i: usize = 0;
        while i < 64
            invariant
                i <= 64,
                self@ == s,
                s.wf(),
                pieces@ == s.pieces_of(s.side_to_move),
                extends_with(
                    Seq::<Movement>::empty(),
                    moves@,
                    (|m: Movement| s.is_pseudo_legal(m) && m.from.cell() < i),
                ),
            decreases 64 - i,
        {
            let ghost p = |m: Movement| s.is_pseudo_legal(m) && m.from.cell() < i;
            let ghost q = |m: Movement| s.is_pseudo_legal(m) && m.from.cell() < i + 1;
            let ghost mid = moves@;
            let sq = Square::from_index(i);
            let ghost here = |m: Movement| m.from == sq && s.is_pseudo_legal(m);
            proof {
                assert forall|m: Movement| #[trigger] q(m) <==> (p(m) || here(m)) by {
                    if q(m) && !p(m) {
                        assert(m.from@ == sq@);
                    }
                }
            }
            match pieces[i] {
                Some(piece) => {
                    match piece {
                        Piece::Pawn => {
                            self.gen_pawn_moves(&sq, &mut moves);
                            proof {
                                lemma_extends_equiv(
                                    mid,
                                    moves@,
                                    |m: Movement| m.from == sq && valid(m.to@) && s.is_pawn_move(m),
                                    here,
                                );
                            }
                        },
                        Piece::Knight => {
                            self.gen_knight_moves(&sq, &mut moves);
                            proof {
                                lemma_extends_equiv(
                                    mid,
                                    moves@,
                                    |m: Movement| m.from == sq && valid(m.to@) && s.is_knight_move(m),
                                    here,
                                );
                            }
                        },
                        Piece::Bishop => {
                            self.gen_bishop_moves(&sq, &mut moves);
                            proof {
                                lemma_extends_equiv(
                                    mid,
                                    moves@,
                                    |m: Movement| m.from == sq && valid(m.to@) && s.is_bishop_move(m),
                                    here,
                                );
                            }
                        },
                        Piece::Rook => {
                            self.gen_rook_moves(&sq, &mut moves);
                            proof {
                                lemma_extends_equiv(
                                    mid,
                                    moves@,
                                    |m: Movement| m.from == sq && valid(m.to@) && s.is_rook_move(m),
                                    here,
                                );
                            }
                        },
                        Piece::Queen => {
                            self.gen_queen_moves(&sq, &mut moves);
                            proof {
                                lemma_extends_equiv(
                                    mid,
                                    moves@,
                                    |m: Movement| m.from == sq && valid(m.to@) && s.is_queen_move(m),
                                    here,
                                );
                            }
                        },
                        Piece::King => {
                            self.gen_king_moves(&sq, &mut moves);
                            proof {
                                lemma_extends_equiv(
                                    mid,
                                    moves@,
                                    |m: Movement| m.from == sq && valid(m.to@) && s.is_king_move(m),
                                    here,
                                );
                            }
                        },
                    }
                    proof {
                        lemma_extends_trans(Seq::<Movement>::empty(), mid, moves@, p, here, q);
                    }
                },
                None => {
                    proof {
                        lemma_extends_none(mid, here);
                        lemma_extends_trans(Seq::<Movement>::empty(), mid, moves@, p, here, q);
                    }
                },
            }
            i += 1;
        }
        proof {
            let all = |m: Movement| s.is_pseudo_legal(m) && m.from.cell() < 64;
            lemma_extends_from_empty(moves@, all);
            assert forall|m: Movement| moves@.contains(m) <==> s.is_pseudo_legal(m) by {
                if s.is_pseudo_legal(m) {
                    assert(m.from.cell() < 64);
                }
                assert(moves@.contains(m) <==> all(m));
            }
        }
        moves
    }
}

} // verus!
