use vstd::prelude::*;

use crate::color::Color;
use crate::error::ChessError;

verus! {

/// Whether a (rank, file) pair lies on the 8x8 board.
pub open spec fn on_board_spec(rank: int, file: int) -> bool {
    1 <= rank <= 8 && 1 <= file <= 8
}

/// Whether a (rank, file) pair lies on the board.
pub open spec fn valid(v: (int, int)) -> bool {
    on_board_spec(v.0, v.1)
}

/// `k` steps of a unit move `d` (one of -1, 0, 1) along one axis.
pub open spec fn steps(d: int, k: int) -> int {
    if d > 0 {
        k
    } else if d < 0 {
        -k
    } else {
        0
    }
}

/// The point `k` steps away from `v` in the unit direction (dr, df).
pub open spec fn ray_point(v: (int, int), dr: int, df: int, k: int) -> (int, int) {
    (v.0 + steps(dr, k), v.1 + steps(df, k))
}

/// A direction in which a sliding piece moves: each component in -1..=1, not both zero.
pub open spec fn is_unit_direction(dr: int, df: int) -> bool {
    -1 <= dr <= 1 && -1 <= df <= 1 && !(dr == 0 && df == 0)
}

/// The eight two-by-one displacements of a knight.
pub open spec fn is_knight_offset(dr: int, df: int) -> bool {
    ((dr == 1 || dr == -1) && (df == 2 || df == -2)) || ((dr == 2 || dr == -2) && (df == 1
        || df == -1))
}

/// The eight unit displacements of a king.
pub open spec fn is_king_offset(dr: int, df: int) -> bool {
    is_unit_direction(dr, df)
}

/// A square of the board: a rank (row) and a file (column), each in 1..=8.
///
/// A square is only ever built on the board: construction from out-of-range
/// coordinates fails. Equality and order are by rank, then file.
#[derive(Clone, Copy, Debug, PartialEq, Eq, Structural, PartialOrd, Ord, Hash)]
pub struct Square {
    rank: isize,
    file: isize,
}

impl View for Square {
    /// The square as (rank, file).
    type V = (int, int);

    closed spec fn view(&self) -> (int, int) {
        (self.rank as int, self.file as int)
    }
}

/// Two squares are equal exactly when their (rank, file) pairs are.
pub broadcast proof fn lemma_square_view_injective(a: Square, b: Square)
    ensures
        #![trigger a@, b@]
        a@ == b@ ==> a == b,
{
}

/// The square built by `Square::at` has the coordinates it was given.
pub broadcast proof fn lemma_square_at(rank: int, file: int)
    requires
        on_board_spec(rank, file),
    ensures
        #[trigger] Square::at(rank, file)@ == (rank, file),
{
}

/// Rebuilding a square from its own coordinates gives the same square.
pub broadcast proof fn lemma_square_at_view(s: Square)
    ensures
        #[trigger] Square::at(s@.0, s@.1) == s,
{
}

pub broadcast group group_square {
    lemma_square_view_injective,
    lemma_square_at,
    lemma_square_at_view,
}

impl Square {
    #[verifier::type_invariant]
    spec fn is_on_board(self) -> bool {
        on_board_spec(self.rank as int, self.file as int)
    }

    /// The square at (rank, file); meaningful when that pair is on the board.
    pub closed spec fn at(rank: int, file: int) -> Square {
        Square { rank: rank as isize, file: file as isize }
    }

    /// Position of the square in a 64-cell table, rank by rank.
    pub open spec fn cell(self) -> int {
        cell_of(self@)
    }

    /// The square `dr` ranks and `df` files away, if it is on the board.
    pub open spec fn translated(self, dr: int, df: int) -> Option<Square> {
        if on_board_spec(self@.0 + dr, self@.1 + df) {
            Some(Square::at(self@.0 + dr, self@.1 + df))
        } else {
            None
        }
    }

    /// Check whether a rank and a file lie on the board.
    pub fn on_board(rank: isize, file: isize) -> (r: bool)
        ensures
            r == on_board_spec(rank as int, file as int),
    {
        rank >= 1 && rank <= 8 && file >= 1 && file <= 8
    }

    /// Create a square; fails with `InvalidSquare` unless rank and file are in 1..=8.
    pub fn new(rank: isize, file: isize) -> (r: Result<Square, ChessError>)
        ensures
            r is Ok <==> on_board_spec(rank as int, file as int),
            r matches Ok(s) ==> s@ == (rank as int, file as int),
            r is Err ==> r == Err::<Square, ChessError>(ChessError::InvalidSquare),
    {
        if Square::on_board(rank, file) {
            Ok(Square { rank, file })
        } else {
            Err(ChessError::InvalidSquare)
        }
    }

    /// The square at (rank, file), for coordinates known to be on the board.
    pub(crate) fn from_coords(rank: isize, file: isize) -> (r: Square)
        requires
            on_board_spec(rank as int, file as int),
        ensures
            r@ == (rank as int, file as int),
            r == Square::at(rank as int, file as int),
    {
        Square { rank, file }
    }

    /// Get the rank of the square.
    pub fn rank(&self) -> (r: isize)
        ensures
            r == self@.0,
            1 <= r <= 8,
    {
        proof {
            use_type_invariant(self);
        }
        self.rank
    }

    /// Get the file of the square.
    pub fn file(&self) -> (r: isize)
        ensures
            r == self@.1,
            1 <= r <= 8,
    {
        proof {
            use_type_invariant(self);
        }
        self.file
    }

    /// Position of the square in a 64-cell table, rank by rank.
    pub fn index(&self) -> (r: usize)
        ensures
            r as int == self.cell(),
            r < 64,
            valid(self@),
    {
        proof {
            use_type_invariant(self);
        }
        ((self.rank - 1) * 8 + (self.file - 1)) as usize
    }

    /// The square at a position of a 64-cell table, rank by rank.
    pub fn from_index(i: usize) -> (r: Square)
        requires
            i < 64,
        ensures
            r@ == (i as int / 8 + 1, i as int % 8 + 1),
            r.cell() == i,
    {
        let rank = (i / 8) as isize + 1;
        let file = (i % 8) as isize + 1;
        Square { rank, file }
    }

    /// Translate the square, if the result stays on the board.
    pub fn translate(&self, rank_offset: isize, file_offset: isize) -> (r: Option<Square>)
        ensures
            r == self.translated(rank_offset as int, file_offset as int),
    {
        proof {
            use_type_invariant(self);
        }
        if rank_offset >= 1 - self.rank && rank_offset <= 8 - self.rank && file_offset >= 1
            - self.file && file_offset <= 8 - self.file {
            Some(Square { rank: self.rank + rank_offset, file: self.file + file_offset })
        } else {
            None
        }
    }

    /// Check if the square is on the last rank for a pawn of the given color.
    pub fn is_last_rank(&self, color: Color) -> (r: bool)
        ensures
            r == (self@.0 == color.last_rank()),
    {
        match color {
            Color::White => self.rank == 8,
            Color::Black => self.rank == 1,
        }
    }

    /// Check if the square is on the starting rank of a pawn of the given color.
    pub fn is_pawn_rank(&self, color: Color) -> (r: bool)
        ensures
            r == (self@.0 == color.pawn_rank()),
    {
        match color {
            Color::White => self.rank == 2,
            Color::Black => self.rank == 7,
        }
    }

    /// One square forward for a pawn of the given color.
    pub fn forward(&self, color: Color) -> (r: Option<Square>)
        ensures
            r == self.translated(color.direction(), 0),
    {
        match color {
            Color::White => self.north(),
            Color::Black => self.south(),
        }
    }

    /// Two squares forward for a pawn of the given color.
    pub fn forward2(&self, color: Color) -> (r: Option<Square>)
        ensures
            r == self.translated(2 * color.direction(), 0),
    {
        match color {
            Color::White => self.translate(2, 0),
            Color::Black => self.translate(-2, 0),
        }
    }

    /// The forward capture square toward the lower file, for a pawn of the given color.
    pub fn pawn_left_capture(&self, color: Color) -> (r: Option<Square>)
        ensures
            r == self.translated(color.direction(), -1),
    {
        match color {
            Color::White => self.northwest(),
            Color::Black => self.southwest(),
        }
    }

    /// The forward capture square toward the higher file, for a pawn of the given color.
    pub fn pawn_right_capture(&self, color: Color) -> (r: Option<Square>)
        ensures
            r == self.translated(color.direction(), 1),
    {
        match color {
            Color::White => self.northeast(),
            Color::Black => self.southeast(),
        }
    }

    /// The square mirrored across the middle of the board, rank-wise.
    pub fn sym_rank(&self) -> (r: Square)
        ensures
            r@ == (9 - self@.0, self@.1),
    {
        proof {
            use_type_invariant(self);
        }
        Square { rank: 9 - self.rank, file: self.file }
    }

    /// The square mirrored across the middle of the board, file-wise.
    pub fn sym_file(&self) -> (r: Square)
        ensures
            r@ == (self@.0, 9 - self@.1),
    {
        proof {
            use_type_invariant(self);
        }
        Square { rank: self.rank, file: 9 - self.file }
    }

    /// The smaller of rank and file.
    pub fn min_rank_file(&self) -> (r: isize)
        ensures
            r == if self@.0 <= self@.1 { self@.0 } else { self@.1 },
    {
        if self.rank <= self.file {
            self.rank
        } else {
            self.file
        }
    }

    /// The larger of rank and file.
    pub fn max_rank_file(&self) -> (r: isize)
        ensures
            r == if self@.0 >= self@.1 { self@.0 } else { self@.1 },
    {
        if self.rank >= self.file {
            self.rank
        } else {
            self.file
        }
    }

    /// The on-board squares reached from this one by the displacements of a table.
    fn jump_squares(&self, table: &[(isize, isize)]) -> (r: Vec<Square>)
        requires
            table@.no_duplicates(),
        ensures
            forall|s: Square|
                r@.contains(s) <==> valid(s@) && in_table(
                    table@,
                    table@.len() as int,
                    s@.0 - self@.0,
                    s@.1 - self@.1,
                ),
            r@.no_duplicates(),
    {
        let mut r: Vec<Square> = Vec::new();
        let mut i: usize = 0;
        while i < table.len()
            invariant
                i <= table@.len(),
                table@.no_duplicates(),
                forall|s: Square|
                    r@.contains(s) <==> valid(s@) && in_table(
                        table@,
                        i as int,
                        s@.0 - self@.0,
                        s@.1 - self@.1,
                    ),
                r@.no_duplicates(),
            decreases table@.len() - i,
        {
            let (dr, df) = table[i];
            let target = self.translate(dr, df);
            match target {
                Some(t) => {
                    proof {
                        if r@.contains(t) {
                            lemma_in_table_witness(table@, i as int, dr as int, df as int);
                        }
                    }
                    let ghost before = r@;
                    r.push(t);
                    proof {
                        lemma_push_contains(before, t);
                    }
                },
                None => {},
            }
            i += 1;
        }
        r
    }

    /// The on-board squares a knight's jump away (the L-shaped displacements).
    pub fn get_l_squares(&self) -> (r: Vec<Square>)
        ensures
            forall|s: Square|
                r@.contains(s) <==> valid(s@) && is_knight_offset(s@.0 - self@.0, s@.1 - self@.1),
            r@.no_duplicates(),
    {
        let table = knight_translations();
        proof {
            lemma_knight_table();
        }
        self.jump_squares(&table)
    }

    /// The on-board squares adjacent to this one, diagonals included.
    pub fn get_squares_around(&self) -> (r: Vec<Square>)
        ensures
            forall|s: Square|
                r@.contains(s) <==> valid(s@) && is_king_offset(s@.0 - self@.0, s@.1 - self@.1),
            r@.no_duplicates(),
    {
        let table = king_translations();
        proof {
            lemma_king_table();
        }
        self.jump_squares(&table)
    }

    /// The squares met stepping from this one in a unit direction, nearest
    /// first, up to the edge of the board.
    pub open spec fn is_ray(self, r: Seq<Square>, dr: int, df: int) -> bool {
        &&& forall|i: int|
            0 <= i < r.len() ==> #[trigger] r[i]@ == ray_point(self@, dr, df, i + 1) && valid(
                r[i]@,
            )
        &&& !valid(ray_point(self@, dr, df, r.len() + 1 as int))
    }

    fn ray_squares(&self, dr: isize, df: isize) -> (r: Vec<Square>)
        requires
            is_unit_direction(dr as int, df as int),
        ensures
            self.is_ray(r@, dr as int, df as int),
    {
        proof {
            use_type_invariant(self);
        }
        let mut r: Vec<Square> = Vec::new();
        let mut next = self.translate(dr, df);
        while next.is_some()
            invariant
                is_unit_direction(dr as int, df as int),
                r@.len() <= 7,
                forall|i: int|
                    0 <= i < r@.len() ==> #[trigger] r@[i]@ == ray_point(
                        self@,
                        dr as int,
                        df as int,
                        i + 1,
                    ) && valid(r@[i]@),
                valid(self@),
                match next {
                    Some(t) => t@ == ray_point(self@, dr as int, df as int, r@.len() + 1 as int) && valid(t@),
                    None => !valid(ray_point(self@, dr as int, df as int, r@.len() + 1 as int)),
                },
            decreases 8 - r@.len(),
        {
            let t = next.unwrap();
            r.push(t);
            next = t.translate(dr, df);
        }
        r
    }

    /// The squares from this one down the ranks to the edge, nearest first.
    pub fn get_south_squares(&self) -> (r: Vec<Square>)
        ensures
            self.is_ray(r@, -1, 0),
    {
        self.ray_squares(-1, 0)
    }

    /// The squares from this one up the ranks to the edge, nearest first.
    pub fn get_north_squares(&self) -> (r: Vec<Square>)
        ensures
            self.is_ray(r@, 1, 0),
    {
        self.ray_squares(1, 0)
    }

    /// The squares from this one down the files to the edge, nearest first.
    pub fn get_west_squares(&self) -> (r: Vec<Square>)
        ensures
            self.is_ray(r@, 0, -1),
    {
        self.ray_squares(0, -1)
    }

    /// The squares from this one up the files to the edge, nearest first.
    pub fn get_east_squares(&self) -> (r: Vec<Square>)
        ensures
            self.is_ray(r@, 0, 1),
    {
        self.ray_squares(0, 1)
    }

    /// The squares from this one up the ranks and files to the edge, nearest first.
    pub fn get_northeast_squares(&self) -> (r: Vec<Square>)
        ensures
            self.is_ray(r@, 1, 1),
    {
        self.ray_squares(1, 1)
    }

    /// The squares from this one up the ranks and down the files to the edge, nearest first.
    pub fn get_northwest_squares(&self) -> (r: Vec<Square>)
        ensures
            self.is_ray(r@, 1, -1),
    {
        self.ray_squares(1, -1)
    }

    /// The squares from this one down the ranks and up the files to the edge, nearest first.
    pub fn get_southeast_squares(&self) -> (r: Vec<Square>)
        ensures
            self.is_ray(r@, -1, 1),
    {
        self.ray_squares(-1, 1)
    }

    /// The squares from this one down the ranks and files to the edge, nearest first.
    pub fn get_southwest_squares(&self) -> (r: Vec<Square>)
        ensures
            self.is_ray(r@, -1, -1),
    {
        self.ray_squares(-1, -1)
    }

    /// The square one rank down.
    pub fn south(&self) -> (r: Option<Square>)
        ensures
            r == self.translated(-1, 0),
    {
        self.translate(-1, 0)
    }

    /// The square one rank up.
    pub fn north(&self) -> (r: Option<Square>)
        ensures
            r == self.translated(1, 0),
    {
        self.translate(1, 0)
    }

    /// The square one file down.
    pub fn west(&self) -> (r: Option<Square>)
        ensures
            r == self.translated(0, -1),
    {
        self.translate(0, -1)
    }

    /// The square one file up.
    pub fn east(&self) -> (r: Option<Square>)
        ensures
            r == self.translated(0, 1),
    {
        self.translate(0, 1)
    }

    /// The square one rank up and one file up.
    pub fn northeast(&self) -> (r: Option<Square>)
        ensures
            r == self.translated(1, 1),
    {
        self.translate(1, 1)
    }

    /// The square one rank up and one file down.
    pub fn northwest(&self) -> (r: Option<Square>)
        ensures
            r == self.translated(1, -1),
    {
        self.translate(1, -1)
    }

    /// The square one rank down and one file up.
    pub fn southeast(&self) -> (r: Option<Square>)
        ensures
            r == self.translated(-1, 1),
    {
        self.translate(-1, 1)
    }

    /// The square one rank down and one file down.
    pub fn southwest(&self) -> (r: Option<Square>)
        ensures
            r == self.translated(-1, -1),
    {
        self.translate(-1, -1)
    }
}

/// Whether (dr, df) is among the first `n` displacements of a table.
pub open spec fn in_table(t: Seq<(isize, isize)>, n: int, dr: int, df: int) -> bool
    decreases n,
{
    if n <= 0 {
        false
    } else {
        (t[n - 1].0 == dr && t[n - 1].1 == df) || in_table(t, n - 1, dr, df)
    }
}

/// The displacements of a knight, as (rank offset, file offset).
pub fn knight_translations() -> (r: [(isize, isize); 8])
    ensures
        r@ == knight_table(),
{
    [(1, 2), (2, 1), (-1, 2), (2, -1), (1, -2), (-2, 1), (-1, -2), (-2, -1)]
}

/// The displacements of a king, as (rank offset, file offset).
pub fn king_translations() -> (r: [(isize, isize); 8])
    ensures
        r@ == king_table(),
{
    [(0, 1), (1, 0), (0, -1), (-1, 0), (1, 1), (-1, 1), (1, -1), (-1, -1)]
}

pub open spec fn knight_table() -> Seq<(isize, isize)> {
    seq![
        (1isize, 2isize),
        (2isize, 1isize),
        (-1isize, 2isize),
        (2isize, -1isize),
        (1isize, -2isize),
        (-2isize, 1isize),
        (-1isize, -2isize),
        (-2isize, -1isize),
    ]
}

pub open spec fn king_table() -> Seq<(isize, isize)> {
    seq![
        (0isize, 1isize),
        (1isize, 0isize),
        (0isize, -1isize),
        (-1isize, 0isize),
        (1isize, 1isize),
        (-1isize, 1isize),
        (1isize, -1isize),
        (-1isize, -1isize),
    ]
}

/// The knight table holds each knight displacement once, and nothing else.
pub proof fn lemma_knight_table()
    ensures
        knight_table().no_duplicates(),
        forall|dr: int, df: int| in_table(knight_table(), 8, dr, df) <==> is_knight_offset(dr, df),
{
    reveal_with_fuel(in_table, 9);
}

/// The king table holds each unit displacement once, and nothing else.
pub proof fn lemma_king_table()
    ensures
        king_table().no_duplicates(),
        forall|dr: int, df: int| in_table(king_table(), 8, dr, df) <==> is_king_offset(dr, df),
{
    reveal_with_fuel(in_table, 9);
}

/// A displacement found in a table prefix is at some index of that prefix.
pub proof fn lemma_in_table_witness(t: Seq<(isize, isize)>, n: int, dr: int, df: int)
    requires
        in_table(t, n, dr, df),
    ensures
        exists|j: int| 0 <= j < n && t[j].0 == dr && t[j].1 == df,
    decreases n,
{
    if !(t[n - 1].0 == dr && t[n - 1].1 == df) {
        lemma_in_table_witness(t, n - 1, dr, df);
    }
}

/// What a sequence holds after a push: what it held, and the new element.
pub proof fn lemma_push_contains<T>(s: Seq<T>, x: T)
    ensures
        forall|y: T| #[trigger] s.push(x).contains(y) <==> s.contains(y) || y == x,
{
    assert forall|y: T| #[trigger] s.push(x).contains(y) <==> s.contains(y) || y == x by {
        if s.contains(y) {
            let j = choose|j: int| 0 <= j < s.len() && s[j] == y;
            assert(s.push(x)[j] == y);
        }
        if y == x {
            assert(s.push(x)[s.len() as int] == y);
        }
        if s.push(x).contains(y) {
            let j = choose|j: int| 0 <= j < s.len() + 1 && s.push(x)[j] == y;
            if j < s.len() {
                assert(s[j] == y);
            }
        }
    }
}

/// Position of a (rank, file) pair in a 64-cell table, rank by rank.
pub open spec fn cell_of(v: (int, int)) -> int {
    (v.0 - 1) * 8 + (v.1 - 1)
}

} // verus!
