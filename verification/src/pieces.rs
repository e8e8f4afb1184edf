//! Pieces and the rules by which each kind moves.
//!
//! A position is a pair `(file, rank)`, both counted from zero. White pawns
//! advance toward higher files, Black pawns toward lower ones.

use vstd::prelude::*;

verus! {

/// One of the two players.
#[derive(Clone, Copy, PartialEq, Eq, Structural, Debug)]
pub enum PieceColor {
    White,
    Black,
}

/// What a piece is, which decides how it moves.
#[derive(Clone, Copy, PartialEq, Eq, Structural, Debug)]
pub enum PieceType {
    King,
    Queen,
    Bishop,
    Knight,
    Rook,
    Pawn,
}

/// A piece together with the square it stands on.
#[derive(Clone, Copy, PartialEq, Eq, Structural, Debug)]
pub struct Piece {
    pub color: PieceColor,
    pub piece_type: PieceType,
    pub x: u8,
    pub y: u8,
}

/// Number of files, and of ranks, of the board.
pub const BOARD_SIZE: u8 = 8;

/// File from which a White pawn may advance two squares.
pub const WHITE_PAWN_FILE: u8 = 1;

/// File from which a Black pawn may advance two squares.
pub const BLACK_PAWN_FILE: u8 = 6;

impl PieceColor {
    /// The other player.
    pub open spec fn spec_opposite(self) -> PieceColor {
        match self {
            PieceColor::White => PieceColor::Black,
            PieceColor::Black => PieceColor::White,
        }
    }

    /// The other player.
    #[verifier::when_used_as_spec(spec_opposite)]
    pub fn opposite(self) -> (other: PieceColor)
        ensures
            other == self.spec_opposite(),
    {
        match self {
            PieceColor::White => PieceColor::Black,
            PieceColor::Black => PieceColor::White,
        }
    }
}

/// Both coordinates lie on the board.
pub open spec fn on_board(pos: (u8, u8)) -> bool {
    pos.0 < BOARD_SIZE && pos.1 < BOARD_SIZE
}

/// Distance between two coordinates.
pub open spec fn gap(a: u8, b: u8) -> int {
    if a >= b {
        a - b
    } else {
        b - a
    }
}

/// `v` lies strictly between `a` and `b`, whichever of the two is larger.
pub open spec fn between(a: u8, v: u8, b: u8) -> bool {
    (a < v && v < b) || (b < v && v < a)
}

impl Piece {
    /// The square the piece stands on.
    pub open spec fn position(self) -> (u8, u8) {
        (self.x, self.y)
    }

    /// The piece stands on `pos`.
    pub open spec fn stands_on(self, pos: (u8, u8)) -> bool {
        self.x == pos.0 && self.y == pos.1
    }
}

/// The side of the first piece of `pieces` that stands on `pos`, if any does.
pub open spec fn color_at(pieces: Seq<Piece>, pos: (u8, u8)) -> Option<PieceColor>
    decreases pieces.len(),
{
    if pieces.len() == 0 {
        None
    } else if pieces[0].stands_on(pos) {
        Some(pieces[0].color)
    } else {
        color_at(pieces.drop_first(), pos)
    }
}

/// The two squares share a file, a rank or a diagonal.
pub open spec fn aligned(a: (u8, u8), b: (u8, u8)) -> bool {
    a.0 == b.0 || a.1 == b.1 || gap(a.0, b.0) == gap(a.1, b.1)
}

/// `q` lies on the diagonal from `a` to `b`, strictly between the two.
pub open spec fn on_diagonal_between(a: (u8, u8), b: (u8, u8), q: (u8, u8)) -> bool {
    &&& gap(a.0, b.0) == gap(a.1, b.1)
    &&& between(a.0, q.0, b.0)
    &&& between(a.1, q.1, b.1)
    &&& gap(a.0, q.0) == gap(a.1, q.1)
}

/// `q` lies on the line from `a` to `b`, strictly between the two. No square
/// does unless `a` and `b` are aligned.
pub open spec fn strictly_between(a: (u8, u8), b: (u8, u8), q: (u8, u8)) -> bool {
    if a.0 == b.0 {
        q.0 == a.0 && between(a.1, q.1, b.1)
    } else if a.1 == b.1 {
        q.1 == a.1 && between(a.0, q.0, b.0)
    } else {
        on_diagonal_between(a, b, q)
    }
}

/// No piece stands on the file of `begin` at a rank strictly between those of
/// `begin` and `end`.
pub open spec fn column_clear(begin: (u8, u8), end: (u8, u8), pieces: Seq<Piece>) -> bool {
    forall|i: int|
        0 <= i < pieces.len() ==> !((#[trigger] pieces[i]).x == begin.0 && between(
            begin.1,
            pieces[i].y,
            end.1,
        ))
}

/// No piece stands on the rank of `begin` at a file strictly between those of
/// `begin` and `end`.
pub open spec fn row_clear(begin: (u8, u8), end: (u8, u8), pieces: Seq<Piece>) -> bool {
    forall|i: int|
        0 <= i < pieces.len() ==> !((#[trigger] pieces[i]).y == begin.1 && between(
            begin.0,
            pieces[i].x,
            end.0,
        ))
}

/// `begin` and `end` are as many files apart as ranks, and no piece stands on
/// the diagonal strictly between them.
pub open spec fn diagonal_clear(begin: (u8, u8), end: (u8, u8), pieces: Seq<Piece>) -> bool {
    &&& gap(begin.0, end.0) == gap(begin.1, end.1)
    &&& forall|i: int|
        0 <= i < pieces.len() ==> !on_diagonal_between(begin, end, (#[trigger] pieces[i]).position())
}

/// The two squares are aligned and no piece stands strictly between them.
pub open spec fn path_clear(begin: (u8, u8), end: (u8, u8), pieces: Seq<Piece>) -> bool {
    &&& aligned(begin, end)
    &&& forall|i: int|
        0 <= i < pieces.len() ==> !strictly_between(begin, end, (#[trigger] pieces[i]).position())
}

/// One square in any of the eight directions.
pub open spec fn king_step(from: (u8, u8), to: (u8, u8)) -> bool {
    let files = gap(from.0, to.0);
    let ranks = gap(from.1, to.1);
    files <= 1 && ranks <= 1 && (files == 1 || ranks == 1)
}

/// Two squares one way and one the other.
pub open spec fn knight_jump(from: (u8, u8), to: (u8, u8)) -> bool {
    let files = gap(from.0, to.0);
    let ranks = gap(from.1, to.1);
    (files == 2 && ranks == 1) || (files == 1 && ranks == 2)
}

/// Along a diagonal, by at least one square.
pub open spec fn diagonal_line(from: (u8, u8), to: (u8, u8)) -> bool {
    gap(from.0, to.0) == gap(from.1, to.1) && from.0 != to.0
}

/// Along a file or a rank, by at least one square.
pub open spec fn straight_line(from: (u8, u8), to: (u8, u8)) -> bool {
    (from.0 == to.0 && from.1 != to.1) || (from.1 == to.1 && from.0 != to.0)
}

/// Change of file by which a pawn of this side advances one square.
pub open spec fn pawn_advance(color: PieceColor) -> int {
    match color {
        PieceColor::White => 1,
        PieceColor::Black => -1,
    }
}

/// File on which the pawns of this side start.
pub open spec fn pawn_start_file(color: PieceColor) -> u8 {
    match color {
        PieceColor::White => WHITE_PAWN_FILE,
        PieceColor::Black => BLACK_PAWN_FILE,
    }
}

/// A pawn's three moves: one square forward onto an empty square; two squares
/// forward from its starting file over an empty square onto an empty square;
/// one square forward and one aside onto a piece of the other side.
pub open spec fn pawn_move(pawn: Piece, to: (u8, u8), pieces: Seq<Piece>) -> bool {
    let forward = pawn_advance(pawn.color);
    let files = to.0 - pawn.x;
    ||| (files == forward && to.1 == pawn.y && color_at(pieces, to) is None)
    ||| (pawn.x == pawn_start_file(pawn.color) && files == 2 * forward && to.1 == pawn.y
        && path_clear(pawn.position(), to, pieces) && color_at(pieces, to) is None)
    ||| (files == forward && gap(pawn.y, to.1) == 1 && color_at(pieces, to) == Some(
        pawn.color.spec_opposite(),
    ))
}

/// The rule of the game: `piece` may move to `to` in the position `pieces`.
///
/// Both squares lie on the board, no piece of the mover's side stands on
/// `to`, and the move has the shape that the piece's kind allows; queen,
/// bishop and rook, and a pawn's double step, also need a clear path. A move
/// that stays on its square is never allowed.
pub open spec fn valid_move(piece: Piece, to: (u8, u8), pieces: Seq<Piece>) -> bool {
    let from = piece.position();
    &&& on_board(from)
    &&& on_board(to)
    &&& color_at(pieces, to) != Some(piece.color)
    &&& match piece.piece_type {
        PieceType::King => king_step(from, to),
        PieceType::Queen => (diagonal_line(from, to) || straight_line(from, to)) && path_clear(
            from,
            to,
            pieces,
        ),
        PieceType::Bishop => diagonal_line(from, to) && path_clear(from, to, pieces),
        PieceType::Knight => knight_jump(from, to),
        PieceType::Rook => straight_line(from, to) && path_clear(from, to, pieces),
        PieceType::Pawn => pawn_move(piece, to, pieces),
    }
}

/// `color_at` finds nothing exactly when no piece stands on the square.
pub proof fn lemma_color_at_none(pieces: Seq<Piece>, pos: (u8, u8))
    ensures
        color_at(pieces, pos) is None <==> forall|i: int|
            0 <= i < pieces.len() ==> !(#[trigger] pieces[i]).stands_on(pos),
    decreases pieces.len(),
{
    if pieces.len() > 0 {
        let rest = pieces.drop_first();
        lemma_color_at_none(rest, pos);
        if !pieces[0].stands_on(pos) {
            if color_at(pieces, pos) is None {
                assert forall|i: int| 0 <= i < pieces.len() implies !(#[trigger] pieces[i]).stands_on(
                    pos,
                ) by {
                    if i > 0 {
                        assert(pieces[i] == rest[i - 1]);
                    }
                }
            } else {
                let j = choose|j: int| 0 <= j < rest.len() && (#[trigger] rest[j]).stands_on(pos);
                assert(pieces[j + 1] == rest[j]);
            }
        }
    }
}

/// What `color_at` finds is the side of a piece that stands on the square.
pub proof fn lemma_color_at_some(pieces: Seq<Piece>, pos: (u8, u8))
    requires
        color_at(pieces, pos) is Some,
    ensures
        exists|i: int|
            0 <= i < pieces.len() && (#[trigger] pieces[i]).stands_on(pos) && color_at(pieces, pos)
                == Some(pieces[i].color),
    decreases pieces.len(),
{
    if !pieces[0].stands_on(pos) {
        let rest = pieces.drop_first();
        lemma_color_at_some(rest, pos);
        let j = choose|j: int|
            0 <= j < rest.len() && (#[trigger] rest[j]).stands_on(pos) && color_at(rest, pos)
                == Some(rest[j].color);
        assert(pieces[j + 1] == rest[j]);
    } else {
        assert(pieces[0].stands_on(pos));
    }
}

/// Distance between two coordinates.
pub fn distance(a: u8, b: u8) -> (d: u8)
    ensures
        d == gap(a, b),
{
    if a >= b {
        a - b
    } else {
        b - a
    }
}

/// The side of the piece on `pos`: of the first one in `pieces`, should
/// several stand there.
pub fn color_of_piece(pos: (u8, u8), pieces: &[Piece]) -> (color: Option<PieceColor>)
    ensures
        color == color_at(pieces@, pos),
{
    let mut i: usize = 0;
    assert(pieces@.subrange(0, pieces@.len() as int) =~= pieces@);
    while i < pieces.len()
        invariant
            i <= pieces.len(),
            color_at(pieces@, pos) == color_at(
                pieces@.subrange(i as int, pieces@.len() as int),
                pos,
            ),
        decreases pieces.len() - i,
    {
        let p = pieces[i];
        proof {
            let rest = pieces@.subrange(i as int, pieces@.len() as int);
            assert(rest[0] == pieces@[i as int]);
            assert(rest.drop_first() =~= pieces@.subrange(i + 1, pieces@.len() as int));
        }
        if p.x == pos.0 && p.y == pos.1 {
            return Some(p.color);
        }
        i += 1;
    }
    None
}

/// Whether the file of `begin` is empty strictly between the ranks of `begin`
/// and `end`.
pub fn is_column_empty(begin: (u8, u8), end: (u8, u8), pieces: &[Piece]) -> (empty: bool)
    ensures
        empty == column_clear(begin, end, pieces@),
{
    let mut i: usize = 0;
    while i < pieces.len()
        invariant
            i <= pieces.len(),
            column_clear(begin, end, pieces@.take(i as int)),
        decreases pieces.len() - i,
    {
        let p = pieces[i];
        if p.x == begin.0 && ((p.y > begin.1 && p.y < end.1) || (p.y > end.1 && p.y < begin.1)) {
            assert(pieces@[i as int].x == begin.0);
            return false;
        }
        i += 1;
    }
    assert(pieces@.take(i as int) =~= pieces@);
    true
}

/// Whether the rank of `begin` is empty strictly between the files of `begin`
/// and `end`.
pub fn is_row_empty(begin: (u8, u8), end: (u8, u8), pieces: &[Piece]) -> (empty: bool)
    ensures
        empty == row_clear(begin, end, pieces@),
{
    let mut i: usize = 0;
    while i < pieces.len()
        invariant
            i <= pieces.len(),
            row_clear(begin, end, pieces@.take(i as int)),
        decreases pieces.len() - i,
    {
        let p = pieces[i];
        if p.y == begin.1 && ((p.x > begin.0 && p.x < end.0) || (p.x > end.0 && p.x < begin.0)) {
            assert(pieces@[i as int].y == begin.1);
            return false;
        }
        i += 1;
    }
    assert(pieces@.take(i as int) =~= pieces@);
    true
}

/// Whether `begin` and `end` lie on one diagonal with nothing strictly
/// between them.
pub fn is_diagonal_empty(begin: (u8, u8), end: (u8, u8), pieces: &[Piece]) -> (empty: bool)
    ensures
        empty == diagonal_clear(begin, end, pieces@),
{
    let x_diff = distance(begin.0, end.0);
    let y_diff = distance(begin.1, end.1);
    if x_diff != y_diff {
        return false;
    }
    let mut k: u8 = 1;
    while k < x_diff
        invariant
            1 <= k,
            x_diff == gap(begin.0, end.0),
            x_diff == gap(begin.1, end.1),
            forall|i: int|
                0 <= i < pieces@.len() ==> !(on_diagonal_between(
                    begin,
                    end,
                    (#[trigger] pieces@[i]).position(),
                ) && gap(begin.0, pieces@[i].x) < k),
        decreases x_diff - k,
    {
        let x = if begin.0 < end.0 {
            begin.0 + k
        } else {
            begin.0 - k
        };
        let y = if begin.1 < end.1 {
            begin.1 + k
        } else {
            begin.1 - k
        };
        let found = color_of_piece((x, y), pieces);
        proof {
            lemma_color_at_none(pieces@, (x, y));
        }
        if found.is_some() {
            proof {
                let i = choose|i: int|
                    0 <= i < pieces@.len() && (#[trigger] pieces@[i]).stands_on((x, y));
                assert(on_diagonal_between(begin, end, pieces@[i].position()));
            }
            return false;
        }
        k += 1;
    }
    true
}

/// Whether `begin` and `end` share a file, a rank or a diagonal with nothing
/// strictly between them.
pub fn is_path_empty(begin: (u8, u8), end: (u8, u8), pieces: &[Piece]) -> (empty: bool)
    ensures
        empty == path_clear(begin, end, pieces@),
{
    if begin.0 == end.0 {
        let empty = is_column_empty(begin, end, pieces);
        proof {
            if empty {
                assert forall|i: int| 0 <= i < pieces@.len() implies !strictly_between(
                    begin,
                    end,
                    (#[trigger] pieces@[i]).position(),
                ) by {}
            } else {
                let i = choose|i: int|
                    0 <= i < pieces@.len() && (#[trigger] pieces@[i]).x == begin.0 && between(
                        begin.1,
                        pieces@[i].y,
                        end.1,
                    );
                assert(strictly_between(begin, end, pieces@[i].position()));
            }
        }
        empty
    } else if begin.1 == end.1 {
        let empty = is_row_empty(begin, end, pieces);
        proof {
            if empty {
                assert forall|i: int| 0 <= i < pieces@.len() implies !strictly_between(
                    begin,
                    end,
                    (#[trigger] pieces@[i]).position(),
                ) by {}
            } else {
                let i = choose|i: int|
                    0 <= i < pieces@.len() && (#[trigger] pieces@[i]).y == begin.1 && between(
                        begin.0,
                        pieces@[i].x,
                        end.0,
                    );
                assert(strictly_between(begin, end, pieces@[i].position()));
            }
        }
        empty
    } else {
        let empty = is_diagonal_empty(begin, end, pieces);
        proof {
            if empty {
                assert forall|i: int| 0 <= i < pieces@.len() implies !strictly_between(
                    begin,
                    end,
                    (#[trigger] pieces@[i]).position(),
                ) by {}
            } else if gap(begin.0, end.0) == gap(begin.1, end.1) {
                let i = choose|i: int|
                    0 <= i < pieces@.len() && on_diagonal_between(
                        begin,
                        end,
                        (#[trigger] pieces@[i]).position(),
                    );
                assert(strictly_between(begin, end, pieces@[i].position()));
            }
        }
        empty
    }
}

impl Piece {
    /// Whether the piece may move to `new_position`, given all the pieces on
    /// the board, itself among them.
    pub fn is_move_valid(&self, new_position: (u8, u8), pieces: Vec<Piece>) -> (valid: bool)
        ensures
            valid == valid_move(*self, new_position, pieces@),
    {
        let from = (self.x, self.y);
        if self.x >= BOARD_SIZE || self.y >= BOARD_SIZE || new_position.0 >= BOARD_SIZE
            || new_position.1 >= BOARD_SIZE {
            return false;
        }
        let target = color_of_piece(new_position, pieces.as_slice());
        if let Some(color) = target {
            if color == self.color {
                return false;
            }
        }
        let files = distance(self.x, new_position.0);
        let ranks = distance(self.y, new_position.1);
        let diagonal = files == ranks && files != 0;
        let straight = (files == 0) != (ranks == 0);
        match self.piece_type {
            PieceType::King => files <= 1 && ranks <= 1 && (files == 1 || ranks == 1),
            PieceType::Queen => (diagonal || straight) && is_path_empty(
                from,
                new_position,
                pieces.as_slice(),
            ),
            PieceType::Bishop => diagonal && is_path_empty(from, new_position, pieces.as_slice()),
            PieceType::Knight => (files == 2 && ranks == 1) || (files == 1 && ranks == 2),
            PieceType::Rook => straight && is_path_empty(from, new_position, pieces.as_slice()),
            PieceType::Pawn => {
                let (forward_one, forward_two, start) = match self.color {
                    PieceColor::White => (
                        new_position.0 == self.x + 1,
                        new_position.0 == self.x + 2,
                        WHITE_PAWN_FILE,
                    ),
                    PieceColor::Black => (
                        new_position.0 + 1 == self.x,
                        new_position.0 + 2 == self.x,
                        BLACK_PAWN_FILE,
                    ),
                };
                if forward_one && ranks == 0 && target.is_none() {
                    return true;
                }
                if self.x == start && forward_two && ranks == 0 && target.is_none() && is_path_empty(
                    from,
                    new_position,
                    pieces.as_slice(),
                ) {
                    return true;
                }
                forward_one && ranks == 1 && target.is_some()
            },
        }
    }
}

} // verus!
