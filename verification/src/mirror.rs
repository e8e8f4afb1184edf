//! The rules treat the two sides alike: a position seen from the other end
//! of the board, with the sides exchanged, allows the same moves.

use vstd::prelude::*;
use crate::pieces::{
    Piece, PieceType, BOARD_SIZE, color_at, on_board, path_clear, strictly_between, valid_move,
};

verus! {

/// The square at the same rank, as many files from the far end of the board
/// as `pos` is from the near end.
pub open spec fn mirror_square(pos: (u8, u8)) -> (u8, u8) {
    ((BOARD_SIZE - 1 - pos.0) as u8, pos.1)
}

/// The piece of the other side on the mirrored square.
pub open spec fn mirror_piece(piece: Piece) -> Piece {
    Piece {
        color: piece.color.spec_opposite(),
        piece_type: piece.piece_type,
        x: mirror_square(piece.position()).0,
        y: piece.y,
    }
}

/// Every piece mirrored, in the same order.
pub open spec fn mirror_pieces(pieces: Seq<Piece>) -> Seq<Piece> {
    Seq::new(pieces.len(), |i: int| mirror_piece(pieces[i]))
}

/// Every piece stands on a square of the board.
pub open spec fn all_on_board(pieces: Seq<Piece>) -> bool {
    forall|i: int| 0 <= i < pieces.len() ==> on_board((#[trigger] pieces[i]).position())
}

/// Mirroring exchanges the sides that stand on a square and its mirror image.
pub proof fn lemma_mirror_color_at(pieces: Seq<Piece>, pos: (u8, u8))
    requires
        all_on_board(pieces),
        on_board(pos),
    ensures
        color_at(mirror_pieces(pieces), mirror_square(pos)) == match color_at(pieces, pos) {
            Some(color) => Some(color.spec_opposite()),
            None => None,
        },
    decreases pieces.len(),
{
    if pieces.len() > 0 {
        let rest = pieces.drop_first();
        assert(mirror_pieces(pieces).drop_first() =~= mirror_pieces(rest));
        assert forall|i: int| 0 <= i < rest.len() implies on_board(
            (#[trigger] rest[i]).position(),
        ) by {
            assert(rest[i] == pieces[i + 1]);
        }
        lemma_mirror_color_at(rest, pos);
        assert(on_board(pieces[0].position()));
        assert(mirror_pieces(pieces)[0] == mirror_piece(pieces[0]));
    }
}

/// Mirroring keeps a path clear or blocked.
pub proof fn lemma_mirror_path_clear(begin: (u8, u8), end: (u8, u8), pieces: Seq<Piece>)
    requires
        all_on_board(pieces),
        on_board(begin),
        on_board(end),
    ensures
        path_clear(mirror_square(begin), mirror_square(end), mirror_pieces(pieces)) == path_clear(
            begin,
            end,
            pieces,
        ),
{
    let mirrored = mirror_pieces(pieces);
    assert forall|i: int| 0 <= i < pieces.len() implies strictly_between(
        mirror_square(begin),
        mirror_square(end),
        (#[trigger] mirrored[i]).position(),
    ) == strictly_between(begin, end, pieces[i].position()) by {
        assert(on_board(pieces[i].position()));
    }
    if path_clear(begin, end, pieces) {
        assert forall|i: int| 0 <= i < mirrored.len() implies !strictly_between(
            mirror_square(begin),
            mirror_square(end),
            (#[trigger] mirrored[i]).position(),
        ) by {
            assert(!strictly_between(begin, end, pieces[i].position()));
        }
    }
    if path_clear(mirror_square(begin), mirror_square(end), mirrored) {
        assert forall|i: int| 0 <= i < pieces.len() implies !strictly_between(
            begin,
            end,
            (#[trigger] pieces[i]).position(),
        ) by {
            assert(!strictly_between(
                mirror_square(begin),
                mirror_square(end),
                mirrored[i].position(),
            ));
        }
    }
}

/// Exchanging the two sides and mirroring the board along the files, the
/// axis along which pawns advance, changes the verdict on no move: a piece
/// may move to a square exactly when, in the mirrored position, the mirrored
/// piece may move to the mirrored square.
pub proof fn valid_move_mirror_symmetric(piece: Piece, to: (u8, u8), pieces: Seq<Piece>)
    requires
        on_board(piece.position()),
        on_board(to),
        all_on_board(pieces),
    ensures
        valid_move(mirror_piece(piece), mirror_square(to), mirror_pieces(pieces)) == valid_move(
            piece,
            to,
            pieces,
        ),
{
    lemma_mirror_color_at(pieces, to);
    lemma_mirror_path_clear(piece.position(), to, pieces);
}

/// The same piece in the colours of the other side.
pub open spec fn change_side(piece: Piece) -> Piece {
    Piece {
        color: piece.color.spec_opposite(),
        piece_type: piece.piece_type,
        x: piece.x,
        y: piece.y,
    }
}

/// Only a pawn's moves depend on its side. Any other piece may move to an
/// empty square exactly when a piece of the same kind and the other side
/// could move there from the same square.
pub proof fn only_pawn_moves_depend_on_side(piece: Piece, to: (u8, u8), pieces: Seq<Piece>)
    requires
        piece.piece_type != PieceType::Pawn,
        color_at(pieces, to) is None,
    ensures
        valid_move(change_side(piece), to, pieces) == valid_move(piece, to, pieces),
{
}

} // verus!
