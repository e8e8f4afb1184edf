//! The board of one game: its squares, the pieces that are still in play,
//! each under a handle that stays the same while the piece moves, and the
//! side whose turn it is.

use vstd::prelude::*;
use crate::pieces::{
    Piece, PieceColor, PieceType, BOARD_SIZE, BLACK_PAWN_FILE, WHITE_PAWN_FILE, color_at,
    lemma_color_at_none, lemma_color_at_some, on_board, valid_move,
};

verus! {

/// A square of the board, by file and rank.
#[derive(Clone, Copy, PartialEq, Eq, Structural, Debug)]
pub struct Square {
    pub x: u8,
    pub y: u8,
}

impl Square {
    /// File and rank as a pair.
    pub open spec fn position(self) -> (u8, u8) {
        (self.x, self.y)
    }

    /// Whether the square is a light one: the corner at file 0, rank 0 is
    /// dark, and the shades alternate from there.
    pub fn is_white(&self) -> (white: bool)
        ensures
            white == ((self.x + self.y + 1) % 2 == 0),
    {
        (self.x % 2 == 0) != (self.y % 2 == 0)
    }
}

/// The side that moves next.
pub struct PlayerTurn(PieceColor);

impl View for PlayerTurn {
    type V = PieceColor;

    closed spec fn view(&self) -> PieceColor {
        self.0
    }
}

impl PlayerTurn {
    /// Hands the move to the other side.
    pub fn change_turn(&mut self)
        ensures
            final(self)@ == old(self)@.spec_opposite(),
    {
        self.0 = match self.0 {
            PieceColor::White => PieceColor::Black,
            PieceColor::Black => PieceColor::White,
        }
    }

    /// The name of the side that moves next, `White` or `Black`.
    pub fn get_current_turn(&self) -> (name: String)
        ensures
            name@ == match self@ {
                PieceColor::White => "White"@,
                PieceColor::Black => "Black"@,
            },
    {
        match self.0 {
            PieceColor::White => "White".to_string(),
            PieceColor::Black => "Black".to_string(),
        }
    }

    /// The side that moves next.
    pub fn color(&self) -> (color: PieceColor)
        ensures
            color == self@,
    {
        self.0
    }
}

impl Default for PlayerTurn {
    /// White moves first.
    fn default() -> (turn: PlayerTurn)
        ensures
            turn@ == PieceColor::White,
    {
        PlayerTurn(PieceColor::White)
    }
}

/// The square picked last, if the pick still stands.
#[derive(Clone, Copy, Debug)]
pub struct SelectedSquare {
    pub square: Option<Square>,
}

impl Default for SelectedSquare {
    /// No square.
    fn default() -> (selected: SelectedSquare)
        ensures
            selected.square is None,
    {
        SelectedSquare { square: None }
    }
}

/// The handle of the piece that awaits a destination, if there is one.
#[derive(Clone, Copy, Debug)]
pub struct SelectedPiece {
    pub handle: Option<usize>,
}

impl Default for SelectedPiece {
    /// No piece.
    fn default() -> (selected: SelectedPiece)
        ensures
            selected.handle is None,
    {
        SelectedPiece { handle: None }
    }
}

/// Slot `handle` holds a piece.
pub open spec fn holds(slots: Seq<Option<Piece>>, handle: int) -> bool {
    0 <= handle < slots.len() && slots[handle] is Some
}

/// Slot `handle` holds a piece that stands on `pos`.
pub open spec fn holds_at(slots: Seq<Option<Piece>>, handle: int, pos: (u8, u8)) -> bool {
    holds(slots, handle) && slots[handle]->0.stands_on(pos)
}

/// Every piece stands on a square of the board, and no two on the same one.
/// Every handle fits the machine's word.
pub open spec fn slots_wf(slots: Seq<Option<Piece>>) -> bool {
    &&& slots.len() <= usize::MAX
    &&& forall|h: int| holds(slots, h) ==> on_board((#[trigger] slots[h])->0.position())
    &&& forall|h: int, k: int|
        holds(slots, h) && holds(slots, k) && h != k ==> (#[trigger] slots[h])->0.position() != (
        #[trigger] slots[k])->0.position()
}

/// The pieces in play, in the order of their handles.
pub open spec fn live(slots: Seq<Option<Piece>>) -> Seq<Piece>
    decreases slots.len(),
{
    if slots.len() == 0 {
        Seq::empty()
    } else {
        match slots.last() {
            Some(piece) => live(slots.drop_last()).push(piece),
            None => live(slots.drop_last()),
        }
    }
}

/// `handle` is the lowest handle of a piece that stands on `pos`.
pub open spec fn first_at(slots: Seq<Option<Piece>>, handle: int, pos: (u8, u8)) -> bool {
    holds_at(slots, handle, pos) && forall|k: int| 0 <= k < handle ==> !holds_at(slots, k, pos)
}

/// The handle of the piece that stands on `pos`, if one does: the lowest
/// such handle, should several pieces stand there, which on a well-formed
/// board none do.
pub open spec fn occupant(slots: Seq<Option<Piece>>, pos: (u8, u8)) -> Option<usize> {
    if exists|h: int| first_at(slots, h, pos) {
        Some((choose|h: int| first_at(slots, h, pos)) as usize)
    } else {
        None
    }
}

/// The lowest handle of a piece on a square is the square's occupant.
pub proof fn lemma_first_at(slots: Seq<Option<Piece>>, pos: (u8, u8), handle: int)
    requires
        first_at(slots, handle, pos),
        slots.len() <= usize::MAX,
    ensures
        occupant(slots, pos) == Some(handle as usize),
{
    let k = choose|h: int| first_at(slots, h, pos);
    if k < handle {
        assert(!holds_at(slots, k, pos));
    }
    if handle < k {
        assert(!holds_at(slots, handle, pos));
    }
}

/// A square has an occupant exactly when a piece stands on it, and the
/// occupant stands on it.
pub proof fn lemma_occupant_stands(slots: Seq<Option<Piece>>, pos: (u8, u8))
    requires
        slots.len() <= usize::MAX,
    ensures
        match occupant(slots, pos) {
            Some(k) => first_at(slots, k as int, pos),
            None => forall|h: int| !holds_at(slots, h, pos),
        },
{
    if exists|h: int| first_at(slots, h, pos) {
        let k = choose|h: int| first_at(slots, h, pos);
        assert(first_at(slots, k, pos));
    } else {
        assert forall|h: int| !holds_at(slots, h, pos) by {
            if holds_at(slots, h, pos) {
                lemma_lowest_exists(slots, pos, h);
            }
        }
    }
}

/// Where a piece stands on a square, one of those that do has the lowest
/// handle.
proof fn lemma_lowest_exists(slots: Seq<Option<Piece>>, pos: (u8, u8), handle: int)
    requires
        holds_at(slots, handle, pos),
    ensures
        exists|h: int| first_at(slots, h, pos),
    decreases handle,
{
    if exists|k: int| 0 <= k < handle && holds_at(slots, k, pos) {
        let k = choose|k: int| 0 <= k < handle && holds_at(slots, k, pos);
        lemma_lowest_exists(slots, pos, k);
    } else {
        assert(first_at(slots, handle, pos));
    }
}

/// On a well-formed board the piece on a square is the only one there.
pub proof fn lemma_occupant(slots: Seq<Option<Piece>>, pos: (u8, u8), handle: int)
    requires
        slots_wf(slots),
        holds_at(slots, handle, pos),
    ensures
        occupant(slots, pos) == Some(handle as usize),
{
    assert forall|k: int| 0 <= k < handle implies !holds_at(slots, k, pos) by {
        if holds_at(slots, k, pos) {
            assert(slots[k]->0.position() != slots[handle]->0.position());
        }
    }
    lemma_first_at(slots, pos, handle);
}

/// Some slot holds `piece`.
pub open spec fn in_play(slots: Seq<Option<Piece>>, piece: Piece) -> bool {
    exists|h: int| holds(slots, h) && slots[h] == Some(piece)
}

/// The pieces in play are those that the slots hold: each of them sits in a
/// slot, and each slot's piece is among them.
pub proof fn lemma_live_members(slots: Seq<Option<Piece>>)
    ensures
        forall|i: int| 0 <= i < live(slots).len() ==> in_play(slots, #[trigger] live(slots)[i]),
        forall|h: int| holds(slots, h) ==> live(slots).contains((#[trigger] slots[h])->0),
    decreases slots.len(),
{
    if slots.len() > 0 {
        let rest = slots.drop_last();
        let last = slots.len() - 1;
        lemma_live_members(rest);
        assert forall|i: int| 0 <= i < live(slots).len() implies in_play(
            slots,
            #[trigger] live(slots)[i],
        ) by {
            if i < live(rest).len() {
                assert(live(slots)[i] == live(rest)[i]);
                assert(in_play(rest, live(rest)[i]));
                let h = choose|h: int| holds(rest, h) && rest[h] == Some(live(rest)[i]);
                assert(holds(slots, h) && slots[h] == Some(live(slots)[i]));
            } else {
                assert(holds(slots, last) && slots[last] == Some(live(slots)[i]));
            }
        }
        assert forall|h: int| holds(slots, h) implies live(slots).contains(
            (#[trigger] slots[h])->0,
        ) by {
            if h < last {
                assert(holds(rest, h));
                assert(live(rest).contains(rest[h]->0));
                let i = choose|i: int| 0 <= i < live(rest).len() && live(rest)[i] == rest[h]->0;
                assert(live(slots)[i] == slots[h]->0);
            } else {
                let i = live(rest).len() as int;
                assert(live(slots)[i] == slots[h]->0);
            }
        }
    }
}

/// Emptying a slot that held a piece leaves one piece fewer in play.
pub proof fn lemma_live_without(slots: Seq<Option<Piece>>, handle: int)
    requires
        holds(slots, handle),
    ensures
        live(slots.update(handle, None)).len() == live(slots).len() - 1,
    decreases slots.len(),
{
    let last = slots.len() - 1;
    let emptied = slots.update(handle, None);
    if handle == last {
        assert(emptied.drop_last() =~= slots.drop_last());
    } else {
        lemma_live_without(slots.drop_last(), handle);
        assert(emptied.drop_last() =~= slots.drop_last().update(handle, None));
    }
}

/// Replacing the piece in a slot keeps the number of pieces in play.
pub proof fn lemma_live_replaced(slots: Seq<Option<Piece>>, handle: int, piece: Piece)
    requires
        holds(slots, handle),
    ensures
        live(slots.update(handle, Some(piece))).len() == live(slots).len(),
    decreases slots.len(),
{
    let last = slots.len() - 1;
    let replaced = slots.update(handle, Some(piece));
    if handle == last {
        assert(replaced.drop_last() =~= slots.drop_last());
    } else {
        lemma_live_replaced(slots.drop_last(), handle, piece);
        assert(replaced.drop_last() =~= slots.drop_last().update(handle, Some(piece)));
    }
}

/// The pieces in play, each in the slot of its handle. A slot is emptied
/// when its piece is captured and is never filled again.
pub struct Board {
    slots: Vec<Option<Piece>>,
}

impl View for Board {
    type V = Seq<Option<Piece>>;

    closed spec fn view(&self) -> Seq<Option<Piece>> {
        self.slots@
    }
}

impl Board {
    /// Every piece stands on a square of the board, and no two on the same
    /// one.
    pub open spec fn wf(&self) -> bool {
        slots_wf(self@)
    }

    /// A board without pieces.
    pub fn new() -> (board: Board)
        ensures
            board.wf(),
            board@.len() == 0,
    {
        Board { slots: Vec::new() }
    }

    /// The piece under `handle`, unless it was captured or the handle was
    /// never given out.
    pub fn get(&self, handle: usize) -> (piece: Option<Piece>)
        ensures
            piece == if holds(self@, handle as int) {
                self@[handle as int]
            } else {
                None
            },
    {
        if handle < self.slots.len() {
            self.slots[handle]
        } else {
            None
        }
    }

    /// The handle of the piece that stands on `pos`, if one does.
    pub fn handle_at(&self, pos: (u8, u8)) -> (handle: Option<usize>)
        ensures
            handle == occupant(self@, pos),
            match handle {
                Some(h) => first_at(self@, h as int, pos),
                None => forall|h: int| !holds_at(self@, h, pos),
            },
    {
        let mut i: usize = 0;
        while i < self.slots.len()
            invariant
                i <= self.slots.len(),
                forall|h: int| 0 <= h < i ==> !holds_at(self@, h, pos),
            decreases self.slots.len() - i,
        {
            if let Some(piece) = self.slots[i] {
                if piece.x == pos.0 && piece.y == pos.1 {
                    proof {
                        lemma_first_at(self@, pos, i as int);
                    }
                    return Some(i);
                }
            }
            i += 1;
        }
        proof {
            assert(self@.len() == self.slots.len());
            lemma_occupant_stands(self@, pos);
        }
        None
    }

    /// All pieces in play, in the order of their handles.
    pub fn pieces(&self) -> (pieces: Vec<Piece>)
        ensures
            pieces@ == live(self@),
    {
        let mut pieces: Vec<Piece> = Vec::new();
        let mut i: usize = 0;
        while i < self.slots.len()
            invariant
                i <= self.slots.len(),
                pieces@ == live(self@.take(i as int)),
            decreases self.slots.len() - i,
        {
            proof {
                assert(self@.take(i + 1).drop_last() =~= self@.take(i as int));
            }
            if let Some(piece) = self.slots[i] {
                pieces.push(piece);
            }
            i += 1;
        }
        proof {
            assert(self@.take(i as int) =~= self@);
        }
        pieces
    }

    /// How many pieces are in play.
    pub fn count(&self) -> (count: usize)
        ensures
            count == live(self@).len(),
    {
        self.pieces().len()
    }

    /// Puts `piece` on the board, under the handle returned. Nothing is
    /// placed, and `None` returned, where its square lies off the board or
    /// is taken.
    pub fn add_piece(&mut self, piece: Piece) -> (handle: Option<usize>)
        ensures
            old(self).wf() ==> final(self).wf(),
            on_board(piece.position()) && occupant(old(self)@, piece.position()) is None ==> handle
                == Some(old(self)@.len() as usize) && final(self)@ == old(self)@.push(Some(piece)),
            !(on_board(piece.position()) && occupant(old(self)@, piece.position()) is None)
                ==> handle is None && final(self)@ == old(self)@,
    {
        if piece.x >= BOARD_SIZE || piece.y >= BOARD_SIZE {
            return None;
        }
        if self.handle_at((piece.x, piece.y)).is_some() {
            return None;
        }
        let handle = self.slots.len();
        self.slots.push(Some(piece));
        proof {
            let before = old(self)@;
            let after = self@;
            assert(after.len() == self.slots.len());
            assert(after == before.push(Some(piece)));
            if old(self).wf() {
                assert forall|h: int| holds(after, h) implies on_board(
                    (#[trigger] after[h])->0.position(),
                ) by {
                    if h < handle {
                        assert(holds(before, h));
                    }
                }
                assert forall|h: int, k: int|
                    holds(after, h) && holds(after, k) && h != k implies (#[trigger] after[h])->0
                    .position() != (#[trigger] after[k])->0.position() by {
                    if h < handle {
                        assert(holds(before, h));
                        assert(!holds_at(before, h, piece.position()));
                    }
                    if k < handle {
                        assert(holds(before, k));
                        assert(!holds_at(before, k, piece.position()));
                    }
                }
            }
        }
        Some(handle)
    }

    /// Moves the piece under `handle` to `to` and takes what stood there off
    /// the board. Returns the piece taken, with its handle.
    pub(crate) fn apply_move(&mut self, handle: usize, to: (u8, u8)) -> (captured: Option<
        (usize, Piece),
    >)
        requires
            holds(old(self)@, handle as int),
            valid_move(old(self)@[handle as int]->0, to, live(old(self)@)),
        ensures
            final(self)@ == slots_after_move(old(self)@, handle as int, to),
            captured == captured_by_move(old(self)@, to),
            old(self).wf() ==> final(self).wf(),
    {
        proof {
            if self.wf() {
                lemma_move_keeps_wf(self@, handle as int, to);
            }
        }
        let victim = self.handle_at(to);
        let captured = match victim {
            Some(k) => {
                let taken = self.slots[k];
                self.slots[k] = None;
                match taken {
                    Some(piece) => Some((k, piece)),
                    None => None,
                }
            },
            None => None,
        };
        if let Some(piece) = self.slots[handle] {
            self.slots[handle] = Some(
                Piece { color: piece.color, piece_type: piece.piece_type, x: to.0, y: to.1 },
            );
        }
        captured
    }
}

/// The same piece on another square.
pub open spec fn moved_to(piece: Piece, pos: (u8, u8)) -> Piece {
    Piece { color: piece.color, piece_type: piece.piece_type, x: pos.0, y: pos.1 }
}

/// The piece that a move to `to` takes off the board, with its handle.
pub open spec fn captured_by_move(slots: Seq<Option<Piece>>, to: (u8, u8)) -> Option<
    (usize, Piece),
> {
    match occupant(slots, to) {
        Some(k) => Some((k, slots[k as int]->0)),
        None => None,
    }
}

/// The slots once the piece under `handle` has moved to `to`: what stood on
/// `to` is gone, the mover stands there, every other slot is as it was.
pub open spec fn slots_after_move(slots: Seq<Option<Piece>>, handle: int, to: (u8, u8)) -> Seq<
    Option<Piece>,
> {
    let cleared = match occupant(slots, to) {
        Some(k) => slots.update(k as int, None),
        None => slots,
    };
    cleared.update(handle, Some(moved_to(slots[handle]->0, to)))
}

/// On a well-formed board the side found on a square is that of the one
/// piece that stands there.
pub proof fn lemma_color_at_live(slots: Seq<Option<Piece>>, pos: (u8, u8))
    requires
        slots_wf(slots),
    ensures
        color_at(live(slots), pos) == match occupant(slots, pos) {
            Some(k) => Some(slots[k as int]->0.color),
            None => None,
        },
{
    let pieces = live(slots);
    lemma_live_members(slots);
    lemma_color_at_none(pieces, pos);
    if color_at(pieces, pos) is Some {
        lemma_color_at_some(pieces, pos);
        let i = choose|i: int|
            0 <= i < pieces.len() && (#[trigger] pieces[i]).stands_on(pos) && color_at(pieces, pos)
                == Some(pieces[i].color);
        assert(in_play(slots, pieces[i]));
        let h = choose|h: int| holds(slots, h) && slots[h] == Some(pieces[i]);
        assert(holds_at(slots, h, pos));
        lemma_occupant(slots, pos, h);
    } else {
        lemma_occupant_stands(slots, pos);
        if occupant(slots, pos) is Some {
            let h = occupant(slots, pos)->0 as int;
            assert(holds_at(slots, h, pos));
            assert(pieces.contains(slots[h]->0));
            let i = choose|i: int| 0 <= i < pieces.len() && pieces[i] == slots[h]->0;
            assert(pieces[i].stands_on(pos));
        }
    }
}

/// A move that the rules allow leaves the board well formed. What it
/// captures, if anything, is a piece of the other side.
pub proof fn lemma_move_keeps_wf(slots: Seq<Option<Piece>>, handle: int, to: (u8, u8))
    requires
        slots_wf(slots),
        holds(slots, handle),
        valid_move(slots[handle]->0, to, live(slots)),
    ensures
        slots_wf(slots_after_move(slots, handle, to)),
        !holds_at(slots, handle, to),
        match occupant(slots, to) {
            Some(k) => holds_at(slots, k as int, to) && k != handle && slots[k as int]->0.color
                != slots[handle]->0.color,
            None => forall|h: int| !holds_at(slots, h, to),
        },
{
    let after = slots_after_move(slots, handle, to);
    lemma_color_at_live(slots, to);
    lemma_occupant_stands(slots, to);
    assert forall|h: int| holds(after, h) implies on_board(
        (#[trigger] after[h])->0.position(),
    ) by {
        if h != handle {
            assert(holds(slots, h));
        }
    }
    assert forall|h: int, k: int| holds(after, h) && holds(after, k) && h != k implies (
    #[trigger] after[h])->0.position() != (#[trigger] after[k])->0.position() by {
        if h != handle {
            assert(holds(slots, h));
            if holds_at(slots, h, to) {
                lemma_occupant(slots, to, h);
            }
        }
        if k != handle {
            assert(holds(slots, k));
            if holds_at(slots, k, to) {
                lemma_occupant(slots, to, k);
            }
        }
    }
}

/// The kinds on a side's home file at the start of a game, by rank.
pub open spec fn back_rank() -> Seq<PieceType> {
    seq![
        PieceType::Rook,
        PieceType::Knight,
        PieceType::Bishop,
        PieceType::Queen,
        PieceType::King,
        PieceType::Bishop,
        PieceType::Knight,
        PieceType::Rook,
    ]
}

/// The piece that has handle `handle` at the start of a game. Handles 0 to 7
/// are White's home file by rank, 8 to 15 White's pawns, 16 to 23 Black's
/// home file and 24 to 31 Black's pawns. White's home file is file 0,
/// Black's the last one; each side's pawns stand one file in front.
pub open spec fn initial_piece(handle: int) -> Piece {
    let row = handle / 8;
    let rank = handle % 8;
    Piece {
        color: if row < 2 {
            PieceColor::White
        } else {
            PieceColor::Black
        },
        piece_type: if row == 1 || row == 3 {
            PieceType::Pawn
        } else {
            back_rank()[rank]
        },
        x: if row == 0 {
            0
        } else if row == 1 {
            WHITE_PAWN_FILE
        } else if row == 2 {
            (BOARD_SIZE - 1) as u8
        } else {
            BLACK_PAWN_FILE
        },
        y: rank as u8,
    }
}

/// The slots at the start of a game: thirty-two pieces.
pub open spec fn initial_slots() -> Seq<Option<Piece>> {
    Seq::new(32, |handle: int| Some(initial_piece(handle)))
}

/// The kind that starts at `rank` of a side's home file.
fn home_kind(rank: u8) -> (kind: PieceType)
    requires
        rank < BOARD_SIZE,
    ensures
        kind == back_rank()[rank as int],
{
    match rank {
        0 | 7 => PieceType::Rook,
        1 | 6 => PieceType::Knight,
        2 | 5 => PieceType::Bishop,
        3 => PieceType::Queen,
        _ => PieceType::King,
    }
}

/// Fills the next eight slots with the pieces of `color` that start on
/// `file`: pawns, or the home file's pieces.
fn set_up_file(slots: &mut Vec<Option<Piece>>, color: PieceColor, file: u8, pawns: bool)
    ensures
        final(slots)@.len() == old(slots)@.len() + 8,
        forall|h: int| 0 <= h < old(slots)@.len() ==> final(slots)@[h] == old(slots)@[h],
        forall|rank: int|
            0 <= rank < 8 ==> #[trigger] final(slots)@[old(slots)@.len() + rank] == Some(
                Piece {
                    color,
                    piece_type: if pawns {
                        PieceType::Pawn
                    } else {
                        back_rank()[rank]
                    },
                    x: file,
                    y: rank as u8,
                },
            ),
{
    let mut rank: u8 = 0;
    while rank < BOARD_SIZE
        invariant
            rank <= BOARD_SIZE,
            slots@.len() == old(slots)@.len() + rank,
            forall|h: int| 0 <= h < old(slots)@.len() ==> slots@[h] == old(slots)@[h],
            forall|r: int|
                0 <= r < rank ==> #[trigger] slots@[old(slots)@.len() + r] == Some(
                    Piece {
                        color,
                        piece_type: if pawns {
                            PieceType::Pawn
                        } else {
                            back_rank()[r]
                        },
                        x: file,
                        y: r as u8,
                    },
                ),
        decreases BOARD_SIZE - rank,
    {
        let piece_type = if pawns {
            PieceType::Pawn
        } else {
            home_kind(rank)
        };
        slots.push(Some(Piece { color, piece_type, x: file, y: rank }));
        rank += 1;
    }
}

/// The board at the start of a game.
pub fn initial_board() -> (board: Board)
    ensures
        board.wf(),
        board@ == initial_slots(),
{
    let mut slots: Vec<Option<Piece>> = Vec::new();
    set_up_file(&mut slots, PieceColor::White, 0, false);
    set_up_file(&mut slots, PieceColor::White, WHITE_PAWN_FILE, true);
    set_up_file(&mut slots, PieceColor::Black, BOARD_SIZE - 1, false);
    set_up_file(&mut slots, PieceColor::Black, BLACK_PAWN_FILE, true);
    proof {
        assert forall|h: int| 0 <= h < 32 implies slots@[h] == Some(initial_piece(h)) by {
            let rank = h % 8;
            if h < 8 {
                assert(slots@[0 + rank] == Some(initial_piece(h)));
            } else if h < 16 {
                assert(slots@[8 + rank] == Some(initial_piece(h)));
            } else if h < 24 {
                assert(slots@[16 + rank] == Some(initial_piece(h)));
            } else {
                assert(slots@[24 + rank] == Some(initial_piece(h)));
            }
        }
        assert(slots@ =~= initial_slots());
        lemma_initial_slots_wf();
    }
    Board { slots }
}

/// At the start of a game every piece stands on a square of its own.
pub proof fn lemma_initial_slots_wf()
    ensures
        slots_wf(initial_slots()),
{
    let slots = initial_slots();
    assert forall|h: int, k: int| holds(slots, h) && holds(slots, k) && h != k implies (
    #[trigger] slots[h])->0.position() != (#[trigger] slots[k])->0.position() by {
        assert(h / 8 != k / 8 || h % 8 != k % 8);
    }
}

} // verus!
