//! One game in progress: picks of squares arm a piece of the side to move
//! and then send it to a destination; moves that the rules allow are
//! applied, captures taken off the board, and the game is decided when a
//! king is captured.

use vstd::prelude::*;
use crate::board::{
    Board, PlayerTurn, SelectedPiece, SelectedSquare, Square, captured_by_move, holds, holds_at,
    initial_board, initial_slots, lemma_live_replaced, lemma_live_without, lemma_move_keeps_wf,
    lemma_occupant, lemma_occupant_stands, live, moved_to, occupant, slots_after_move, slots_wf,
};
use crate::pieces::{Piece, PieceColor, PieceType, BOARD_SIZE, on_board, valid_move};

verus! {

/// Whether the game is still open, and who won it if not.
#[derive(Clone, Copy, PartialEq, Eq, Structural, Debug)]
pub enum GameResult {
    /// Both kings are in play.
    Undecided,
    /// The side named captured the other side's king.
    Decided(PieceColor),
}

/// What a completed move did.
#[derive(Clone, Copy, PartialEq, Eq, Debug)]
pub struct MoveReport {
    /// Handle of the piece that moved.
    pub handle: usize,
    /// Where it stood.
    pub from: Square,
    /// Where it stands now.
    pub to: Square,
    /// The piece it captured, as it stood before the move, with its handle.
    pub captured: Option<(usize, Piece)>,
    /// The side that moves next.
    pub next_turn: PieceColor,
    /// The side that won, where the move captured a king.
    pub winner: Option<PieceColor>,
}

/// What the pick of a square led to.
#[derive(Clone, Copy, PartialEq, Eq, Debug)]
pub enum PickOutcome {
    /// The game is decided, or the square lies off the board: the selection
    /// is empty now and nothing else has changed.
    Ignored,
    /// The square is recorded; no piece of the side to move stands on it.
    SquareMarked,
    /// The piece with this handle awaits its destination.
    PieceArmed(usize),
    /// The armed piece may not move to the square: the selection is empty
    /// now and nothing else has changed.
    Rejected,
    /// The armed piece has moved to the square.
    Moved(MoveReport),
}

/// A game as the contracts see it.
pub struct GameState {
    /// The pieces in play, by handle.
    pub slots: Seq<Option<Piece>>,
    /// The side to move.
    pub turn: PieceColor,
    /// The square picked last, if the pick still stands.
    pub selected_square: Option<Square>,
    /// The armed piece.
    pub selected_piece: Option<usize>,
    /// Whether a king has been captured, and by whom.
    pub result: GameResult,
}

/// The board is well formed, and a piece is armed only while the game is
/// open, it is in play and its side is to move.
pub open spec fn state_wf(s: GameState) -> bool {
    &&& slots_wf(s.slots)
    &&& match s.selected_piece {
        Some(h) => holds(s.slots, h as int) && s.slots[h as int]->0.color == s.turn && s.result
            is Undecided,
        None => true,
    }
}

/// The state with nothing selected.
pub open spec fn deselected(s: GameState) -> GameState {
    GameState {
        slots: s.slots,
        turn: s.turn,
        selected_square: None,
        selected_piece: None,
        result: s.result,
    }
}

/// The handle of the piece of the side to move that stands on `pos`.
pub open spec fn friendly_at(s: GameState, pos: (u8, u8)) -> Option<usize> {
    match occupant(s.slots, pos) {
        Some(h) => if s.slots[h as int]->0.color == s.turn {
            Some(h)
        } else {
            None
        },
        None => None,
    }
}

/// The state after the square was picked with no piece armed: the square
/// is recorded, and a piece of the side to move that stands on it is armed.
pub open spec fn after_select(s: GameState, square: Square) -> GameState {
    GameState {
        slots: s.slots,
        turn: s.turn,
        selected_square: Some(square),
        selected_piece: friendly_at(s, square.position()),
        result: s.result,
    }
}

/// The side that wins by the move to `to`, where it captures a king.
pub open spec fn winner_by_move(s: GameState, handle: usize, to: (u8, u8)) -> Option<PieceColor> {
    match captured_by_move(s.slots, to) {
        Some((_, taken)) => if taken.piece_type == PieceType::King {
            Some(s.slots[handle as int]->0.color)
        } else {
            None
        },
        None => None,
    }
}

/// The state after the piece under `handle` has moved to `to`: the board
/// holds the move and its capture, the turn has passed to the other side,
/// nothing is selected, and the game is decided for the mover's side where
/// a king was captured.
pub open spec fn after_move(s: GameState, handle: usize, to: (u8, u8)) -> GameState {
    GameState {
        slots: slots_after_move(s.slots, handle as int, to),
        turn: s.turn.spec_opposite(),
        selected_square: None,
        selected_piece: None,
        result: match winner_by_move(s, handle, to) {
            Some(side) => GameResult::Decided(side),
            None => s.result,
        },
    }
}

/// The rules allow the piece under `handle` to move to `to`.
pub open spec fn move_allowed(s: GameState, handle: usize, to: (u8, u8)) -> bool {
    holds(s.slots, handle as int) && valid_move(s.slots[handle as int]->0, to, live(s.slots))
}

/// The state after `square` was picked.
///
/// In a decided game, or with a square off the board, the selection is
/// emptied. With no piece armed the square is recorded and a piece of the
/// side to move on it is armed. With a piece armed the square is its
/// destination: the move is made if the rules allow it, and the selection is
/// emptied if not.
pub open spec fn after_pick(s: GameState, square: Square) -> GameState {
    if s.result is Decided || !on_board(square.position()) {
        deselected(s)
    } else {
        match s.selected_piece {
            None => after_select(s, square),
            Some(h) => if move_allowed(s, h, square.position()) {
                after_move(s, h, square.position())
            } else {
                deselected(s)
            },
        }
    }
}

/// What the move of the piece under `handle` to `to` reports.
pub open spec fn report_of_move(s: GameState, handle: usize, to: Square) -> MoveReport {
    let piece = s.slots[handle as int]->0;
    MoveReport {
        handle,
        from: Square { x: piece.x, y: piece.y },
        to,
        captured: captured_by_move(s.slots, to.position()),
        next_turn: s.turn.spec_opposite(),
        winner: winner_by_move(s, handle, to.position()),
    }
}

/// What the pick of `square` reports.
pub open spec fn pick_outcome(s: GameState, square: Square) -> PickOutcome {
    if s.result is Decided || !on_board(square.position()) {
        PickOutcome::Ignored
    } else {
        match s.selected_piece {
            None => match friendly_at(s, square.position()) {
                Some(h) => PickOutcome::PieceArmed(h),
                None => PickOutcome::SquareMarked,
            },
            Some(h) => if move_allowed(s, h, square.position()) {
                PickOutcome::Moved(report_of_move(s, h, square))
            } else {
                PickOutcome::Rejected
            },
        }
    }
}

/// How many pieces the pick took off the board: one if it led to a move
/// that captured, none otherwise.
pub open spec fn pieces_taken(outcome: PickOutcome) -> nat {
    match outcome {
        PickOutcome::Moved(report) => if report.captured is Some {
            1
        } else {
            0
        },
        _ => 0,
    }
}

/// The side for which the pick decided the game, if it did.
pub open spec fn winner_of(outcome: PickOutcome) -> Option<PieceColor> {
    match outcome {
        PickOutcome::Moved(report) => report.winner,
        _ => None,
    }
}

/// A game: the board, the side to move, the selection and the result.
pub struct Game {
    board: Board,
    turn: PlayerTurn,
    selected_square: SelectedSquare,
    selected_piece: SelectedPiece,
    result: GameResult,
}

impl View for Game {
    type V = GameState;

    closed spec fn view(&self) -> GameState {
        GameState {
            slots: self.board@,
            turn: self.turn@,
            selected_square: self.selected_square.square,
            selected_piece: self.selected_piece.handle,
            result: self.result,
        }
    }
}

impl Game {
    /// The state is well formed.
    pub open spec fn wf(&self) -> bool {
        state_wf(self@)
    }

    /// A game at its start: the initial board, White to move, nothing
    /// selected.
    pub fn new() -> (game: Game)
        ensures
            game.wf(),
            game@ == (GameState {
                slots: initial_slots(),
                turn: PieceColor::White,
                selected_square: None,
                selected_piece: None,
                result: GameResult::Undecided,
            }),
    {
        Game {
            board: initial_board(),
            turn: PlayerTurn::default(),
            selected_square: SelectedSquare::default(),
            selected_piece: SelectedPiece::default(),
            result: GameResult::Undecided,
        }
    }

    /// An open game on the given board, with `turn` to move and nothing
    /// selected.
    pub fn with_board(board: Board, turn: PieceColor) -> (game: Game)
        ensures
            board.wf() ==> game.wf(),
            game@ == (GameState {
                slots: board@,
                turn,
                selected_square: None,
                selected_piece: None,
                result: GameResult::Undecided,
            }),
    {
        let mut player = PlayerTurn::default();
        if turn == PieceColor::Black {
            player.change_turn();
        }
        Game {
            board,
            turn: player,
            selected_square: SelectedSquare::default(),
            selected_piece: SelectedPiece::default(),
            result: GameResult::Undecided,
        }
    }

    /// The board.
    pub fn board(&self) -> (board: &Board)
        ensures
            board@ == self@.slots,
            self.wf() ==> board.wf(),
    {
        &self.board
    }

    /// The side to move.
    pub fn turn(&self) -> (turn: PieceColor)
        ensures
            turn == self@.turn,
    {
        self.turn.color()
    }

    /// The side to move, as the turn keeps it.
    pub fn player_turn(&self) -> (turn: &PlayerTurn)
        ensures
            turn@ == self@.turn,
    {
        &self.turn
    }

    /// Whether the game is decided, and for whom.
    pub fn result(&self) -> (result: GameResult)
        ensures
            result == self@.result,
    {
        self.result
    }

    /// The square picked last, if the pick still stands.
    pub fn selected_square(&self) -> (square: Option<Square>)
        ensures
            square == self@.selected_square,
    {
        self.selected_square.square
    }

    /// The handle of the armed piece.
    pub fn selected_piece(&self) -> (handle: Option<usize>)
        ensures
            handle == self@.selected_piece,
    {
        self.selected_piece.handle
    }

    /// Empties the selection, whatever it held.
    pub fn on_deselect(&mut self)
        ensures
            final(self)@ == deselected(old(self)@),
            old(self).wf() ==> final(self).wf(),
    {
        self.selected_square.square = None;
        self.selected_piece.handle = None;
    }

    /// Records the square and arms the piece of the side to move that
    /// stands on it, if one does.
    fn select_piece(&mut self, square: Square) -> (outcome: PickOutcome)
        requires
            old(self)@.result is Undecided,
            old(self)@.selected_piece is None,
            on_board(square.position()),
        ensures
            old(self).wf() ==> final(self).wf(),
            final(self)@ == after_select(old(self)@, square),
            outcome == pick_outcome(old(self)@, square),
    {
        self.selected_square.square = Some(square);
        let found = self.board.handle_at((square.x, square.y));
        if let Some(handle) = found {
            if let Some(piece) = self.board.get(handle) {
                if piece.color == self.turn.color() {
                    self.selected_piece.handle = Some(handle);
                    return PickOutcome::PieceArmed(handle);
                }
            }
        }
        PickOutcome::SquareMarked
    }

    /// Sends the armed piece to the square if the rules allow it, and
    /// empties the selection either way.
    fn move_piece(&mut self, handle: usize, square: Square) -> (outcome: PickOutcome)
        requires
            old(self)@.result is Undecided,
            old(self)@.selected_piece == Some(handle),
            on_board(square.position()),
        ensures
            old(self).wf() ==> final(self).wf(),
            final(self)@ == after_pick(old(self)@, square),
            outcome == pick_outcome(old(self)@, square),
    {
        let to = (square.x, square.y);
        let piece = match self.board.get(handle) {
            Some(piece) => piece,
            None => {
                self.on_deselect();
                return PickOutcome::Rejected;
            },
        };
        if !piece.is_move_valid(to, self.board.pieces()) {
            self.on_deselect();
            return PickOutcome::Rejected;
        }
        let captured = self.board.apply_move(handle, to);
        let mut winner: Option<PieceColor> = None;
        if let Some((_, taken)) = captured {
            if taken.piece_type == PieceType::King {
                winner = Some(piece.color);
                self.result = GameResult::Decided(piece.color);
            }
        }
        self.turn.change_turn();
        self.on_deselect();
        PickOutcome::Moved(
            MoveReport {
                handle,
                from: Square { x: piece.x, y: piece.y },
                to: square,
                captured,
                next_turn: self.turn.color(),
                winner,
            },
        )
    }

    /// Takes the pick of a square.
    ///
    /// With no piece armed, the square is recorded and a piece of the side to
    /// move that stands on it is armed. With a piece armed, the square is its
    /// destination: if the rules allow the move it is made, what stood on the
    /// square is captured, the turn passes to the other side, and the game is
    /// decided for the mover where the captured piece is a king; if not,
    /// nothing changes but the selection. The selection is empty after either
    /// attempt. Once the game is decided, and for a square off the board, a
    /// pick only empties the selection.
    pub fn on_square_picked(&mut self, square: Square) -> (outcome: PickOutcome)
        ensures
            old(self).wf() ==> final(self).wf(),
            final(self)@ == after_pick(old(self)@, square),
            outcome == pick_outcome(old(self)@, square),
            old(self)@.selected_piece is None || old(self)@.result is Decided ==> final(self)@.slots
                == old(self)@.slots && final(self)@.turn == old(self)@.turn && final(self)@.result
                == old(self)@.result,
            old(self)@.result is Decided ==> final(self)@.selected_piece is None,
            final(self)@.turn == if outcome is Moved {
                old(self)@.turn.spec_opposite()
            } else {
                old(self)@.turn
            },
            old(self).wf() ==> live(final(self)@.slots).len() == live(old(self)@.slots).len()
                - pieces_taken(outcome),
            old(self).wf() ==> final(self)@.result == match winner_of(outcome) {
                Some(side) => GameResult::Decided(side),
                None => old(self)@.result,
            },
            old(self).wf() && winner_of(outcome) is Some ==> winner_of(outcome) == Some(
                old(self)@.turn,
            ),
    {
        proof {
            if self.wf() {
                pick_takes_what_it_reports(self@, square);
            }
        }
        let decided = match self.result {
            GameResult::Decided(_) => true,
            GameResult::Undecided => false,
        };
        if decided || square.x >= BOARD_SIZE || square.y >= BOARD_SIZE {
            self.on_deselect();
            return PickOutcome::Ignored;
        }
        match self.selected_piece.handle {
            None => self.select_piece(square),
            Some(handle) => self.move_piece(handle, square),
        }
    }
}

/// A pick made while no piece is armed moves nothing: the board, the side
/// to move and the result stay as they were, whatever stands on the square.
pub proof fn pick_without_armed_piece_keeps_position(s: GameState, square: Square)
    requires
        s.selected_piece is None,
    ensures
        after_pick(s, square).slots == s.slots,
        after_pick(s, square).turn == s.turn,
        after_pick(s, square).result == s.result,
        !(pick_outcome(s, square) is Moved),
{
}

/// The turn passes to the other side with every move that is made, and
/// with nothing else.
pub proof fn turn_passes_exactly_on_moves(s: GameState, square: Square)
    ensures
        after_pick(s, square).turn == if pick_outcome(s, square) is Moved {
            s.turn.spec_opposite()
        } else {
            s.turn
        },
        !(pick_outcome(s, square) is Moved) ==> after_pick(s, square).slots == s.slots
            && after_pick(s, square).result == s.result,
{
}

/// Every pick leaves a well-formed state well formed; after a pick that was
/// taken as a destination nothing is selected.
pub proof fn pick_keeps_state_wf(s: GameState, square: Square)
    requires
        state_wf(s),
    ensures
        state_wf(after_pick(s, square)),
        s.selected_piece is Some ==> after_pick(s, square).selected_piece is None && after_pick(
            s,
            square,
        ).selected_square is None,
{
    if !(s.result is Decided) && on_board(square.position()) {
        match s.selected_piece {
            None => {
                lemma_occupant_stands(s.slots, square.position());
            },
            Some(h) => {
                if move_allowed(s, h, square.position()) {
                    lemma_move_keeps_wf(s.slots, h as int, square.position());
                }
            },
        }
    }
}

/// A pick takes off the board what its outcome reports and nothing else:
/// one piece where the move captured, none otherwise. It decides the game
/// exactly where the outcome names a winner, who is then the side that
/// moved.
pub proof fn pick_takes_what_it_reports(s: GameState, square: Square)
    requires
        state_wf(s),
    ensures
        live(after_pick(s, square).slots).len() == live(s.slots).len() - pieces_taken(
            pick_outcome(s, square),
        ),
        after_pick(s, square).result == match winner_of(pick_outcome(s, square)) {
            Some(side) => GameResult::Decided(side),
            None => s.result,
        },
        winner_of(pick_outcome(s, square)) is Some ==> winner_of(pick_outcome(s, square)) == Some(
            s.turn,
        ),
{
    let to = square.position();
    if !(s.result is Decided) && on_board(to) {
        if let Some(h) = s.selected_piece {
            if move_allowed(s, h, to) {
                lemma_occupant_stands(s.slots, to);
                match occupant(s.slots, to) {
                    Some(k) => capture_removes_one_piece(s, h, to, k),
                    None => move_to_empty_square_keeps_pieces(s, h, to),
                }
            }
        }
    }
}

/// A move to an empty square followed by the same piece's move back to
/// where it stood, both allowed by the rules, leaves every piece where it
/// was. The move back is a move like any other: the turn passes with it as
/// it did with the first.
pub proof fn move_and_back_restores_board(s: GameState, handle: usize, to: (u8, u8))
    requires
        slots_wf(s.slots),
        move_allowed(s, handle, to),
        occupant(s.slots, to) is None,
        move_allowed(after_move(s, handle, to), handle, s.slots[handle as int]->0.position()),
    ensures
        ({
            let from = s.slots[handle as int]->0.position();
            let there = after_move(s, handle, to);
            let back = after_move(there, handle, from);
            &&& back.slots == s.slots
            &&& there.turn == s.turn.spec_opposite()
            &&& back.turn == there.turn.spec_opposite()
            &&& back.result == s.result
        }),
{
    let piece = s.slots[handle as int]->0;
    let from = piece.position();
    let there = after_move(s, handle, to);
    let back = after_move(there, handle, from);
    lemma_move_keeps_wf(s.slots, handle as int, to);
    assert(there.slots == s.slots.update(handle as int, Some(moved_to(piece, to))));
    assert forall|h: int| !holds_at(there.slots, h, from) by {
        if h != handle && holds(there.slots, h) {
            assert(holds(s.slots, h));
            assert(s.slots[h]->0.position() != s.slots[handle as int]->0.position());
        }
    }
    assert(occupant(there.slots, from) is None);
    assert(back.slots =~= s.slots);
}

/// A move onto a square where a piece stands takes exactly that piece off
/// the board. It is a piece of the other side; the mover stands on the
/// square afterwards, every other piece is where it was, and the pieces in
/// play are one fewer.
pub proof fn capture_removes_one_piece(s: GameState, handle: usize, to: (u8, u8), victim: usize)
    requires
        slots_wf(s.slots),
        move_allowed(s, handle, to),
        holds_at(s.slots, victim as int, to),
    ensures
        ({
            let mover = s.slots[handle as int]->0;
            let after = after_move(s, handle, to).slots;
            &&& s.slots[victim as int]->0.color == mover.color.spec_opposite()
            &&& after.len() == s.slots.len()
            &&& after[victim as int] is None
            &&& after[handle as int] == Some(moved_to(mover, to))
            &&& forall|h: int|
                0 <= h < s.slots.len() && h != victim && h != handle ==> after[h] == s.slots[h]
            &&& live(after).len() == live(s.slots).len() - 1
        }),
{
    let mover = s.slots[handle as int]->0;
    lemma_move_keeps_wf(s.slots, handle as int, to);
    lemma_occupant(s.slots, to, victim as int);
    let emptied = s.slots.update(victim as int, None);
    lemma_live_without(s.slots, victim as int);
    lemma_live_replaced(emptied, handle as int, moved_to(mover, to));
}

/// A move onto an empty square takes no piece off the board.
pub proof fn move_to_empty_square_keeps_pieces(s: GameState, handle: usize, to: (u8, u8))
    requires
        slots_wf(s.slots),
        move_allowed(s, handle, to),
        occupant(s.slots, to) is None,
    ensures
        ({
            let mover = s.slots[handle as int]->0;
            let after = after_move(s, handle, to);
            &&& after.slots == s.slots.update(handle as int, Some(moved_to(mover, to)))
            &&& live(after.slots).len() == live(s.slots).len()
            &&& after.result == s.result
        }),
{
    lemma_live_replaced(s.slots, handle as int, moved_to(s.slots[handle as int]->0, to));
}

/// The capture of a king decides the game for the side that made the
/// capture; the capture of any other piece leaves the result as it was.
pub proof fn king_capture_decides_game(s: GameState, handle: usize, to: (u8, u8), victim: usize)
    requires
        slots_wf(s.slots),
        move_allowed(s, handle, to),
        holds_at(s.slots, victim as int, to),
    ensures
        after_move(s, handle, to).result == if s.slots[victim as int]->0.piece_type
            == PieceType::King {
            GameResult::Decided(s.slots[handle as int]->0.color)
        } else {
            s.result
        },
        s.slots[victim as int]->0.piece_type == PieceType::King ==> after_move(s, handle, to).result
            == GameResult::Decided(s.slots[victim as int]->0.color.spec_opposite()),
{
    lemma_move_keeps_wf(s.slots, handle as int, to);
    lemma_occupant(s.slots, to, victim as int);
}

/// Once the game is decided no pick moves a piece, passes the turn, arms a
/// piece or changes the result, whichever square is picked and whatever
/// was selected.
pub proof fn decided_game_ignores_picks(s: GameState, square: Square)
    requires
        s.result is Decided,
    ensures
        after_pick(s, square) == deselected(s),
        pick_outcome(s, square) == PickOutcome::Ignored,
        after_pick(s, square).result == s.result,
{
}

} // verus!
