use chess_core::board::{initial_board, Board, PlayerTurn, SelectedPiece, SelectedSquare, Square};
use chess_core::game::{Game, GameResult, MoveReport, PickOutcome};
use chess_core::pieces::{Piece, PieceColor, PieceType};

fn sq(x: u8, y: u8) -> Square {
    Square { x, y }
}

fn white(piece_type: PieceType, x: u8, y: u8) -> Piece {
    Piece { color: PieceColor::White, piece_type, x, y }
}

fn black(piece_type: PieceType, x: u8, y: u8) -> Piece {
    Piece { color: PieceColor::Black, piece_type, x, y }
}

fn board_of(pieces: &[Piece]) -> Board {
    let mut board = Board::new();
    for (i, p) in pieces.iter().enumerate() {
        assert_eq!(board.add_piece(*p), Some(i));
    }
    board
}

#[test]
fn square_shades_alternate() {
    assert!(!sq(0, 0).is_white());
    assert!(sq(0, 1).is_white());
    assert!(sq(1, 0).is_white());
    assert!(!sq(1, 1).is_white());
    assert!(!sq(7, 7).is_white());
    assert!(sq(255, 0).is_white());
    assert!(!sq(255, 255).is_white());
}

#[test]
fn turn_starts_with_white_and_alternates() {
    let mut turn = PlayerTurn::default();
    assert_eq!(turn.color(), PieceColor::White);
    assert_eq!(turn.get_current_turn(), "White");
    turn.change_turn();
    assert_eq!(turn.color(), PieceColor::Black);
    assert_eq!(turn.get_current_turn(), "Black");
    turn.change_turn();
    assert_eq!(turn.get_current_turn(), "White");
}

#[test]
fn selections_start_empty() {
    assert_eq!(SelectedSquare::default().square, None);
    assert_eq!(SelectedPiece::default().handle, None);
}

#[test]
fn initial_board_has_the_standard_layout() {
    let board = initial_board();
    assert_eq!(board.count(), 32);
    let home = [
        PieceType::Rook,
        PieceType::Knight,
        PieceType::Bishop,
        PieceType::Queen,
        PieceType::King,
        PieceType::Bishop,
        PieceType::Knight,
        PieceType::Rook,
    ];
    for y in 0..8u8 {
        let i = y as usize;
        assert_eq!(board.get(i), Some(white(home[i], 0, y)));
        assert_eq!(board.get(8 + i), Some(white(PieceType::Pawn, 1, y)));
        assert_eq!(board.get(16 + i), Some(black(home[i], 7, y)));
        assert_eq!(board.get(24 + i), Some(black(PieceType::Pawn, 6, y)));
        assert_eq!(board.handle_at((0, y)), Some(i));
        assert_eq!(board.handle_at((1, y)), Some(8 + i));
        assert_eq!(board.handle_at((7, y)), Some(16 + i));
        assert_eq!(board.handle_at((6, y)), Some(24 + i));
        for x in 2..6u8 {
            assert_eq!(board.handle_at((x, y)), None);
        }
    }
    assert_eq!(board.get(32), None);
    assert_eq!(board.pieces().len(), 32);
    assert_eq!(board.pieces()[4], white(PieceType::King, 0, 4));
    assert_eq!(board.pieces()[20], black(PieceType::King, 7, 4));
}

#[test]
fn add_piece_refuses_taken_and_outside_squares() {
    let mut board = Board::new();
    assert_eq!(board.count(), 0);
    assert_eq!(board.add_piece(white(PieceType::Rook, 2, 3)), Some(0));
    assert_eq!(board.add_piece(black(PieceType::Rook, 2, 3)), None);
    assert_eq!(board.add_piece(black(PieceType::Rook, 8, 3)), None);
    assert_eq!(board.add_piece(black(PieceType::Rook, 3, 8)), None);
    assert_eq!(board.add_piece(black(PieceType::Rook, 7, 7)), Some(1));
    assert_eq!(board.count(), 2);
    assert_eq!(board.pieces(), vec![white(PieceType::Rook, 2, 3), black(PieceType::Rook, 7, 7)]);
    assert_eq!(board.handle_at((7, 7)), Some(1));
    assert_eq!(board.handle_at((7, 6)), None);
    assert_eq!(board.get(1), Some(black(PieceType::Rook, 7, 7)));
    assert_eq!(board.get(2), None);
}

#[test]
fn new_game_is_open_with_white_to_move() {
    let game = Game::new();
    assert_eq!(game.turn(), PieceColor::White);
    assert_eq!(game.player_turn().get_current_turn(), "White");
    assert_eq!(game.result(), GameResult::Undecided);
    assert_eq!(game.selected_piece(), None);
    assert_eq!(game.selected_square(), None);
    assert_eq!(game.board().count(), 32);
}

#[test]
fn pick_of_an_empty_square_changes_nothing_but_the_selection() {
    let mut game = Game::new();
    let before = game.board().pieces();
    assert_eq!(game.on_square_picked(sq(3, 3)), PickOutcome::SquareMarked);
    assert_eq!(game.board().pieces(), before);
    assert_eq!(game.turn(), PieceColor::White);
    assert_eq!(game.result(), GameResult::Undecided);
    assert_eq!(game.selected_square(), Some(sq(3, 3)));
    assert_eq!(game.selected_piece(), None);
    assert_eq!(game.on_square_picked(sq(3, 3)), PickOutcome::SquareMarked);
    assert_eq!(game.on_square_picked(sq(4, 0)), PickOutcome::SquareMarked);
    assert_eq!(game.board().pieces(), before);
    assert_eq!(game.turn(), PieceColor::White);
    assert_eq!(game.selected_square(), Some(sq(4, 0)));
}

#[test]
fn pick_of_the_other_sides_piece_arms_nothing() {
    let mut game = Game::new();
    assert_eq!(game.on_square_picked(sq(6, 0)), PickOutcome::SquareMarked);
    assert_eq!(game.selected_piece(), None);
    assert_eq!(game.selected_square(), Some(sq(6, 0)));
    assert_eq!(game.turn(), PieceColor::White);
}

#[test]
fn pick_of_an_own_piece_arms_it() {
    let mut game = Game::new();
    assert_eq!(game.on_square_picked(sq(1, 4)), PickOutcome::PieceArmed(12));
    assert_eq!(game.selected_piece(), Some(12));
    assert_eq!(game.selected_square(), Some(sq(1, 4)));
    assert_eq!(game.turn(), PieceColor::White);
    assert_eq!(game.board().count(), 32);
}

#[test]
fn legal_move_is_made_and_passes_the_turn() {
    let mut game = Game::new();
    game.on_square_picked(sq(1, 4));
    let outcome = game.on_square_picked(sq(3, 4));
    assert_eq!(
        outcome,
        PickOutcome::Moved(MoveReport {
            handle: 12,
            from: sq(1, 4),
            to: sq(3, 4),
            captured: None,
            next_turn: PieceColor::Black,
            winner: None,
        })
    );
    assert_eq!(game.board().get(12), Some(white(PieceType::Pawn, 3, 4)));
    assert_eq!(game.board().handle_at((1, 4)), None);
    assert_eq!(game.board().handle_at((3, 4)), Some(12));
    assert_eq!(game.board().count(), 32);
    assert_eq!(game.turn(), PieceColor::Black);
    assert_eq!(game.player_turn().get_current_turn(), "Black");
    assert_eq!(game.selected_piece(), None);
    assert_eq!(game.selected_square(), None);
    assert_eq!(game.result(), GameResult::Undecided);
}

#[test]
fn illegal_move_empties_the_selection_and_keeps_the_turn() {
    let mut game = Game::new();
    let before = game.board().pieces();
    game.on_square_picked(sq(1, 4));
    assert_eq!(game.on_square_picked(sq(4, 4)), PickOutcome::Rejected);
    assert_eq!(game.board().pieces(), before);
    assert_eq!(game.turn(), PieceColor::White);
    assert_eq!(game.selected_piece(), None);
    assert_eq!(game.selected_square(), None);
    assert_eq!(game.on_square_picked(sq(4, 4)), PickOutcome::SquareMarked);
}

#[test]
fn pick_of_another_own_piece_while_armed_is_a_rejected_move() {
    let mut game = Game::new();
    game.on_square_picked(sq(0, 0));
    assert_eq!(game.on_square_picked(sq(1, 0)), PickOutcome::Rejected);
    assert_eq!(game.selected_piece(), None);
    assert_eq!(game.turn(), PieceColor::White);
}

#[test]
fn pick_of_the_armed_pieces_own_square_is_a_rejected_move() {
    let mut game = Game::new();
    game.on_square_picked(sq(0, 1));
    assert_eq!(game.on_square_picked(sq(0, 1)), PickOutcome::Rejected);
    assert_eq!(game.selected_piece(), None);
    assert_eq!(game.board().get(1), Some(white(PieceType::Knight, 0, 1)));
}

#[test]
fn pick_off_the_board_empties_the_selection() {
    let mut game = Game::new();
    let before = game.board().pieces();
    game.on_square_picked(sq(1, 4));
    assert_eq!(game.on_square_picked(sq(8, 4)), PickOutcome::Ignored);
    assert_eq!(game.selected_piece(), None);
    assert_eq!(game.selected_square(), None);
    assert_eq!(game.on_square_picked(sq(2, 200)), PickOutcome::Ignored);
    assert_eq!(game.board().pieces(), before);
    assert_eq!(game.turn(), PieceColor::White);
}

#[test]
fn deselect_empties_the_selection() {
    let mut game = Game::new();
    game.on_square_picked(sq(1, 4));
    game.on_deselect();
    assert_eq!(game.selected_piece(), None);
    assert_eq!(game.selected_square(), None);
    assert_eq!(game.on_square_picked(sq(3, 4)), PickOutcome::SquareMarked);
    assert_eq!(game.board().get(12), Some(white(PieceType::Pawn, 1, 4)));
    game.on_deselect();
    game.on_deselect();
    assert_eq!(game.selected_square(), None);
    assert_eq!(game.turn(), PieceColor::White);
}

#[test]
fn sides_alternate() {
    let mut game = Game::new();
    game.on_square_picked(sq(1, 0));
    game.on_square_picked(sq(2, 0));
    assert_eq!(game.turn(), PieceColor::Black);
    assert_eq!(game.on_square_picked(sq(1, 1)), PickOutcome::SquareMarked);
    assert_eq!(game.on_square_picked(sq(6, 1)), PickOutcome::PieceArmed(25));
    assert!(matches!(game.on_square_picked(sq(4, 1)), PickOutcome::Moved(_)));
    assert_eq!(game.turn(), PieceColor::White);
    assert_eq!(game.board().get(25), Some(black(PieceType::Pawn, 4, 1)));
}

#[test]
fn move_and_move_back_restore_the_board() {
    let mut game = Game::new();
    let start = game.board().pieces();
    game.on_square_picked(sq(0, 1));
    assert!(matches!(game.on_square_picked(sq(2, 2)), PickOutcome::Moved(_)));
    assert_eq!(game.turn(), PieceColor::Black);
    game.on_square_picked(sq(7, 6));
    assert!(matches!(game.on_square_picked(sq(5, 5)), PickOutcome::Moved(_)));
    assert_eq!(game.turn(), PieceColor::White);
    assert_ne!(game.board().pieces(), start);
    game.on_square_picked(sq(2, 2));
    assert!(matches!(game.on_square_picked(sq(0, 1)), PickOutcome::Moved(_)));
    assert_eq!(game.turn(), PieceColor::Black);
    game.on_square_picked(sq(5, 5));
    assert!(matches!(game.on_square_picked(sq(7, 6)), PickOutcome::Moved(_)));
    assert_eq!(game.turn(), PieceColor::White);
    assert_eq!(game.board().pieces(), start);
}

#[test]
fn capture_takes_exactly_the_piece_on_the_square() {
    let pieces = [
        white(PieceType::Rook, 0, 0),
        white(PieceType::King, 0, 4),
        black(PieceType::Pawn, 5, 0),
        black(PieceType::King, 7, 4),
        black(PieceType::Pawn, 5, 1),
    ];
    let mut game = Game::with_board(board_of(&pieces), PieceColor::White);
    assert_eq!(game.board().count(), 5);
    assert_eq!(game.on_square_picked(sq(0, 0)), PickOutcome::PieceArmed(0));
    let outcome = game.on_square_picked(sq(5, 0));
    assert_eq!(
        outcome,
        PickOutcome::Moved(MoveReport {
            handle: 0,
            from: sq(0, 0),
            to: sq(5, 0),
            captured: Some((2, black(PieceType::Pawn, 5, 0))),
            next_turn: PieceColor::Black,
            winner: None,
        })
    );
    assert_eq!(game.board().count(), 4);
    assert_eq!(game.board().get(2), None);
    assert_eq!(game.board().get(0), Some(white(PieceType::Rook, 5, 0)));
    assert_eq!(game.board().get(1), Some(pieces[1]));
    assert_eq!(game.board().get(3), Some(pieces[3]));
    assert_eq!(game.board().get(4), Some(pieces[4]));
    assert_eq!(game.board().handle_at((5, 0)), Some(0));
    assert_eq!(
        game.board().pieces(),
        vec![white(PieceType::Rook, 5, 0), pieces[1], pieces[3], pieces[4]]
    );
    assert_eq!(game.result(), GameResult::Undecided);
    assert_eq!(game.turn(), PieceColor::Black);
}

#[test]
fn capture_of_the_king_decides_the_game_for_the_capturing_side() {
    let pieces = [
        white(PieceType::Queen, 3, 4),
        white(PieceType::King, 0, 4),
        black(PieceType::King, 7, 4),
        black(PieceType::Rook, 7, 0),
    ];
    let mut game = Game::with_board(board_of(&pieces), PieceColor::White);
    game.on_square_picked(sq(3, 4));
    let outcome = game.on_square_picked(sq(7, 4));
    assert_eq!(
        outcome,
        PickOutcome::Moved(MoveReport {
            handle: 0,
            from: sq(3, 4),
            to: sq(7, 4),
            captured: Some((2, black(PieceType::King, 7, 4))),
            next_turn: PieceColor::Black,
            winner: Some(PieceColor::White),
        })
    );
    assert_eq!(game.result(), GameResult::Decided(PieceColor::White));
    assert_eq!(game.board().count(), 3);
    assert_eq!(game.selected_piece(), None);
}

#[test]
fn black_wins_by_capturing_the_white_king() {
    let pieces = [white(PieceType::King, 0, 4), black(PieceType::Knight, 2, 3)];
    let mut game = Game::with_board(board_of(&pieces), PieceColor::Black);
    assert_eq!(game.turn(), PieceColor::Black);
    assert_eq!(game.on_square_picked(sq(2, 3)), PickOutcome::PieceArmed(1));
    assert!(matches!(game.on_square_picked(sq(0, 4)), PickOutcome::Moved(_)));
    assert_eq!(game.result(), GameResult::Decided(PieceColor::Black));
    assert_eq!(game.turn(), PieceColor::White);
}

#[test]
fn decided_game_ignores_every_pick() {
    let pieces = [
        white(PieceType::Queen, 3, 4),
        white(PieceType::King, 0, 4),
        black(PieceType::King, 7, 4),
        black(PieceType::Rook, 7, 0),
    ];
    let mut game = Game::with_board(board_of(&pieces), PieceColor::White);
    game.on_square_picked(sq(3, 4));
    game.on_square_picked(sq(7, 4));
    let after = game.board().pieces();
    // Black's rook could take the queen, and White's queen could move on.
    assert_eq!(game.on_square_picked(sq(7, 0)), PickOutcome::Ignored);
    assert_eq!(game.selected_piece(), None);
    assert_eq!(game.on_square_picked(sq(7, 4)), PickOutcome::Ignored);
    assert_eq!(game.on_square_picked(sq(7, 4)), PickOutcome::Ignored);
    assert_eq!(game.on_square_picked(sq(6, 4)), PickOutcome::Ignored);
    assert_eq!(game.on_square_picked(sq(0, 4)), PickOutcome::Ignored);
    assert_eq!(game.on_square_picked(sq(1, 4)), PickOutcome::Ignored);
    game.on_deselect();
    assert_eq!(game.board().pieces(), after);
    assert_eq!(game.turn(), PieceColor::Black);
    assert_eq!(game.result(), GameResult::Decided(PieceColor::White));
    assert_eq!(game.selected_piece(), None);
    assert_eq!(game.selected_square(), None);
}

#[test]
fn pawn_captures_diagonally_in_a_game() {
    let mut game = Game::new();
    game.on_square_picked(sq(1, 4));
    game.on_square_picked(sq(3, 4));
    game.on_square_picked(sq(6, 3));
    game.on_square_picked(sq(4, 3));
    assert_eq!(game.on_square_picked(sq(3, 4)), PickOutcome::PieceArmed(12));
    let outcome = game.on_square_picked(sq(4, 3));
    assert_eq!(
        outcome,
        PickOutcome::Moved(MoveReport {
            handle: 12,
            from: sq(3, 4),
            to: sq(4, 3),
            captured: Some((27, black(PieceType::Pawn, 4, 3))),
            next_turn: PieceColor::Black,
            winner: None,
        })
    );
    assert_eq!(game.board().count(), 31);
    assert_eq!(game.board().get(27), None);
    assert_eq!(game.board().handle_at((4, 3)), Some(12));
}

#[test]
fn game_on_a_given_board_starts_open_with_nothing_selected() {
    let pieces = [white(PieceType::King, 0, 4), black(PieceType::King, 7, 4)];
    let game = Game::with_board(board_of(&pieces), PieceColor::Black);
    assert_eq!(game.turn(), PieceColor::Black);
    assert_eq!(game.result(), GameResult::Undecided);
    assert_eq!(game.selected_piece(), None);
    assert_eq!(game.selected_square(), None);
    assert_eq!(game.board().pieces(), pieces.to_vec());
    let other = Game::with_board(Board::new(), PieceColor::White);
    assert_eq!(other.turn(), PieceColor::White);
    assert_eq!(other.board().count(), 0);
}

#[test]
fn capture_that_is_not_legal_takes_nothing() {
    let pieces = [
        white(PieceType::Rook, 0, 0),
        white(PieceType::Pawn, 3, 0),
        black(PieceType::Pawn, 5, 0),
    ];
    let mut game = Game::with_board(board_of(&pieces), PieceColor::White);
    game.on_square_picked(sq(0, 0));
    assert_eq!(game.on_square_picked(sq(5, 0)), PickOutcome::Rejected);
    assert_eq!(game.board().pieces(), pieces.to_vec());
    assert_eq!(game.turn(), PieceColor::White);
}
