use sahister::board::{Board, MoveError};
use sahister::figures::{ChessColor, ChessTile, Figure, FigureType, Square};
use sahister::game::Game;
use sahister::legality::GameOutcome;

fn sq(col: u8, row: u8) -> Square {
    Square { col, row }
}

fn kings(white: (u8, u8), black: (u8, u8)) -> Board {
    Board::with_kings(sq(white.0, white.1), sq(black.0, black.1)).unwrap()
}

fn put(board: &mut Board, piece: Figure) {
    let at = piece.current_position;
    assert_eq!(board.place(at, piece), Ok(None));
}

fn sorted(mut v: Vec<Square>) -> Vec<(u8, u8)> {
    let mut out: Vec<(u8, u8)> = v.drain(..).map(|s| (s.col, s.row)).collect();
    out.sort();
    out
}

#[test]
fn double_advance_sets_flag_and_passes_turn() {
    let mut game = Game::new_game();
    let m = game.apply(sq(4, 1), sq(4, 3)).unwrap();
    assert_eq!(m.captured_piece, None);
    assert_eq!(m.promotion, None);
    assert_eq!(m.outcome, GameOutcome::InProgress);
    let pawn = game.board().piece_at(sq(4, 3)).unwrap();
    assert_eq!(pawn.figure_type, FigureType::Pawn);
    assert!(pawn.metadata.is_enpassant_valid);
    assert_eq!(pawn.metadata.number_of_moves, 1);
    assert_eq!(game.board().piece_at(sq(4, 1)), None);
    assert_eq!(game.active_color(), ChessColor::Black);
    assert_eq!(game.turn_state().ply_count, 1);
}

#[test]
fn triple_advance_is_illegal() {
    let mut game = Game::new_game();
    assert_eq!(game.apply(sq(4, 1), sq(4, 4)), Err(MoveError::IllegalMove));
    assert_eq!(game.active_color(), ChessColor::White);
    assert_eq!(game.turn_state().ply_count, 0);
    assert!(game.board().piece_at(sq(4, 1)).is_some());
}

#[test]
fn fort_blocked_by_own_pawn_then_free() {
    let mut board = kings((4, 0), (4, 7));
    put(&mut board, Figure::build_w_fort((0, 0)));
    put(&mut board, Figure::build_w_pawn((0, 1)));
    put(&mut board, Figure::build_b_fort((0, 7)));
    let moves = sorted(board.legal_moves(sq(0, 0)));
    assert_eq!(moves, vec![(1, 0), (2, 0), (3, 0)]);
    assert!(moves.iter().all(|&(c, _)| c != 0));
    assert_eq!(board.move_piece(sq(0, 1), sq(1, 1)), Ok(None));
    assert!(board.is_legal(sq(0, 0), sq(0, 7)));
    let moves = sorted(board.legal_moves(sq(0, 0)));
    assert!(moves.contains(&(0, 7)));
    assert!(moves.contains(&(0, 1)));
    assert_eq!(moves.len(), 10);
}

#[test]
fn queen_on_open_file_checks_and_interposition_lifts_it() {
    let mut board = kings((7, 0), (4, 7));
    put(&mut board, Figure::build_w_queen((4, 0)));
    put(&mut board, Figure::build_b_fort((0, 4)));
    assert!(board.is_in_check(ChessColor::Black));
    assert!(!board.is_in_check(ChessColor::White));
    let mut game = Game::from_position(board, ChessColor::Black, 1).unwrap();
    assert_eq!(game.outcome(), GameOutcome::Check(ChessColor::Black));
    let block = sorted(game.legal_moves(sq(0, 4)));
    assert_eq!(block, vec![(4, 4)]);
    let m = game.apply(sq(0, 4), sq(4, 4)).unwrap();
    assert_eq!(m.moved_piece.figure_type, FigureType::Fort);
    assert!(!game.board().is_in_check(ChessColor::Black));
    assert_eq!(game.active_color(), ChessColor::White);
}

#[test]
fn interposing_on_each_square_of_the_file_lifts_check() {
    for k in 1..7u8 {
        let mut board = kings((0, 0), (4, 7));
        put(&mut board, Figure::build_w_queen((4, 0)));
        put(&mut board, Figure::build_b_fort((7, k)));
        assert!(board.is_in_check(ChessColor::Black));
        assert!(board.is_legal(sq(7, k), sq(4, k)));
        let mut game = Game::from_position(board, ChessColor::Black, 1).unwrap();
        assert!(game.apply(sq(7, k), sq(4, k)).is_ok());
        assert!(!game.board().is_in_check(ChessColor::Black));
    }
}

#[test]
fn cornered_king_not_in_check_is_stalemate() {
    let mut board = kings((2, 6), (0, 7));
    put(&mut board, Figure::build_w_queen((1, 5)));
    assert!(!board.is_in_check(ChessColor::Black));
    assert!(!board.has_any_legal_move(ChessColor::Black));
    assert_eq!(board.game_outcome(ChessColor::Black), GameOutcome::Stalemate);
    let mut game = Game::from_position(board, ChessColor::Black, 1).unwrap();
    assert_eq!(game.outcome(), GameOutcome::Stalemate);
    assert_eq!(game.apply(sq(0, 7), sq(0, 6)), Err(MoveError::IllegalMove));
}

#[test]
fn checkmate_refuses_every_later_move() {
    let mut board = kings((4, 5), (4, 7));
    put(&mut board, Figure::build_w_queen((4, 6)));
    assert_eq!(board.game_outcome(ChessColor::Black), GameOutcome::Checkmate(ChessColor::Black));
    let mut game = Game::from_position(board, ChessColor::Black, 1).unwrap();
    for c in 0..8u8 {
        for r in 0..8u8 {
            assert_eq!(game.apply(sq(4, 7), sq(c, r)).is_err(), true);
            assert!(game.apply(sq(4, 6), sq(c, r)).is_err());
        }
    }
    assert_eq!(game.turn_state().ply_count, 1);
}

#[test]
fn mate_reached_by_play_ends_the_game() {
    let mut game = Game::new_game();
    let moves = [((5, 1), (5, 2)), ((4, 6), (4, 4)), ((6, 1), (6, 3)), ((3, 7), (7, 3))];
    for ((fc, fr), (tc, tr)) in moves {
        assert!(game.apply(sq(fc, fr), sq(tc, tr)).is_ok());
    }
    assert_eq!(game.outcome(), GameOutcome::Checkmate(ChessColor::White));
    assert_eq!(game.apply(sq(0, 1), sq(0, 2)), Err(MoveError::IllegalMove));
    assert_eq!(game.apply(sq(0, 6), sq(0, 5)), Err(MoveError::IllegalMove));
    assert!(game.legal_moves(sq(0, 1)).is_empty());
}

#[test]
fn side_to_move_follows_ply_parity() {
    let mut game = Game::new_game();
    let moves = [((4, 1), (4, 3)), ((4, 6), (4, 4)), ((6, 0), (5, 2)), ((1, 7), (2, 5)), ((5, 0), (2, 3))];
    for (k, ((fc, fr), (tc, tr))) in moves.iter().enumerate() {
        assert!(game.apply(sq(*fc, *fr), sq(*tc, *tr)).is_ok());
        let expected = if (k + 1) % 2 == 0 { ChessColor::White } else { ChessColor::Black };
        assert_eq!(game.active_color(), expected);
        assert_eq!(game.turn_state().ply_count, (k + 1) as u64);
    }
}

#[test]
fn wrong_side_and_bad_squares_are_refused() {
    let mut game = Game::new_game();
    assert_eq!(game.apply(sq(4, 6), sq(4, 5)), Err(MoveError::IllegalMove));
    assert_eq!(game.apply(sq(8, 1), sq(4, 2)), Err(MoveError::InvalidSquare));
    assert_eq!(game.apply(sq(4, 1), sq(4, 9)), Err(MoveError::InvalidSquare));
    assert_eq!(game.apply(sq(4, 3), sq(4, 4)), Err(MoveError::NoPieceAtSource));
    assert_eq!(game.apply(sq(0, 0), sq(0, 1)), Err(MoveError::IllegalMove));
    assert_eq!(game.active_color(), ChessColor::White);
}

#[test]
fn own_piece_is_never_a_destination() {
    let board = Board::standard();
    for c in 0..8u8 {
        for r in 0..2u8 {
            let from = sq(c, r);
            for s in board.get_legalmoves(from) {
                assert!(!board.is_occupied_by(s, ChessColor::White));
            }
            for s in board.legal_moves(from) {
                assert!(!board.is_occupied_by(s, ChessColor::White));
            }
        }
    }
    assert!(!board.is_pseudo_legal(sq(0, 0), sq(0, 1)));
    assert!(!board.is_pseudo_legal(sq(3, 0), sq(4, 0)));
}

#[test]
fn opening_moves_of_the_standard_layout() {
    let board = Board::standard();
    assert_eq!(sorted(board.legal_moves(sq(1, 0))), vec![(0, 2), (2, 2)]);
    assert_eq!(sorted(board.legal_moves(sq(4, 1))), vec![(4, 2), (4, 3)]);
    assert_eq!(sorted(board.legal_moves(sq(3, 6))), vec![(3, 4), (3, 5)]);
    assert!(board.legal_moves(sq(0, 0)).is_empty());
    assert!(board.legal_moves(sq(4, 0)).is_empty());
    assert!(board.legal_moves(sq(4, 4)).is_empty());
    assert_eq!(board.game_outcome(ChessColor::White), GameOutcome::InProgress);
    assert_eq!(board.king_square(ChessColor::White), sq(4, 0));
    assert_eq!(board.king_square(ChessColor::Black), sq(4, 7));
    let queen = board.piece_at(sq(3, 7)).unwrap();
    assert_eq!(queen.figure_type, FigureType::Queen);
    assert_eq!(queen.color, ChessColor::Black);
    let mut count = 0;
    for c in 0..8u8 {
        for r in 0..8u8 {
            if let Some(p) = board.piece_at(sq(c, r)) {
                assert_eq!(p.current_position, sq(c, r));
                count += 1;
            }
        }
    }
    assert_eq!(count, 32);
}

#[test]
fn rays_stop_at_first_piece() {
    let mut board = kings((0, 0), (7, 7));
    put(&mut board, Figure::build_w_fort((3, 3)));
    put(&mut board, Figure::build_b_knight((3, 5)));
    put(&mut board, Figure::build_w_pawn((6, 3)));
    let moves = sorted(board.get_legalmoves(sq(3, 3)));
    assert_eq!(
        moves,
        vec![(0, 3), (1, 3), (2, 3), (3, 0), (3, 1), (3, 2), (3, 4), (3, 5), (4, 3), (5, 3)]
    );
    put(&mut board, Figure::build_w_bishop((4, 4)));
    let diag = sorted(board.get_legalmoves(sq(4, 4)));
    assert_eq!(diag, vec![(3, 5), (5, 3), (5, 5), (6, 2), (6, 6), (7, 1), (7, 7)]);
    assert!(!diag.contains(&(2, 6)));
    assert!(!diag.contains(&(2, 2)));
    put(&mut board, Figure::build_b_queen((1, 1)));
    let q = sorted(board.get_legalmoves(sq(1, 1)));
    assert!(q.contains(&(0, 0)));
    assert!(q.contains(&(3, 3)));
    assert!(!q.contains(&(4, 4)));
    assert!(q.contains(&(1, 7)));
}

#[test]
fn pinned_piece_has_no_legal_move() {
    let mut board = kings((4, 0), (0, 7));
    put(&mut board, Figure::build_w_bishop((4, 1)));
    put(&mut board, Figure::build_b_fort((4, 7)));
    assert!(!board.get_legalmoves(sq(4, 1)).is_empty());
    assert!(board.legal_moves(sq(4, 1)).is_empty());
    assert!(!board.is_legal(sq(4, 1), sq(5, 2)));
}

#[test]
fn king_may_not_step_into_attack() {
    let mut board = kings((4, 0), (0, 7));
    put(&mut board, Figure::build_b_fort((3, 7)));
    let moves = sorted(board.legal_moves(sq(4, 0)));
    assert_eq!(moves, vec![(4, 1), (5, 0), (5, 1)]);
    assert!(board.is_square_attacked(sq(3, 0), ChessColor::Black));
    assert!(!board.is_square_attacked(sq(5, 0), ChessColor::Black));
}

#[test]
fn pawn_attacks_only_diagonally() {
    let mut board = kings((0, 0), (7, 7));
    put(&mut board, Figure::build_b_pawn((4, 4)));
    assert!(board.is_square_attacked(sq(3, 3), ChessColor::Black));
    assert!(board.is_square_attacked(sq(5, 3), ChessColor::Black));
    assert!(!board.is_square_attacked(sq(4, 3), ChessColor::Black));
    assert!(!board.is_square_attacked(sq(4, 5), ChessColor::Black));
}

#[test]
fn en_passant_capture_removes_passed_pawn() {
    let mut board = kings((4, 0), (4, 7));
    put(&mut board, Figure::build_w_pawn((4, 4)));
    put(&mut board, Figure::build_b_pawn((3, 6)));
    let mut game = Game::from_position(board, ChessColor::Black, 1).unwrap();
    assert!(game.apply(sq(3, 6), sq(3, 4)).is_ok());
    assert!(game.board().is_pseudo_legal(sq(4, 4), sq(3, 5)));
    let m = game.apply(sq(4, 4), sq(3, 5)).unwrap();
    let taken = m.captured_piece.unwrap();
    assert_eq!(taken.figure_type, FigureType::Pawn);
    assert_eq!(taken.current_position, sq(3, 4));
    assert_eq!(game.board().piece_at(sq(3, 4)), None);
    assert_eq!(game.board().piece_at(sq(3, 5)).unwrap().color, ChessColor::White);
}

#[test]
fn en_passant_lapses_after_one_move() {
    let mut board = kings((4, 0), (4, 7));
    put(&mut board, Figure::build_w_pawn((4, 4)));
    put(&mut board, Figure::build_b_pawn((3, 6)));
    put(&mut board, Figure::build_b_pawn((0, 6)));
    let mut game = Game::from_position(board, ChessColor::Black, 1).unwrap();
    assert!(game.apply(sq(3, 6), sq(3, 4)).is_ok());
    assert!(game.apply(sq(4, 0), sq(5, 0)).is_ok());
    assert!(!game.board().piece_at(sq(3, 4)).unwrap().metadata.is_enpassant_valid);
    assert!(game.apply(sq(0, 6), sq(0, 5)).is_ok());
    assert_eq!(game.apply(sq(4, 4), sq(3, 5)), Err(MoveError::IllegalMove));
}

#[test]
fn pawn_promotes_to_queen() {
    let mut board = kings((4, 0), (7, 5));
    put(&mut board, Figure::build_w_pawn((0, 6)));
    let mut game = Game::from_position(board, ChessColor::White, 0).unwrap();
    let m = game.apply(sq(0, 6), sq(0, 7)).unwrap();
    assert_eq!(m.promotion, Some(FigureType::Queen));
    assert_eq!(m.moved_piece.figure_type, FigureType::Pawn);
    let q = game.board().piece_at(sq(0, 7)).unwrap();
    assert_eq!(q.figure_type, FigureType::Queen);
    assert_eq!(q.color, ChessColor::White);
}

#[test]
fn capture_reports_taken_piece() {
    let mut board = kings((4, 0), (4, 7));
    put(&mut board, Figure::build_w_knight((2, 2)));
    put(&mut board, Figure::build_b_bishop((3, 4)));
    let mut game = Game::from_position(board, ChessColor::White, 0).unwrap();
    let m = game.apply(sq(2, 2), sq(3, 4)).unwrap();
    let taken = m.captured_piece.unwrap();
    assert_eq!(taken.figure_type, FigureType::Bishop);
    assert_eq!(taken.color, ChessColor::Black);
    assert_eq!(game.board().piece_at(sq(3, 4)).unwrap().figure_type, FigureType::Knight);
}

#[test]
fn king_capture_is_never_offered() {
    let mut board = kings((4, 0), (4, 7));
    put(&mut board, Figure::build_w_fort((4, 3)));
    assert!(board.is_pseudo_legal(sq(4, 3), sq(4, 7)));
    assert!(!board.is_legal(sq(4, 3), sq(4, 7)));
    assert!(!sorted(board.legal_moves(sq(4, 3))).contains(&(4, 7)));
}

#[test]
fn reverting_a_move_restores_every_square() {
    let mut board = kings((4, 0), (4, 7));
    put(&mut board, Figure::build_w_knight((2, 2)));
    put(&mut board, Figure::build_b_bishop((3, 4)));
    put(&mut board, Figure::build_b_pawn((6, 6)));
    let before = board.copy();
    let mut game = Game::from_position(board, ChessColor::White, 0).unwrap();
    let m = game.apply(sq(2, 2), sq(3, 4)).unwrap();
    let mut after = game.board().copy();
    let moved = after.remove(m.to).unwrap();
    assert_eq!(moved.current_position, sq(3, 4));
    assert_eq!(moved.metadata.number_of_moves, 1);
    assert_eq!(after.place(m.from, m.moved_piece), Ok(None));
    let taken = m.captured_piece.unwrap();
    assert_eq!(after.place(taken.current_position, taken), Ok(None));
    for c in 0..8u8 {
        for r in 0..8u8 {
            assert_eq!(after.piece_at(sq(c, r)), before.piece_at(sq(c, r)));
        }
    }
}

#[test]
fn selection_needs_a_piece_of_the_side_to_move() {
    let mut game = Game::new_game();
    assert!(game.select_square(sq(4, 4)).is_none());
    assert_eq!(game.selection(), None);
    assert!(game.select_square(sq(4, 6)).is_none());
    assert_eq!(game.selection(), None);
    assert!(game.select_square(sq(4, 1)).is_none());
    assert_eq!(game.selection(), Some(sq(4, 1)));
    let r = game.select_square(sq(4, 3)).unwrap();
    assert_eq!(r.unwrap().to, sq(4, 3));
    assert_eq!(game.selection(), None);
    assert_eq!(game.active_color(), ChessColor::Black);
}

#[test]
fn rejected_second_pick_clears_selection() {
    let mut game = Game::new_game();
    assert!(game.select_square(sq(4, 1)).is_none());
    assert_eq!(game.select_square(sq(4, 4)), Some(Err(MoveError::IllegalMove)));
    assert_eq!(game.selection(), None);
    assert_eq!(game.active_color(), ChessColor::White);
    assert!(game.select_square(sq(1, 0)).is_none());
    game.reset_selection();
    assert_eq!(game.selection(), None);
}

#[test]
fn game_legal_moves_follow_the_turn() {
    let game = Game::new_game();
    assert_eq!(sorted(game.legal_moves(sq(6, 0))), vec![(5, 2), (7, 2)]);
    assert!(game.legal_moves(sq(6, 7)).is_empty());
    assert!(game.legal_moves(sq(6, 4)).is_empty());
}

#[test]
fn board_edits_keep_one_king_per_side() {
    let mut board = kings((4, 0), (4, 7));
    assert_eq!(board.place(sq(8, 0), Figure::build_w_pawn((0, 0))), Err(MoveError::InvalidSquare));
    assert_eq!(board.place(sq(4, 7), Figure::build_w_pawn((0, 0))), Err(MoveError::IllegalMove));
    assert_eq!(board.place(sq(2, 0), Figure::build_w_king((9, 9))), Ok(None));
    assert_eq!(board.king_square(ChessColor::White), sq(2, 0));
    assert_eq!(board.piece_at(sq(4, 0)), None);
    assert_eq!(board.piece_at(sq(2, 0)).unwrap().current_position, sq(2, 0));
    assert_eq!(board.remove(sq(2, 0)), None);
    assert_eq!(board.remove(sq(9, 0)), None);
    put(&mut board, Figure::build_b_pawn((5, 5)));
    assert_eq!(board.remove(sq(5, 5)).unwrap().figure_type, FigureType::Pawn);
    assert_eq!(board.piece_at(sq(5, 5)), None);
    assert!(Board::with_kings(sq(1, 1), sq(1, 1)).is_none());
    assert!(Board::with_kings(sq(1, 1), sq(8, 1)).is_none());
}

#[test]
fn raw_moves_report_errors() {
    let mut board = kings((4, 0), (4, 7));
    put(&mut board, Figure::build_w_fort((0, 0)));
    put(&mut board, Figure::build_b_pawn((0, 5)));
    assert_eq!(board.move_piece(sq(0, 0), sq(0, 8)), Err(MoveError::InvalidSquare));
    assert_eq!(board.move_piece(sq(1, 1), sq(1, 2)), Err(MoveError::NoPieceAtSource));
    assert_eq!(board.move_piece(sq(0, 0), sq(0, 0)), Err(MoveError::IllegalMove));
    assert_eq!(board.move_piece(sq(0, 0), sq(4, 7)), Err(MoveError::IllegalMove));
    let taken = board.move_piece(sq(0, 0), sq(0, 5)).unwrap().unwrap();
    assert_eq!(taken.color, ChessColor::Black);
    assert_eq!(board.piece_at(sq(0, 5)).unwrap().current_position, sq(0, 5));
    assert_eq!(board.move_piece(sq(4, 7), sq(5, 7)), Ok(None));
    assert_eq!(board.king_square(ChessColor::Black), sq(5, 7));
}

#[test]
fn names_and_tiles() {
    assert_eq!(Figure::build_w_pawn((0, 1)).get_name(), "WHITE_PAWN");
    assert_eq!(Figure::build_b_fort((0, 7)).get_name(), "BLACK_FORT");
    assert_eq!(Figure::build_b_knight((1, 7)).get_name(), "BLACK_KNIGHT");
    assert_eq!(Figure::build_w_queen((3, 0)).get_name(), "WHITE_QUEEN");
    assert_eq!(FigureType::Bishop.get_str(), "BISHOP");
    assert_eq!(ChessColor::Black.get_str(), "BLACK");
    let king = Figure::build_b_king((4, 7));
    assert_eq!(king.figure_type, FigureType::King);
    assert_eq!(king.current_position, sq(4, 7));
    assert_eq!(king.metadata.number_of_moves, 0);
    assert_eq!(ChessTile::of_square(0, 0), ChessTile::build_black(0, 0));
    assert_eq!(ChessTile::of_square(1, 0), ChessTile::build_white(1, 0));
    assert_eq!(ChessTile::of_square(3, 5), ChessTile::build_black(3, 5));
    assert_eq!(Square::new(7, 7), Some(sq(7, 7)));
    assert_eq!(Square::new(8, 0), None);
}

#[test]
fn moves_carry_tags() {
    let mut board = kings((4, 0), (7, 7));
    put(&mut board, Figure::build_w_pawn((1, 6)));
    put(&mut board, Figure::build_b_knight((2, 7)));
    let tagged = board.tagged_moves(sq(1, 6));
    assert_eq!(tagged.len(), 2);
    for (to, tag) in tagged {
        assert!(tag.promotion);
        assert!(!tag.en_passant);
        assert_eq!(tag.capture, to == sq(2, 7));
    }
    let quiet = board.tag_move(sq(4, 0), sq(4, 1));
    assert!(!quiet.capture && !quiet.en_passant && !quiet.promotion);
}

#[test]
fn en_passant_move_is_tagged() {
    let mut board = kings((4, 0), (4, 7));
    put(&mut board, Figure::build_w_pawn((4, 4)));
    put(&mut board, Figure::build_b_pawn((3, 6)));
    let mut game = Game::from_position(board, ChessColor::Black, 1).unwrap();
    assert!(game.apply(sq(3, 6), sq(3, 4)).is_ok());
    let tag = game.board().tag_move(sq(4, 4), sq(3, 5));
    assert!(tag.capture);
    assert!(tag.en_passant);
    assert!(!tag.promotion);
    let tagged = game.board().tagged_moves(sq(4, 4));
    let targets: Vec<Square> = tagged.iter().map(|m| m.0).collect();
    assert_eq!(sorted(targets), vec![(3, 5), (4, 5)]);
}

#[test]
fn starting_pieces_are_listed_once() {
    let figures = sahister::board::get_figures();
    assert_eq!(figures.len(), 32);
    let board = Board::standard();
    for f in &figures {
        assert_eq!(board.piece_at(f.current_position), Some(*f));
    }
    let kings: Vec<&Figure> = figures.iter().filter(|f| f.figure_type == FigureType::King).collect();
    assert_eq!(kings.len(), 2);
    assert_eq!(figures[0].current_position, sq(0, 0));
    assert_eq!(figures[0].figure_type, FigureType::Fort);
}

#[test]
fn own_occupied_square_is_not_attacked_by_own_side() {
    let mut board = kings((0, 0), (7, 7));
    put(&mut board, Figure::build_w_fort((3, 3)));
    put(&mut board, Figure::build_w_knight((3, 5)));
    assert!(!board.is_square_attacked(sq(3, 5), ChessColor::White));
    assert!(board.is_square_attacked(sq(3, 4), ChessColor::White));
    put(&mut board, Figure::build_w_pawn((2, 4)));
    assert!(board.is_square_attacked(sq(3, 5), ChessColor::White));
    put(&mut board, Figure::build_w_bishop((1, 1)));
    assert!(!board.is_square_attacked(sq(0, 0), ChessColor::White));
    assert!(!board.is_square_attacked(sq(1, 1), ChessColor::White));
}
