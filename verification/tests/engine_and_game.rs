use chess_engine::board::{Board, Coord, Move};
use chess_engine::engine::{
    best_scored_move, eval_position, get_weighted_value, make_best_move, minimax, piece_score,
    score_root_move,
};
use chess_engine::gui::{best_move, get_symbol, random_move, ChessBoard, GameResult, AI_DEPTH};
use chess_engine::pieces::{Piece, PieceColor, PieceKind};

fn sq(name: &str) -> Coord {
    Coord::from_notation(name).unwrap()
}

fn plain_minimax(board: &Board, depth: u8, maximizing: bool, color: PieceColor) -> i32 {
    let moves = board.list_all_valid_moves();
    if depth == 0 || moves.is_empty() {
        return eval_position(board, color);
    }
    let mut best = if maximizing { i32::MIN + 1 } else { i32::MAX - 1 };
    for m in moves {
        let mut child = *board;
        child.do_move_from_coord(m).unwrap();
        let value = plain_minimax(&child, depth - 1, !maximizing, color);
        if maximizing {
            best = best.max(value);
        } else {
            best = best.min(value);
        }
    }
    best
}

#[test]
fn piece_scores() {
    assert_eq!(piece_score(PieceKind::Pawn), 100);
    assert_eq!(piece_score(PieceKind::Knight), 300);
    assert_eq!(piece_score(PieceKind::Bishop), 300);
    assert_eq!(piece_score(PieceKind::Rook), 500);
    assert_eq!(piece_score(PieceKind::Queen), 900);
    assert_eq!(piece_score(PieceKind::King), 10000);
}

#[test]
fn weighted_values() {
    assert_eq!(get_weighted_value(Piece::pawn(PieceColor::White), sq("e4")), 120);
    assert_eq!(get_weighted_value(Piece::pawn(PieceColor::White), sq("d2")), 80);
    assert_eq!(get_weighted_value(Piece::pawn(PieceColor::Black), sq("e5")), 120);
    assert_eq!(get_weighted_value(Piece::pawn(PieceColor::Black), sq("a2")), 150);
    assert_eq!(get_weighted_value(Piece::knight(PieceColor::White), sq("a1")), 250);
    assert_eq!(get_weighted_value(Piece::knight(PieceColor::Black), sq("d5")), 320);
    assert_eq!(get_weighted_value(Piece::bishop(PieceColor::White), sq("b2")), 305);
    assert_eq!(get_weighted_value(Piece::rook(PieceColor::White), sq("b7")), 510);
    assert_eq!(get_weighted_value(Piece::rook(PieceColor::Black), sq("d8")), 505);
    assert_eq!(get_weighted_value(Piece::queen(PieceColor::White), sq("d1")), 895);
    assert_eq!(get_weighted_value(Piece::king(PieceColor::White), sq("g1")), 10030);
    assert_eq!(get_weighted_value(Piece::king(PieceColor::Black), sq("e4")), 9950);
}

#[test]
fn evaluation_of_positions() {
    let start = Board::default();
    assert_eq!(eval_position(&start, PieceColor::White), 0);
    assert_eq!(eval_position(&start, PieceColor::Black), 0);
    let board = Board::from_fen("4k3/8/8/8/8/8/8/4K2R w - - 0 1").unwrap();
    assert_eq!(eval_position(&board, PieceColor::White), 500);
    assert_eq!(eval_position(&board, PieceColor::Black), -500);
}

#[test]
fn evaluation_of_finished_games() {
    let mated = Board::from_fen("r1b1k1nr/ppp3pp/2np1p2/4p3/3bP3/3B1P2/PPPBNqPP/RN1QK2R w kq - 0 1").unwrap();
    assert_eq!(eval_position(&mated, PieceColor::White), i32::MIN);
    assert_eq!(eval_position(&mated, PieceColor::Black), i32::MAX);
    let stale = Board::from_fen("7k/5Q2/6K1/8/8/8/8/8 b - - 0 1").unwrap();
    assert_eq!(eval_position(&stale, PieceColor::White), 0);
    assert_eq!(eval_position(&stale, PieceColor::Black), 0);
}

#[test]
fn minimax_at_depth_zero_is_the_evaluation() {
    let board = Board::from_fen("4k3/8/8/8/8/8/8/4K2R w - - 0 1").unwrap();
    assert_eq!(minimax(&board, 0, i32::MIN, i32::MAX, true, PieceColor::White), 500);
    assert_eq!(minimax(&board, 0, i32::MIN, i32::MAX, false, PieceColor::Black), -500);
}

#[test]
fn pruning_does_not_change_the_value() {
    let fens = [
        "rnbqkbnr/pppppppp/8/8/8/8/PPPPPPPP/RNBQKBNR w KQkq - 0 1",
        "r3kb1r/pppqppp1/2n1bn2/3p2Pp/4P3/P2B1N1P/1PPP1P2/RNBQK2R w KQkq h6 0 1",
        "4k3/8/8/3q4/8/2N5/8/4K2R w K - 0 1",
        "7k/8/5QK1/8/8/8/8/8 w - - 0 1",
    ];
    for fen in fens {
        let board = Board::from_fen(fen).unwrap();
        for depth in 0..3 {
            for maximizing in [true, false] {
                let pruned = minimax(&board, depth, i32::MIN, i32::MAX, maximizing, board.turn);
                assert_eq!(pruned, plain_minimax(&board, depth, maximizing, board.turn));
            }
        }
    }
}

#[test]
fn narrow_window_bounds_the_value() {
    let board = Board::from_fen("4k3/8/8/3q4/8/2N5/8/4K2R w K - 0 1").unwrap();
    let exact = plain_minimax(&board, 2, true, PieceColor::White);
    let low = minimax(&board, 2, exact, exact + 1000, true, PieceColor::White);
    assert!(low <= exact);
    let high = minimax(&board, 2, exact - 1000, exact, true, PieceColor::White);
    assert!(high >= exact);
    let inside = minimax(&board, 2, exact - 1, exact + 1, true, PieceColor::White);
    assert_eq!(inside, exact);
}

#[test]
fn best_scored_move_takes_the_first_greatest() {
    let a = Move::new(sq("a2"), sq("a3"), None);
    let b = Move::new(sq("b2"), sq("b3"), None);
    let c = Move::new(sq("c2"), sq("c3"), None);
    assert_eq!(best_scored_move(&vec![]), None);
    assert_eq!(best_scored_move(&vec![(a, 1), (b, 5), (c, 5)]), Some(b));
    assert_eq!(best_scored_move(&vec![(a, 7), (b, 5), (c, 7)]), Some(a));
    assert_eq!(best_scored_move(&vec![(a, -3), (b, -2), (c, -1)]), Some(c));
    assert_eq!(best_scored_move(&vec![(a, i32::MIN), (b, i32::MIN)]), Some(a));
}

#[test]
fn search_returns_a_listed_move() {
    let fens = [
        "rnbqkbnr/pppppppp/8/8/8/8/PPPPPPPP/RNBQKBNR w KQkq - 0 1",
        "r3kb1r/pppqppp1/2n1bn2/3p2Pp/4P3/P2B1N1P/1PPP1P2/RNBQK2R w KQkq h6 0 1",
        "rnb1kbnr/pppp1ppp/8/4p3/4P2q/5P2/PPPP2PP/RNBQKBNR w KQkq - 0 1",
    ];
    for fen in fens {
        let board = Board::from_fen(fen).unwrap();
        for depth in 0..3 {
            let chosen = make_best_move(depth, &board).unwrap();
            assert!(board.list_all_valid_moves().contains(&chosen));
            assert!(board.is_valid_move(chosen));
            assert_eq!(make_best_move(depth, &board), Some(chosen));
        }
    }
}

#[test]
fn search_chooses_the_first_move_with_the_greatest_score() {
    let board = Board::from_fen("4k3/8/8/3q4/8/2N5/8/4K2R w K - 0 1").unwrap();
    let moves = board.list_all_valid_moves();
    let scored: Vec<(Move, i32)> = moves.iter().map(|m| (*m, score_root_move(2, &board, *m))).collect();
    let chosen = make_best_move(2, &board).unwrap();
    assert_eq!(Some(chosen), best_scored_move(&scored));
    let best = scored.iter().map(|s| s.1).max().unwrap();
    let first = scored.iter().find(|s| s.1 == best).unwrap().0;
    assert_eq!(chosen, first);
    // The knight takes the queen.
    assert_eq!(chosen, Move::new(sq("c3"), sq("d5"), None));
}

#[test]
fn score_of_a_root_move() {
    let board = Board::from_fen("4k3/8/8/3q4/8/2N5/8/4K2R w K - 0 1").unwrap();
    let capture = Move::new(sq("c3"), sq("d5"), None);
    let mut after = board;
    after.do_move_from_coord(capture).unwrap();
    assert_eq!(score_root_move(1, &board, capture), eval_position(&after, PieceColor::White));
    assert_eq!(score_root_move(0, &board, capture), score_root_move(1, &board, capture));
    assert_eq!(score_root_move(3, &board, capture), plain_minimax(&after, 2, false, PieceColor::White));
}

#[test]
fn deeper_search_can_lower_the_score() {
    // At depth 1 the queen takes the defended pawn; one ply deeper the
    // recapture is seen and the best score on offer is lower.
    let board = Board::from_fen("4k3/8/4p3/3p4/8/8/8/3QK3 w - - 0 1").unwrap();
    let capture = Move::new(sq("d1"), sq("d5"), None);
    let shallow = make_best_move(1, &board).unwrap();
    assert_eq!(shallow, capture);
    let deep = make_best_move(2, &board).unwrap();
    assert!(deep != capture);
    assert!(score_root_move(2, &board, deep) < score_root_move(1, &board, shallow));
}

#[test]
fn search_finds_mate_in_one() {
    let board = Board::from_fen("r1b1k1nr/ppp3pp/2np1p2/4p3/3bP3/3BqP2/PPPBN1PP/RN1QK2R b kq - 0 1").unwrap();
    let chosen = make_best_move(1, &board).unwrap();
    assert_eq!(chosen, Move::new(sq("e3"), sq("f2"), None));
}

#[test]
fn search_has_no_move_in_a_finished_game() {
    let mated = Board::from_fen("r1b1k1nr/ppp3pp/2np1p2/4p3/3bP3/3B1P2/PPPBNqPP/RN1QK2R w kq - 0 1").unwrap();
    assert_eq!(make_best_move(1, &mated), None);
    assert_eq!(make_best_move(3, &mated), None);
    let stale = Board::from_fen("7k/5Q2/6K1/8/8/8/8/8 b - - 0 1").unwrap();
    assert_eq!(make_best_move(2, &stale), None);
}

#[test]
fn random_move_is_legal() {
    let board = Board::from_fen("r3kb1r/pppqppp1/2n1bn2/3p2Pp/4P3/P2B1N1P/1PPP1P2/RNBQK2R w KQkq h6 0 1").unwrap();
    let moves = board.list_all_valid_moves();
    for _ in 0..50 {
        let m = random_move(&board);
        assert!(moves.contains(&m));
        assert!(board.is_valid_move(m));
    }
    let single = Board::from_fen("6rk/8/8/8/8/8/8/7K w - - 0 1").unwrap();
    assert_eq!(single.list_all_valid_moves().len(), 1);
    assert_eq!(random_move(&single), Move::new(sq("h1"), sq("h2"), None));
}

#[test]
fn best_move_searches_at_the_fixed_depth() {
    assert_eq!(AI_DEPTH, 5);
    let board = Board::from_fen("6rk/8/8/8/8/8/8/7K w - - 0 1").unwrap();
    assert_eq!(best_move(&board), Move::new(sq("h1"), sq("h2"), None));
    assert_eq!(Some(best_move(&board)), make_best_move(AI_DEPTH, &board));
}

#[test]
fn symbols() {
    assert_eq!(get_symbol(&Piece::pawn(PieceColor::White)), "P");
    assert_eq!(get_symbol(&Piece::knight(PieceColor::Black)), "N");
    assert_eq!(get_symbol(&Piece::bishop(PieceColor::White)), "B");
    assert_eq!(get_symbol(&Piece::rook(PieceColor::Black)), "R");
    assert_eq!(get_symbol(&Piece::queen(PieceColor::White)), "Q");
    assert_eq!(get_symbol(&Piece::king(PieceColor::Black)), "K");
}

#[test]
fn game_selection_and_reply() {
    let mut game = ChessBoard::new(Board::default());
    assert_eq!(game.result, GameResult::Continuing);
    assert_eq!(game.title(), "Chess");
    assert!(!game.select(sq("e2")));
    assert_eq!(game.from_square, Some(sq("e2")));
    assert!(!game.select(sq("e2")));
    assert_eq!(game.from_square, Some(sq("e2")));
    assert!(game.select(sq("e4")));
    assert_eq!(game.from_square, None);
    assert_eq!(game.result, GameResult::Continuing);
    assert_eq!(game.board.turn, PieceColor::Black);
    game.reply(Move::new(sq("e7"), sq("e5"), None));
    assert_eq!(game.result, GameResult::Continuing);
    assert_eq!(game.board.turn, PieceColor::White);
}

#[test]
fn game_reports_an_illegal_move() {
    let mut game = ChessBoard::new(Board::default());
    assert!(!game.select(sq("e2")));
    assert!(!game.select(sq("e5")));
    let tried = Move::new(sq("e2"), sq("e5"), None);
    assert_eq!(game.result, GameResult::IllegalMove(tried));
    assert_eq!(game.title(), "Illegal move by White, '(e2,e5)'");
    assert!(game.board == Board::default());
    assert_eq!(game.from_square, None);
    // The game goes on with the next selection.
    assert!(!game.select(sq("d2")));
    assert!(game.select(sq("d4")));
    assert_eq!(game.result, GameResult::Continuing);
    game.reply(Move::new(sq("d2"), sq("d4"), None));
    assert!(matches!(game.result, GameResult::IllegalMove(_)));
}

#[test]
fn game_ends_and_starts_anew() {
    let start = Board::from_fen("r1b1k1nr/ppp3pp/2np1p2/4p3/3bP3/3BqP2/PPPBN1PP/RN1QK2R b kq - 0 1").unwrap();
    let mut game = ChessBoard::new(start);
    assert!(!game.select(sq("e3")));
    assert!(!game.select(sq("f2")));
    assert_eq!(game.result, GameResult::Victory(PieceColor::White));
    assert_eq!(game.title(), "White wins");
    assert!(game.board == start);
    assert!(!game.select(sq("a1")));
    assert_eq!(game.result, GameResult::Continuing);
    assert!(game.board == start);
    assert_eq!(game.title(), "Chess");
}

#[test]
fn game_ends_in_stalemate() {
    let start = Board::from_fen("7k/8/5QK1/8/8/8/8/8 w - - 0 1").unwrap();
    let mut game = ChessBoard::new(start);
    assert!(!game.select(sq("f6")));
    assert!(!game.select(sq("f7")));
    assert_eq!(game.result, GameResult::Stalemate);
    assert_eq!(game.title(), "Stalemate");
    assert!(game.board == start);
}

#[test]
fn reply_can_end_the_game() {
    let start = Board::from_fen("r1b1k1nr/ppp3pp/2np1p2/4p3/3bP3/3BqP2/PPPBN1PP/RN1QK2R b kq - 0 1").unwrap();
    let mut game = ChessBoard::new(start);
    game.reply(Move::new(sq("e3"), sq("f2"), None));
    assert_eq!(game.result, GameResult::Victory(PieceColor::White));
    assert!(game.board.in_checkmate.0);
}
