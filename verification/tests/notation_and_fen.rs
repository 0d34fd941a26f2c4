use chess_engine::board::{Board, BoardError, Coord, Move};
use chess_engine::pieces::{Piece, PieceColor};

fn parse_reason(fen: &str) -> String {
    match Board::from_fen(fen) {
        Err(BoardError::ParseError(reason)) => reason,
        Err(BoardError::MoveError(_)) => panic!("expected a parse error"),
        Ok(_) => panic!("expected an error"),
    }
}

#[test]
fn notation_round_trip() {
    for y in 0..8 {
        for x in 0..8 {
            let c = Coord { x, y };
            let text = c.to_notation();
            assert_eq!(text.chars().count(), 2);
            assert_eq!(Coord::from_notation(&text).unwrap(), c);
        }
    }
    assert_eq!(Coord { x: 0, y: 7 }.to_notation(), "a1");
    assert_eq!(Coord { x: 4, y: 4 }.to_notation(), "e4");
    assert_eq!(Coord { x: 7, y: 0 }.to_notation(), "h8");
}

#[test]
fn notation_must_be_two_characters() {
    assert!(Coord::from_notation("").is_err());
    assert!(Coord::from_notation("e").is_err());
    assert!(Coord::from_notation("e4 ").is_err());
    assert!(Coord::from_notation("e4e5").is_err());
    assert!(Coord::from_notation("E4").is_err());
    assert!(Coord::from_notation("4e").is_err());
    assert!(Coord::from_notation("a0").is_err());
    match Coord::from_notation("j1") {
        Err(BoardError::ParseError(reason)) => assert_eq!(reason, "Invalid notation"),
        _ => panic!("expected a parse error"),
    }
}

#[test]
fn parse_move_reads_four_characters() {
    let board = Board::default();
    let m = board.parse_move("e2e4").unwrap();
    assert_eq!(m, Move::new(Coord { x: 4, y: 6 }, Coord { x: 4, y: 4 }, None));
    let m = board.parse_move("a7a8q").unwrap();
    assert_eq!(m, Move::new(Coord { x: 0, y: 1 }, Coord { x: 0, y: 0 }, None));
    assert!(board.parse_move("e2e").is_err());
    assert!(board.parse_move("").is_err());
    assert!(board.parse_move("e2x4").is_err());
    assert!(board.parse_move("i2e4").is_err());
}

#[test]
fn error_messages() {
    let parse = BoardError::ParseError("Invalid notation".to_string());
    assert_eq!(parse.to_string(), "Error parsing input: Invalid notation");
    let moved = BoardError::MoveError("No piece to move".to_string());
    assert_eq!(moved.to_string(), "Error making move: No piece to move");
    assert_eq!(PieceColor::White.to_string(), "White");
    assert_eq!(PieceColor::Black.to_string(), "Black");
}

#[test]
fn fen_reads_every_field() {
    let board = Board::from_fen("r3k2r/8/8/8/4Pp2/8/8/R3K2R b Kq e3 12 34").unwrap();
    assert_eq!(board.turn, PieceColor::Black);
    assert_eq!(board.white_castle, (true, false));
    assert_eq!(board.black_castle, (false, true));
    assert_eq!(board.en_passant, Some(Coord { x: 4, y: 5 }));
    assert_eq!(board.halfmove_clock, 12);
    assert_eq!(board.fullmove_number, 34);
    assert_eq!(board.piece_at(Coord { x: 4, y: 4 }), Some(Piece::pawn(PieceColor::White)));
    assert_eq!(board.piece_at(Coord { x: 5, y: 4 }), Some(Piece::pawn(PieceColor::Black)));
    assert_eq!(board.piece_at(Coord { x: 0, y: 0 }), Some(Piece::rook(PieceColor::Black)));
    assert_eq!(board.piece_at(Coord { x: 7, y: 7 }), Some(Piece::rook(PieceColor::White)));
    assert_eq!(board.piece_at(Coord { x: 3, y: 3 }), None);
    assert_eq!(board.white_king, Coord { x: 4, y: 7 });
    assert_eq!(board.black_king, Coord { x: 4, y: 0 });
}

#[test]
fn fen_records_king_squares() {
    let board = Board::from_fen("8/8/2k5/8/8/8/6K1/8 w - - 0 1").unwrap();
    assert_eq!(board.white_king, Coord { x: 6, y: 6 });
    assert_eq!(board.black_king, Coord { x: 2, y: 2 });
    assert_eq!(board.white_castle, (false, false));
    assert_eq!(board.black_castle, (false, false));
}

#[test]
fn fen_fields_may_be_separated_by_any_white_space() {
    let spaced = Board::from_fen("  rnbqkbnr/pppppppp/8/8/8/8/PPPPPPPP/RNBQKBNR\tw  KQkq\n-   0 1  ").unwrap();
    assert!(spaced == Board::default());
    let extra = Board::from_fen("rnbqkbnr/pppppppp/8/8/8/8/PPPPPPPP/RNBQKBNR w KQkq - 0 1 trailing").unwrap();
    assert!(extra == Board::default());
}

#[test]
fn fen_missing_fields() {
    assert_eq!(parse_reason(""), "Lines not provided");
    assert_eq!(parse_reason("   "), "Lines not provided");
    assert_eq!(parse_reason("8/8/8/8/8/8/8/8"), "Invalid length of FEN");
    assert_eq!(parse_reason("8/8/8/8/8/8/8/8 w"), "Invalid length of FEN");
    assert_eq!(parse_reason("8/8/8/8/8/8/8/8 w -"), "Invalid length of FEN");
    assert_eq!(parse_reason("8/8/8/8/8/8/8/8 w - -"), "Missing halfmove clock");
    assert_eq!(parse_reason("8/8/8/8/8/8/8/8 w - - 0"), "Missing fullmove clock");
}

#[test]
fn fen_invalid_fields() {
    assert_eq!(parse_reason("8/8/8/8/8/8/8/7x w - - 0 1"), "Invalid character in lines");
    assert_eq!(parse_reason("8/8/8/8/8/8/8/9 w - - 0 1"), "Invalid character in lines");
    assert_eq!(parse_reason("8/8/8/8/8/8/8/8 x - - 0 1"), "Invalid turn character");
    assert_eq!(parse_reason("8/8/8/8/8/8/8/8 wb - - 0 1"), "Invalid turn character");
    assert_eq!(parse_reason("8/8/8/8/8/8/8/8 w - e9 0 1"), "Invalid notation");
    assert_eq!(parse_reason("8/8/8/8/8/8/8/8 w - e33 0 1"), "Invalid notation");
    assert_eq!(parse_reason("8/8/8/8/8/8/8/8 w - - x 1"), "Invalid halfmove clock");
    assert_eq!(parse_reason("8/8/8/8/8/8/8/8 w - - -1 1"), "Invalid halfmove clock");
    assert_eq!(parse_reason("8/8/8/8/8/8/8/8 w - - 256 1"), "Invalid halfmove clock");
    assert_eq!(parse_reason("8/8/8/8/8/8/8/8 w - - + 1"), "Invalid halfmove clock");
    assert_eq!(parse_reason("8/8/8/8/8/8/8/8 w - - 0 one"), "Invalid fullmove clock");
    assert_eq!(parse_reason("8/8/8/8/8/8/8/8 w - - 0 0"), "Invalid fullmove clock");
    assert_eq!(parse_reason("8/8/8/8/8/8/8/8 w - - 0 1000"), "Invalid fullmove clock");
}

#[test]
fn fen_first_fault_decides() {
    assert_eq!(parse_reason("8/8/8/8/8/8/8/7x y - e9 x 0"), "Invalid character in lines");
    assert_eq!(parse_reason("8/8/8/8/8/8/8/8 y - e9 x 0"), "Invalid turn character");
    assert_eq!(parse_reason("8/8/8/8/8/8/8/8 w - e9 x 0"), "Invalid notation");
    assert_eq!(parse_reason("8/8/8/8/8/8/8/8 w - e3 x 0"), "Invalid halfmove clock");
}

#[test]
fn fen_board_too_big() {
    assert_eq!(parse_reason("8/8/8/8/8/8/8/8/8 w - - 0 1"), "Board too big");
    assert_eq!(parse_reason("ppppppppp/8/8/8/8/8/8/8 w - - 0 1"), "Board too big");
    assert_eq!(parse_reason("pppppppp1/8/8/8/8/8/8/8 w - - 0 1"), "Board too big");
    assert_eq!(parse_reason("88/8/8/8/8/8/8/8 w - - 0 1"), "Board too big");
    assert_eq!(parse_reason("58/8/8/8/8/8/8/8 w - - 0 1"), "Board too big");
    assert_eq!(parse_reason("8/8/8/8/8/8/8/8/p w - - 0 1"), "Board too big");
    // A last row that runs over is only noticed by a character that follows.
    assert!(Board::from_fen("8/8/8/8/8/8/8/58 w - - 0 1").is_ok());
    assert!(Board::from_fen("8/8/8/8/8/8/8/8/ w - - 0 1").is_ok());
}

#[test]
fn fen_clocks() {
    let board = Board::from_fen("8/8/8/8/8/8/8/8 w - - +7 007").unwrap();
    assert_eq!(board.halfmove_clock, 7);
    assert_eq!(board.fullmove_number, 7);
    let board = Board::from_fen("8/8/8/8/8/8/8/8 w - - 255 255").unwrap();
    assert_eq!(board.halfmove_clock, 255);
    assert_eq!(board.fullmove_number, 255);
}

#[test]
fn fen_zero_digit_is_an_empty_run() {
    let board = Board::from_fen("k0p5/8/8/8/8/8/8/K7 w - - 0 1").unwrap();
    assert_eq!(board.piece_at(Coord { x: 0, y: 0 }), Some(Piece::king(PieceColor::Black)));
    assert_eq!(board.piece_at(Coord { x: 1, y: 0 }), Some(Piece::pawn(PieceColor::Black)));
    assert_eq!(board.piece_at(Coord { x: 2, y: 0 }), None);
}

#[test]
fn fen_castling_letters_in_any_order() {
    let board = Board::from_fen("r3k2r/8/8/8/8/8/8/R3K2R w qK - 0 1").unwrap();
    assert_eq!(board.white_castle, (true, false));
    assert_eq!(board.black_castle, (false, true));
}

#[test]
fn fen_sets_flags_for_the_position() {
    let board = Board::from_fen("rnb1kbnr/pppp1ppp/8/4p3/4P2q/5P2/PPPP2PP/RNBQKBNR w KQkq - 0 1").unwrap();
    assert_eq!(board.in_check, (true, false));
    assert_eq!(board.in_checkmate, (false, false));
    assert_eq!(board.in_stalemate, (false, false));
}
