use chess_engine::board::Coord;
use chess_engine::pieces::{Piece, PieceColor, PieceKind};

fn c(x: usize, y: usize) -> Coord {
    Coord { x, y }
}

fn all_kinds() -> Vec<PieceKind> {
    vec![
        PieceKind::Pawn,
        PieceKind::Knight,
        PieceKind::Bishop,
        PieceKind::Rook,
        PieceKind::Queen,
        PieceKind::King,
    ]
}

#[test]
fn opposite_colors() {
    assert_eq!(PieceColor::White.opposite(), PieceColor::Black);
    assert_eq!(PieceColor::Black.opposite(), PieceColor::White);
    assert_eq!(PieceColor::White.opposite().opposite(), PieceColor::White);
}

#[test]
fn constructors() {
    assert_eq!(Piece::pawn(PieceColor::White), Piece { color: PieceColor::White, kind: PieceKind::Pawn });
    assert_eq!(Piece::knight(PieceColor::Black), Piece { color: PieceColor::Black, kind: PieceKind::Knight });
    assert_eq!(Piece::bishop(PieceColor::White), Piece { color: PieceColor::White, kind: PieceKind::Bishop });
    assert_eq!(Piece::rook(PieceColor::Black), Piece { color: PieceColor::Black, kind: PieceKind::Rook });
    assert_eq!(Piece::queen(PieceColor::White), Piece { color: PieceColor::White, kind: PieceKind::Queen });
    assert_eq!(Piece::king(PieceColor::Black), Piece { color: PieceColor::Black, kind: PieceKind::King });
}

#[test]
fn fancy_chars() {
    assert_eq!(Piece::pawn(PieceColor::White).fancy_char(), "♙");
    assert_eq!(Piece::knight(PieceColor::White).fancy_char(), "♞");
    assert_eq!(Piece::bishop(PieceColor::Black).fancy_char(), "♝");
    assert_eq!(Piece::rook(PieceColor::Black).fancy_char(), "♜");
    assert_eq!(Piece::queen(PieceColor::White).fancy_char(), "♛");
    assert_eq!(Piece::king(PieceColor::Black).fancy_char(), "♚");
}

#[test]
fn same_square_is_never_valid() {
    for kind in all_kinds() {
        for color in [PieceColor::White, PieceColor::Black] {
            let piece = Piece { color, kind };
            for y in 0..8 {
                for x in 0..8 {
                    assert!(!piece.is_valid_piece_move(c(x, y), c(x, y)));
                }
            }
        }
    }
}

#[test]
fn squares_off_the_board_are_rejected() {
    for kind in all_kinds() {
        let piece = Piece { color: PieceColor::White, kind };
        assert!(!piece.is_valid_piece_move(c(0, 0), c(0, 8)));
        assert!(!piece.is_valid_piece_move(c(0, 0), c(8, 0)));
        assert!(!piece.is_valid_piece_move(c(8, 1), c(7, 0)));
        assert!(!piece.is_valid_piece_move(c(1, 8), c(1, 7)));
        assert!(!piece.is_valid_piece_move(c(7, 7), c(8, 8)));
    }
}

#[test]
fn pawn_geometry() {
    let white = Piece::pawn(PieceColor::White);
    let black = Piece::pawn(PieceColor::Black);
    assert!(white.is_valid_piece_move(c(4, 6), c(4, 5)));
    assert!(white.is_valid_piece_move(c(4, 6), c(4, 4)));
    assert!(!white.is_valid_piece_move(c(4, 5), c(4, 3)));
    assert!(!white.is_valid_piece_move(c(4, 5), c(4, 6)));
    assert!(white.is_valid_piece_move(c(4, 5), c(3, 4)));
    assert!(white.is_valid_piece_move(c(4, 5), c(5, 4)));
    assert!(!white.is_valid_piece_move(c(4, 5), c(5, 5)));
    assert!(!white.is_valid_piece_move(c(4, 0), c(4, 1)));
    assert!(black.is_valid_piece_move(c(4, 1), c(4, 2)));
    assert!(black.is_valid_piece_move(c(4, 1), c(4, 3)));
    assert!(!black.is_valid_piece_move(c(4, 2), c(4, 4)));
    assert!(!black.is_valid_piece_move(c(4, 2), c(4, 1)));
    assert!(black.is_valid_piece_move(c(4, 2), c(3, 3)));
    assert!(black.is_valid_piece_move(c(4, 2), c(5, 3)));
}

#[test]
fn other_geometry() {
    let knight = Piece::knight(PieceColor::White);
    assert!(knight.is_valid_piece_move(c(1, 7), c(2, 5)));
    assert!(knight.is_valid_piece_move(c(1, 7), c(3, 6)));
    assert!(!knight.is_valid_piece_move(c(1, 7), c(3, 5)));
    let bishop = Piece::bishop(PieceColor::White);
    assert!(bishop.is_valid_piece_move(c(2, 7), c(7, 2)));
    assert!(!bishop.is_valid_piece_move(c(2, 7), c(2, 2)));
    let rook = Piece::rook(PieceColor::White);
    assert!(rook.is_valid_piece_move(c(0, 7), c(0, 0)));
    assert!(rook.is_valid_piece_move(c(0, 7), c(7, 7)));
    assert!(!rook.is_valid_piece_move(c(0, 7), c(1, 6)));
    let queen = Piece::queen(PieceColor::White);
    assert!(queen.is_valid_piece_move(c(3, 7), c(3, 0)));
    assert!(queen.is_valid_piece_move(c(3, 7), c(0, 4)));
    assert!(!queen.is_valid_piece_move(c(3, 7), c(4, 5)));
    let king = Piece::king(PieceColor::White);
    assert!(king.is_valid_piece_move(c(4, 7), c(5, 6)));
    assert!(king.is_valid_piece_move(c(4, 7), c(6, 7)));
    assert!(king.is_valid_piece_move(c(4, 7), c(2, 7)));
    assert!(king.is_valid_piece_move(c(4, 0), c(6, 0)));
    assert!(!king.is_valid_piece_move(c(4, 6), c(6, 6)));
    assert!(!king.is_valid_piece_move(c(3, 7), c(5, 7)));
    assert!(!king.is_valid_piece_move(c(4, 7), c(4, 5)));
}

#[test]
fn pawn_candidates() {
    let white = Piece::pawn(PieceColor::White);
    assert_eq!(white.list_possible_moves(c(4, 6)), vec![c(4, 5), c(4, 4), c(3, 5), c(5, 5)]);
    assert_eq!(white.list_possible_moves(c(0, 3)), vec![c(0, 2), c(1, 2)]);
    assert_eq!(white.list_possible_moves(c(7, 0)), Vec::<Coord>::new());
    let black = Piece::pawn(PieceColor::Black);
    assert_eq!(black.list_possible_moves(c(4, 1)), vec![c(4, 2), c(4, 3), c(3, 2), c(5, 2)]);
    assert_eq!(black.list_possible_moves(c(7, 4)), vec![c(7, 5), c(6, 5)]);
    assert_eq!(black.list_possible_moves(c(2, 7)), Vec::<Coord>::new());
}

#[test]
fn knight_candidates() {
    let knight = Piece::knight(PieceColor::White);
    assert_eq!(knight.list_possible_moves(c(0, 0)), vec![c(2, 1), c(1, 2)]);
    assert_eq!(
        knight.list_possible_moves(c(4, 4)),
        vec![c(6, 5), c(2, 3), c(6, 3), c(2, 5), c(5, 6), c(3, 2), c(5, 2), c(3, 6)]
    );
}

#[test]
fn sliding_candidates() {
    let bishop = Piece::bishop(PieceColor::White);
    assert_eq!(
        bishop.list_possible_moves(c(1, 1)),
        vec![c(2, 2), c(3, 3), c(4, 4), c(5, 5), c(6, 6), c(7, 7), c(0, 0), c(2, 0), c(0, 2)]
    );
    let rook = Piece::rook(PieceColor::Black);
    assert_eq!(
        rook.list_possible_moves(c(6, 1)),
        vec![
            c(7, 1), c(5, 1), c(4, 1), c(3, 1), c(2, 1), c(1, 1), c(0, 1),
            c(6, 2), c(6, 3), c(6, 4), c(6, 5), c(6, 6), c(6, 7), c(6, 0)
        ]
    );
    let queen = Piece::queen(PieceColor::White);
    let mut expected = bishop.list_possible_moves(c(3, 4));
    expected.extend(rook.list_possible_moves(c(3, 4)));
    assert_eq!(queen.list_possible_moves(c(3, 4)), expected);
    assert_eq!(queen.list_possible_moves(c(3, 4)).len(), 27);
}

#[test]
fn king_candidates() {
    let king = Piece::king(PieceColor::White);
    assert_eq!(
        king.list_possible_moves(c(4, 7)),
        vec![c(4, 6), c(5, 7), c(5, 6), c(3, 7), c(3, 6), c(6, 7), c(2, 7)]
    );
    assert_eq!(
        king.list_possible_moves(c(4, 0)),
        vec![c(4, 1), c(5, 0), c(5, 1), c(3, 0), c(3, 1), c(6, 0), c(2, 0)]
    );
    assert_eq!(king.list_possible_moves(c(0, 0)), vec![c(0, 1), c(1, 0), c(1, 1)]);
    assert_eq!(king.list_possible_moves(c(3, 3)).len(), 8);
}

#[test]
fn candidates_are_exactly_the_valid_destinations() {
    for kind in all_kinds() {
        for color in [PieceColor::White, PieceColor::Black] {
            let piece = Piece { color, kind };
            for fy in 0..8 {
                for fx in 0..8 {
                    let from = c(fx, fy);
                    let listed = piece.list_possible_moves(from);
                    for (i, a) in listed.iter().enumerate() {
                        assert!(!listed[..i].contains(a));
                    }
                    for ty in 0..8 {
                        for tx in 0..8 {
                            let to = c(tx, ty);
                            assert_eq!(listed.contains(&to), piece.is_valid_piece_move(from, to));
                        }
                    }
                }
            }
        }
    }
}
