//! What holds of every position and every move: facts about the functions
//! of [`crate::legality`] and [`crate::play`], each proved from their
//! definitions.

use crate::board::{Board, Coord, Move, Square};
use crate::legality::{rook_corner, transit_square};
use crate::pieces::{Piece, PieceColor, PieceKind};
use vstd::prelude::*;

verus! {

impl Board {
    /// The two boards show the same position: grid, turn, recorded kings,
    /// castling rights, en-passant target and check flags agree. Clocks and
    /// the checkmate and stalemate flags may differ.
    pub open spec fn same_position(&self, other: Board) -> bool {
        &&& self.board == other.board
        &&& self.turn == other.turn
        &&& self.white_king == other.white_king
        &&& self.black_king == other.black_king
        &&& self.white_castle == other.white_castle
        &&& self.black_castle == other.black_castle
        &&& self.en_passant == other.en_passant
        &&& self.in_check == other.in_check
    }

    /// The castling right of the side to move toward file `to.x`.
    pub open spec fn right_toward(&self, to: Coord) -> bool {
        match self.turn {
            PieceColor::White => if to.x == 6 {
                self.white_castle.0
            } else {
                self.white_castle.1
            },
            PieceColor::Black => if to.x == 6 {
                self.black_castle.0
            } else {
                self.black_castle.1
            },
        }
    }

    /// The flags tell the truth about the position: the side to move is
    /// flagged as in check exactly when its king is attacked, as checkmated
    /// exactly when it is in check and has no legal move, as stalemated
    /// exactly when it is not in check and has no legal move; no flag of the
    /// other side is raised.
    pub open spec fn settled(&self) -> bool {
        let (check, mate, stale, other_check, other_mate, other_stale) = match self.turn {
            PieceColor::White => (
                self.in_check.0,
                self.in_checkmate.0,
                self.in_stalemate.0,
                self.in_check.1,
                self.in_checkmate.1,
                self.in_stalemate.1,
            ),
            PieceColor::Black => (
                self.in_check.1,
                self.in_checkmate.1,
                self.in_stalemate.1,
                self.in_check.0,
                self.in_checkmate.0,
                self.in_stalemate.0,
            ),
        };
        &&& check == self.spec_is_in_check(self.turn)
        &&& mate == (check && !self.spec_has_valid_moves())
        &&& stale == (!check && !self.spec_has_valid_moves())
        &&& !other_check
        &&& !other_mate
        &&& !other_stale
    }
}

/// Whether a piece reaches a square depends on the grid and the en-passant
/// target alone.
pub proof fn lemma_attack_reads_grid(a: Board, b: Board, from: Coord, to: Coord)
    requires
        a.board == b.board,
        a.en_passant == b.en_passant,
    ensures
        a.spec_can_attack_square(from, to) == b.spec_can_attack_square(from, to),
{
}

/// Whether a king stands attacked depends on the grid, the en-passant target
/// and the recorded king squares alone.
pub proof fn lemma_check_reads_grid(a: Board, b: Board, color: PieceColor)
    requires
        a.board == b.board,
        a.en_passant == b.en_passant,
        a.white_king == b.white_king,
        a.black_king == b.black_king,
    ensures
        a.spec_is_in_check(color) == b.spec_is_in_check(color),
{
    assert forall|c: Coord| a.threatens(c, color) == b.threatens(c, color) by {
        lemma_attack_reads_grid(a, b, c, a.king_of(color));
    }
}

/// Boards that show the same position have the same legal moves.
pub proof fn lemma_legality_reads_position(a: Board, b: Board, mv: Move)
    requires
        a.same_position(b),
    ensures
        a.spec_is_valid_move(mv) == b.spec_is_valid_move(mv),
{
    lemma_safe_step_reads_position(a, b, mv);
    lemma_safe_step_reads_position(
        a,
        b,
        Move { from: mv.from, to: transit_square(mv.from, mv.to), promote: None },
    );
}

proof fn lemma_safe_step_reads_position(a: Board, b: Board, mv: Move)
    requires
        a.same_position(b),
    ensures
        a.spec_is_safe_step(mv) == b.spec_is_safe_step(mv),
{
    lemma_attack_reads_grid(a, b, mv.from, mv.to);
    lemma_check_reads_grid(a.spec_move_piece(mv), b.spec_move_piece(mv), a.turn);
    lemma_check_reads_grid(
        a.spec_captured_in_passing(mv.from, mv.to),
        b.spec_captured_in_passing(mv.from, mv.to),
        a.turn,
    );
}

/// Boards that show the same position agree on whether the side to move
/// has a legal move.
pub proof fn lemma_has_moves_reads_position(a: Board, b: Board)
    requires
        a.same_position(b),
    ensures
        a.spec_has_valid_moves() == b.spec_has_valid_moves(),
{
    assert forall|mv: Move| a.spec_is_valid_move(mv) == b.spec_is_valid_move(mv) by {
        lemma_legality_reads_position(a, b, mv);
    }
}

/// For a move that is no castle, legality has tried the very position that
/// the move brings about.
proof fn lemma_mover_is_safe_after_plain_move(board: Board, mv: Move)
    requires
        board.spec_is_valid_move(mv),
        !board.spec_is_castle(mv.from, mv.to),
    ensures
        !board.spec_do_move(mv).spec_is_in_check(board.turn),
{
    lemma_check_reads_grid(board.spec_relocated(mv), board.spec_do_move(mv), board.turn);
}

/// The rook's part of a castle opens no line to the king's new square.
proof fn lemma_mover_is_safe_after_castle(board: Board, mv: Move)
    requires
        mv.from.on_board(),
        board.spec_is_valid_move(mv),
        board.spec_is_castle(mv.from, mv.to),
    ensures
        !board.spec_do_move(mv).spec_is_in_check(board.turn),
{
    let corner = rook_corner(mv.from, mv.to);
    let transit = transit_square(mv.from, mv.to);
    let rook_move = Move { from: corner, to: transit, promote: None };
    let king_moved = board.spec_move_piece(mv);
    let both_moved = king_moved.spec_move_piece(rook_move);
    let king = mv.to;
    lemma_castle_needs(board, mv);
    board.lemma_move_piece_squares(mv, corner);
    assert forall|c: Coord| !#[trigger] both_moved.threatens(c, board.turn) by {
        if both_moved.threatens(c, board.turn) {
            king_moved.lemma_move_piece_squares(rook_move, c);
            king_moved.lemma_move_piece_squares(rook_move, king);
            assert(king_moved.square(c) == both_moved.square(c));
            if king_moved.spec_piece_at(c)->0.kind != PieceKind::Knight
                && king_moved.spec_move_blocked(c, king) {
                let k = choose|k: int|
                    0 < k < crate::legality::span(c, king) && king_moved.square(
                        #[trigger] crate::legality::toward(c, king, k),
                    ) != Square::Empty;
                let between = crate::legality::toward(c, king, k);
                king_moved.lemma_move_piece_squares(rook_move, between);
                assert(between != corner);
                assert(both_moved.square(between) != Square::Empty);
                assert(both_moved.spec_move_blocked(c, king));
            }
            assert(king_moved.threatens(c, board.turn));
        }
    }
    lemma_check_reads_grid(both_moved, board.spec_do_move(mv), board.turn);
}

/// After a legal move the king of the side that moved is not attacked,
/// whatever the shape of the move: ordinary move, castle or en-passant
/// capture.
pub proof fn lemma_mover_is_safe_after_move(board: Board, mv: Move)
    requires
        board.spec_is_valid_move(mv),
    ensures
        !board.spec_relocated(mv).spec_is_in_check(board.turn),
        !board.spec_do_move(mv).spec_is_in_check(board.turn),
{
    if board.spec_is_castle(mv.from, mv.to) {
        lemma_mover_is_safe_after_castle(board, mv);
    } else {
        lemma_mover_is_safe_after_plain_move(board, mv);
    }
    lemma_check_reads_grid(board.spec_relocated(mv), board.spec_do_move(mv), board.turn);
}

/// A move that is no castle is legal exactly when a piece of the side to
/// move makes it, the piece reaches the destination, and the mover's king is
/// not attacked in the position that the move brings about. So a move that
/// ends a check is legal even where it does so by removing the passed pawn.
pub proof fn lemma_legal_means_reaching_and_safe(board: Board, mv: Move)
    requires
        !board.spec_is_castle(mv.from, mv.to),
    ensures
        board.spec_is_valid_move(mv) <==> {
            &&& board.spec_piece_at(mv.from) is Some
            &&& board.spec_piece_at(mv.from)->0.color == board.turn
            &&& board.spec_can_attack_square(mv.from, mv.to)
            &&& !board.spec_relocated(mv).spec_is_in_check(board.turn)
        },
{
}

/// A move that would leave the mover's own king attacked is never legal,
/// whatever kind of piece makes it and whatever shape the move has: neither
/// where the trial of the move finds the king attacked, nor where the king
/// is attacked in the position that the move would bring about.
pub proof fn lemma_exposing_move_is_rejected(board: Board, mv: Move)
    requires
        board.spec_would_be_in_check(mv) || board.spec_relocated(mv).spec_is_in_check(
            board.turn,
        ),
    ensures
        !board.spec_is_valid_move(mv),
        !board.spec_list_all_valid_moves().contains(mv),
{
    board.lemma_listed_moves_are_the_legal_moves(mv);
    if board.spec_is_valid_move(mv) {
        lemma_mover_is_safe_after_move(board, mv);
    }
}

/// A legal move passes the turn to the opponent, once.
pub proof fn lemma_legal_move_passes_the_turn(board: Board, mv: Move)
    requires
        board.spec_is_valid_move(mv),
    ensures
        board.spec_do_move(mv).turn == board.turn.spec_opposite(),
        board.spec_do_move(mv).turn != board.turn,
{
}

/// Recomputing the check flag and noting the end of the game settles the
/// flags, if no checkmate or stalemate flag was raised before.
pub proof fn lemma_flags_settle(board: Board)
    requires
        board.in_checkmate == (false, false),
        board.in_stalemate == (false, false),
    ensures
        board.spec_set_check().spec_check_end_conditions().settled(),
{
    let checked = board.spec_set_check();
    let ended = checked.spec_check_end_conditions();
    lemma_check_reads_grid(board, ended, ended.turn);
    lemma_has_moves_reads_position(checked, ended);
}

/// Passing the turn settles the flags, if no checkmate or stalemate flag
/// was raised before.
pub proof fn lemma_end_turn_settles(board: Board)
    requires
        board.in_checkmate == (false, false),
        board.in_stalemate == (false, false),
    ensures
        board.spec_end_turn().settled(),
{
    lemma_flags_settle(Board { turn: board.turn.spec_opposite(), ..board });
}

/// Where the flags are settled, a legal move leaves them settled: the
/// position that follows flags its side to move as in check, checkmated or
/// stalemated exactly when it is.
pub proof fn lemma_play_keeps_flags_settled(board: Board, mv: Move)
    requires
        board.settled(),
        board.spec_is_valid_move(mv),
        mv.from.on_board(),
    ensures
        board.spec_do_move(mv).settled(),
{
    lemma_end_turn_settles(board.spec_relocated(mv));
}

/// In a settled position, a side flagged as checkmated is in check and has
/// no legal move; a side flagged as stalemated is not in check and has no
/// legal move; and the list of all valid moves is then empty.
pub proof fn lemma_settled_flags_mean_what_they_say(board: Board)
    requires
        board.settled(),
    ensures
        board.spec_get_checkmate() ==> board.spec_get_check() && board.spec_is_in_check(board.turn)
            && board.spec_list_all_valid_moves().len() == 0,
        board.spec_get_stalemate() ==> !board.spec_get_check() && !board.spec_is_in_check(
            board.turn,
        ) && board.spec_list_all_valid_moves().len() == 0,
        !board.spec_has_valid_moves() && !board.spec_is_in_check(board.turn)
            ==> board.spec_get_stalemate() && !board.spec_get_checkmate(),
        !board.spec_has_valid_moves() && board.spec_is_in_check(board.turn)
            ==> board.spec_get_checkmate() && !board.spec_get_stalemate(),
{
    board.lemma_has_moves_iff_list_not_empty();
}

/// A legal castle needs the right on that side intact, the mover not flagged
/// as in check (so, where the flags are settled, not in check), the rook of
/// the mover's colour on its corner, the square that the king crosses empty,
/// and the king unattacked both on that square and on the square it reaches.
pub proof fn lemma_castle_needs(board: Board, mv: Move)
    requires
        board.spec_is_castle(mv.from, mv.to),
        board.spec_is_valid_move(mv),
    ensures
        board.right_toward(mv.to),
        !board.spec_get_check(),
        board.settled() ==> !board.spec_is_in_check(board.turn),
        board.spec_piece_at(rook_corner(mv.from, mv.to)) == Some(
            Piece { color: board.turn, kind: PieceKind::Rook },
        ),
        board.square(transit_square(mv.from, mv.to)) == Square::Empty,
        !board.spec_move_piece(
            Move { from: mv.from, to: transit_square(mv.from, mv.to), promote: None },
        ).spec_is_in_check(board.turn),
        !board.spec_move_piece(mv).spec_is_in_check(board.turn),
{
    assert(crate::legality::toward(mv.from, mv.to, 1) == transit_square(mv.from, mv.to));
}

/// Without the right on that side, or while flagged as in check, no castle
/// is legal.
pub proof fn lemma_no_castle_without_right(board: Board, mv: Move)
    requires
        board.spec_is_castle(mv.from, mv.to),
        !board.right_toward(mv.to) || board.spec_get_check(),
    ensures
        !board.spec_is_valid_move(mv),
{
}

/// No move restores a castling right: a right that holds after a legal move
/// held before it.
pub proof fn lemma_rights_never_return(board: Board, mv: Move)
    requires
        board.spec_is_valid_move(mv),
    ensures
        board.spec_do_move(mv).white_castle.0 ==> board.white_castle.0,
        board.spec_do_move(mv).white_castle.1 ==> board.white_castle.1,
        board.spec_do_move(mv).black_castle.0 ==> board.black_castle.0,
        board.spec_do_move(mv).black_castle.1 ==> board.black_castle.1,
{
}

/// A legal move of the king (a castle included) revokes both castling rights
/// of its side; a legal move of a rook from a home corner revokes the right
/// on that side.
pub proof fn lemma_moving_king_or_rook_revokes(board: Board, mv: Move)
    requires
        board.spec_is_valid_move(mv),
    ensures
        ({
            let piece = board.spec_piece_at(mv.from)->0;
            let after = board.spec_do_move(mv);
            let rights = match board.turn {
                PieceColor::White => after.white_castle,
                PieceColor::Black => after.black_castle,
            };
            let home: int = match board.turn {
                PieceColor::White => 7,
                PieceColor::Black => 0,
            };
            &&& piece.kind == PieceKind::King ==> rights == (false, false)
            &&& piece.kind == PieceKind::Rook && mv.from.y == home && mv.from.x == 7 ==> !rights.0
            &&& piece.kind == PieceKind::Rook && mv.from.y == home && mv.from.x == 0 ==> !rights.1
        }),
{
}

/// The position after the moves of `moves` have been tried in order: each
/// legal one is played, each illegal one changes nothing.
pub open spec fn spec_play_all(board: Board, moves: Seq<Move>) -> Board
    decreases moves.len(),
{
    if moves.len() == 0 {
        board
    } else {
        let before = spec_play_all(board, moves.drop_last());
        if before.spec_is_valid_move(moves.last()) {
            before.spec_do_move(moves.last())
        } else {
            before
        }
    }
}

/// However a game goes on, a castling right that is gone stays gone: a
/// right that holds after any sequence of moves held before it.
pub proof fn lemma_rights_are_lost_for_good(board: Board, moves: Seq<Move>)
    ensures
        spec_play_all(board, moves).white_castle.0 ==> board.white_castle.0,
        spec_play_all(board, moves).white_castle.1 ==> board.white_castle.1,
        spec_play_all(board, moves).black_castle.0 ==> board.black_castle.0,
        spec_play_all(board, moves).black_castle.1 ==> board.black_castle.1,
    decreases moves.len(),
{
    if moves.len() > 0 {
        let before = spec_play_all(board, moves.drop_last());
        lemma_rights_are_lost_for_good(board, moves.drop_last());
        if before.spec_is_valid_move(moves.last()) {
            lemma_rights_never_return(before, moves.last());
        }
    }
}

/// An en-passant capture takes the passed pawn off its own square, one rank
/// behind the destination, and puts the capturing pawn on the destination.
pub proof fn lemma_en_passant_removes_passed_pawn(board: Board, mv: Move)
    requires
        mv.from.on_board(),
        board.spec_is_valid_move(mv),
        board.spec_is_en_passant(mv.from, mv.to),
    ensures
        ({
            let pawn = board.spec_piece_at(mv.from)->0;
            let after = board.spec_do_move(mv);
            let passed = crate::legality::passed_pawn_square(pawn.color, mv.to);
            &&& passed.on_board()
            &&& passed != mv.to
            &&& after.square(passed) == Square::Empty
            &&& after.square(mv.from) == Square::Empty
            &&& after.square(mv.to) == Square::Occupied(Board::arriving(pawn, mv.from, mv.to))
        }),
{
    let pawn = board.spec_piece_at(mv.from)->0;
    let passed = crate::legality::passed_pawn_square(pawn.color, mv.to);
    let moved = board.spec_move_piece(mv);
    board.lemma_move_piece_squares(mv, passed);
    board.lemma_move_piece_squares(mv, mv.from);
    board.lemma_move_piece_squares(mv, mv.to);
    moved.lemma_with_square(passed, Square::Empty, passed);
    moved.lemma_with_square(passed, Square::Empty, mv.from);
    moved.lemma_with_square(passed, Square::Empty, mv.to);
}

/// After a legal move the en-passant target is the square that a pawn has
/// just passed over in a two-rank advance from its starting rank; after
/// every other move there is none.
pub proof fn lemma_en_passant_target_after_move(board: Board, mv: Move)
    requires
        board.spec_is_valid_move(mv),
    ensures
        ({
            let piece = board.spec_piece_at(mv.from)->0;
            let start: int = match piece.color {
                PieceColor::White => 6,
                PieceColor::Black => 1,
            };
            let passed: int = match piece.color {
                PieceColor::White => 5,
                PieceColor::Black => 2,
            };
            let double_step = piece.kind == PieceKind::Pawn && mv.from.y == start
                && crate::pieces::distance(mv.from.y as int, mv.to.y as int) == 2;
            &&& double_step ==> board.spec_do_move(mv).en_passant == Some(
                Coord { x: mv.from.x, y: passed as usize },
            )
            &&& !double_step ==> board.spec_do_move(mv).en_passant is None
        }),
{
}

/// The cell holds a king.
pub open spec fn holds_king(content: Square) -> bool {
    content matches Square::Occupied(piece) && piece.kind == PieceKind::King
}

impl Board {
    /// Each side has exactly one king on the board, and it stands on the
    /// square recorded for it.
    pub open spec fn kings_in_place(&self) -> bool {
        &&& self.white_king.on_board()
        &&& self.black_king.on_board()
        &&& forall|c: Coord|
            c.on_board() ==> (#[trigger] self.square(c) == Square::Occupied(
                Piece { color: PieceColor::White, kind: PieceKind::King },
            ) <==> c == self.white_king)
        &&& forall|c: Coord|
            c.on_board() ==> (#[trigger] self.square(c) == Square::Occupied(
                Piece { color: PieceColor::Black, kind: PieceKind::King },
            ) <==> c == self.black_king)
    }
}

/// The recorded king squares stay in step with the grid: where each side
/// has its one king on its recorded square, the same holds after any legal
/// move that takes no king, be it an ordinary move, a castle or an en-passant
/// capture.
pub proof fn lemma_kings_stay_in_place(board: Board, mv: Move)
    requires
        board.kings_in_place(),
        mv.from.on_board(),
        board.spec_is_valid_move(mv),
        !holds_king(board.square(mv.to)),
        board.spec_is_en_passant(mv.from, mv.to) ==> !holds_king(
            board.square(
                crate::legality::passed_pawn_square(board.spec_piece_at(mv.from)->0.color, mv.to),
            ),
        ),
    ensures
        board.spec_do_move(mv).kings_in_place(),
{
    let piece = board.spec_piece_at(mv.from)->0;
    let after = board.spec_do_move(mv);
    let moved = board.spec_move_piece(mv);
    if board.spec_is_castle(mv.from, mv.to) {
        lemma_castle_needs(board, mv);
        let corner = rook_corner(mv.from, mv.to);
        let transit = transit_square(mv.from, mv.to);
        let rook_move = Move { from: corner, to: transit, promote: None };
        let rook = Piece { color: board.turn, kind: PieceKind::Rook };
        board.lemma_move_piece_squares(mv, corner);
        assert forall|c: Coord| c.on_board() implies #[trigger] after.square(c) == (if c
            == transit {
            Square::Occupied(rook)
        } else if c == corner {
            Square::Empty
        } else if c == mv.to {
            Square::Occupied(piece)
        } else if c == mv.from {
            Square::Empty
        } else {
            board.square(c)
        }) by {
            board.lemma_move_piece_squares(mv, c);
            moved.lemma_move_piece_squares(rook_move, c);
        }
    } else if board.spec_is_en_passant(mv.from, mv.to) {
        let passed = crate::legality::passed_pawn_square(piece.color, mv.to);
        assert forall|c: Coord| c.on_board() implies #[trigger] after.square(c) == (if c
            == passed {
            Square::Empty
        } else if c == mv.to {
            Square::Occupied(Board::arriving(piece, mv.from, mv.to))
        } else if c == mv.from {
            Square::Empty
        } else {
            board.square(c)
        }) by {
            board.lemma_move_piece_squares(mv, c);
            moved.lemma_with_square(passed, Square::Empty, c);
        }
    } else {
        assert forall|c: Coord| c.on_board() implies #[trigger] after.square(c) == (if c
            == mv.to {
            Square::Occupied(Board::arriving(piece, mv.from, mv.to))
        } else if c == mv.from {
            Square::Empty
        } else {
            board.square(c)
        }) by {
            board.lemma_move_piece_squares(mv, c);
        }
    }
}

/// The starting position is in order: each king stands on its recorded
/// square, nobody is in check, White has a move, and the flags say so.
pub proof fn lemma_start_is_in_order(board: Board)
    requires
        board.fresh_state(),
        forall|c: Coord| c.on_board() ==> board.square(c) == crate::board::start_square(c),
    ensures
        board.kings_in_place(),
        board.settled(),
        board.spec_has_valid_moves(),
        !board.spec_is_in_check(PieceColor::White),
{
    // No black piece reaches e1 from its starting square.
    assert forall|c: Coord| !#[trigger] board.threatens(c, PieceColor::White) by {}
    // The pawn's step from e2 to e3 is legal: it uncovers nothing.
    let from = Coord { x: 4, y: 6 };
    let step = Move { from, to: Coord { x: 4, y: 5 }, promote: None };
    let after = board.spec_move_piece(step);
    assert(board.square(from) == crate::board::start_square(from));
    assert forall|c: Coord| !#[trigger] after.threatens(c, PieceColor::White) by {
        if c.on_board() {
            board.lemma_move_piece_squares(step, c);
        }
    }
    assert(board.spec_is_valid_move(step));
}

} // verus!
