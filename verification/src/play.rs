//! Playing a move: the relocation in its three shapes, the passing of the
//! turn, and the check, checkmate and stalemate flags that follow.

use crate::board::{Board, BoardError, Coord, Move, Square};
use crate::laws::{lemma_mover_is_safe_after_move, lemma_play_keeps_flags_settled};
use crate::legality::{has_rank_behind, rook_corner, transit_square};
use crate::notation::invalid_move_text;
use crate::pieces::PieceColor;
use vstd::prelude::*;
use vstd::string::StringExecFns;

verus! {

impl Board {
    /// The position after a castle's two relocations: the king from `from` to
    /// `to`, then the rook from its corner to the square the king crossed.
    pub open spec fn spec_castled(&self, from: Coord, to: Coord) -> Board {
        self.spec_move_piece(Move { from, to, promote: None }).spec_move_piece(
            Move { from: rook_corner(from, to), to: transit_square(from, to), promote: None },
        )
    }

    /// The position once the pieces of the move `mv` stand on their new
    /// squares, in whichever of the three shapes the move has; the turn has
    /// not passed yet.
    pub open spec fn spec_relocated(&self, mv: Move) -> Board {
        if self.spec_is_castle(mv.from, mv.to) {
            self.spec_castled(mv.from, mv.to)
        } else if self.spec_is_en_passant(mv.from, mv.to) {
            self.spec_captured_in_passing(mv.from, mv.to)
        } else {
            self.spec_move_piece(mv)
        }
    }

    /// The position with the check flag of the side to move recomputed and
    /// the other side's check flag lowered.
    pub open spec fn spec_set_check(&self) -> Board {
        Board {
            in_check: match self.turn {
                PieceColor::White => (self.spec_is_in_check(PieceColor::White), false),
                PieceColor::Black => (false, self.spec_is_in_check(PieceColor::Black)),
            },
            ..*self
        }
    }

    /// The position with the end of the game noted: where the side to move
    /// has no legal move, its checkmate flag is raised if it is flagged as in
    /// check, its stalemate flag if not. No flag is ever lowered.
    pub open spec fn spec_check_end_conditions(&self) -> Board {
        if self.spec_has_valid_moves() {
            *self
        } else {
            match self.turn {
                PieceColor::White => if self.in_check.0 {
                    Board { in_checkmate: (true, self.in_checkmate.1), ..*self }
                } else {
                    Board { in_stalemate: (true, self.in_stalemate.1), ..*self }
                },
                PieceColor::Black => if self.in_check.1 {
                    Board { in_checkmate: (self.in_checkmate.0, true), ..*self }
                } else {
                    Board { in_stalemate: (self.in_stalemate.0, true), ..*self }
                },
            }
        }
    }

    /// The position after the turn has passed to the opponent and the flags
    /// have been brought up to date.
    pub open spec fn spec_end_turn(&self) -> Board {
        (Board { turn: self.turn.spec_opposite(), ..*self }).spec_set_check()
            .spec_check_end_conditions()
    }

    /// The position after the legal move `mv` has been played.
    pub open spec fn spec_do_move(&self, mv: Move) -> Board {
        self.spec_relocated(mv).spec_end_turn()
    }

    /// Recomputes whether the side to move is in check.
    pub fn set_check(&mut self)
        ensures
            *final(self) == old(self).spec_set_check(),
    {
        self.in_check = match self.turn {
            PieceColor::White => (self.is_in_check(PieceColor::White), false),
            PieceColor::Black => (false, self.is_in_check(PieceColor::Black)),
        };
    }

    /// Raises the checkmate or the stalemate flag of the side to move where
    /// it has no legal move.
    pub fn check_end_conditions(&mut self)
        ensures
            *final(self) == old(self).spec_check_end_conditions(),
    {
        if !self.has_valid_moves() {
            match self.turn {
                PieceColor::White => {
                    if self.in_check.0 {
                        self.in_checkmate.0 = true;
                    } else {
                        self.in_stalemate.0 = true;
                    }
                },
                PieceColor::Black => {
                    if self.in_check.1 {
                        self.in_checkmate.1 = true;
                    } else {
                        self.in_stalemate.1 = true;
                    }
                },
            }
        }
    }

    pub(crate) fn end_turn(&mut self)
        ensures
            *final(self) == old(self).spec_end_turn(),
    {
        self.turn = self.turn.opposite();
        self.set_check();
        self.check_end_conditions();
    }

    pub(crate) fn do_castle(&mut self, from: Coord, to: Coord) -> (done: Result<(), BoardError>)
        requires
            from.on_board(),
            to.on_board(),
            to.x == 6 || to.x == 2,
            old(self).spec_piece_at(from) is Some,
            old(self).spec_piece_at(rook_corner(from, to)) is Some,
            from != rook_corner(from, to),
            to != rook_corner(from, to),
        ensures
            done is Ok,
            *final(self) == old(self).spec_castled(from, to),
    {
        let corner = Coord { x: if to.x == 6 { 7 } else { 0 }, y: from.y };
        let transit = Coord { x: if to.x == 6 { 5 } else { 3 }, y: from.y };
        let king_moved = self.move_piece(Move::new(from, to, None));
        if king_moved.is_err() {
            return king_moved;
        }
        self.move_piece(Move::new(corner, transit, None))
    }

    pub(crate) fn do_en_passant(&mut self, from: Coord, to: Coord) -> (done: Result<
        (),
        BoardError,
    >)
        requires
            from.on_board(),
            to.on_board(),
            old(self).spec_is_en_passant(from, to),
            has_rank_behind(old(self).spec_piece_at(from)->0.color, to),
        ensures
            done is Ok,
            *final(self) == old(self).spec_captured_in_passing(from, to),
    {
        let piece = match self.piece_at(from) {
            Some(piece) => piece,
            None => {
                return Err(BoardError::MoveError(String::from_str("Invalid en passant")));
            },
        };
        let moved = self.move_piece(Move::new(from, to, None));
        if moved.is_err() {
            return moved;
        }
        let passed = match piece.color {
            PieceColor::White => Coord { x: to.x, y: to.y + 1 },
            PieceColor::Black => Coord { x: to.x, y: to.y - 1 },
        };
        self.board[passed.y][passed.x] = Square::Empty;
        Ok(())
    }

    /// Plays `mv` if it is legal: relocates the pieces (a castle also moves
    /// the rook, an en-passant capture also removes the passed pawn), passes
    /// the turn, and brings the check, checkmate and stalemate flags up to
    /// date. The king of the side that moved is then not attacked. An illegal
    /// move is a move error and leaves the position as it was.
    pub fn do_move_from_coord(&mut self, mv: Move) -> (done: Result<(), BoardError>)
        requires
            mv.from.on_board(),
            mv.to.on_board(),
        ensures
            done is Ok <==> old(self).spec_is_valid_move(mv),
            done is Ok ==> *final(self) == old(self).spec_do_move(mv),
            done is Ok ==> final(self).turn == old(self).turn.spec_opposite(),
            done is Ok ==> !final(self).spec_is_in_check(old(self).turn),
            done is Ok && old(self).settled() ==> final(self).settled(),
            done matches Err(e) ==> *final(self) == *old(self) && e.is_move_error(
                invalid_move_text(mv.from, mv.to),
            ),
    {
        let from = mv.from;
        let to = mv.to;
        if !self.is_valid_move(mv) {
            let mut reason = String::from_str("Invalid move from ");
            reason.append(from.to_notation().as_str());
            reason.append(" to ");
            reason.append(to.to_notation().as_str());
            return Err(BoardError::MoveError(reason));
        }
        if self.is_castle(from, to) {
            let _castled = self.do_castle(from, to);
        } else if self.is_en_passant(from, to) {
            let _captured = self.do_en_passant(from, to);
        } else {
            let _moved = self.move_piece(mv);
        }
        self.end_turn();
        proof {
            lemma_mover_is_safe_after_move(*old(self), mv);
            if old(self).settled() {
                lemma_play_keeps_flags_settled(*old(self), mv);
            }
        }
        Ok(())
    }
}

} // verus!
