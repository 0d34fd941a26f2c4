//! Which moves are legal in a position: occupancy, blocking, pawn captures,
//! castling, en passant, and the safety of the mover's own king.

use crate::board::{Board, Coord, Move, Square};
use crate::pieces::{distance, gap, shift, Piece, PieceColor, PieceKind};
use vstd::prelude::*;

verus! {

/// The two squares share a file, a rank or a diagonal.
pub open spec fn aligned(from: Coord, to: Coord) -> bool {
    ||| from.x == to.x
    ||| from.y == to.y
    ||| distance(from.x as int, to.x as int) == distance(from.y as int, to.y as int)
}

/// How many steps a piece takes from `from` to `to` along their common line.
pub open spec fn span(from: Coord, to: Coord) -> int {
    if distance(from.x as int, to.x as int) >= distance(from.y as int, to.y as int) {
        distance(from.x as int, to.x as int)
    } else {
        distance(from.y as int, to.y as int)
    }
}

/// The square `k` steps from `from` on the way to `to`.
pub open spec fn toward(from: Coord, to: Coord, k: int) -> Coord {
    Coord {
        x: shift(from.x as int, to.x - from.x, k) as usize,
        y: shift(from.y as int, to.y - from.y, k) as usize,
    }
}

/// The square the king crosses when it castles from `from` toward file `to.x`.
pub open spec fn transit_square(from: Coord, to: Coord) -> Coord {
    Coord { x: if to.x == 6 { 5 } else { 3 }, y: from.y }
}

/// The corner from which the rook joins a castle toward file `to.x`.
pub open spec fn rook_corner(from: Coord, to: Coord) -> Coord {
    Coord { x: if to.x == 6 { 7 } else { 0 }, y: from.y }
}

/// The board has a rank behind `to`, seen from the side of `color`: the rank
/// on which a pawn that `color` captures in passing onto `to` stands.
pub open spec fn has_rank_behind(color: PieceColor, to: Coord) -> bool {
    match color {
        PieceColor::White => to.y < 7,
        PieceColor::Black => to.y > 0,
    }
}

/// The square of the pawn that an en-passant capture by `color` onto `to`
/// removes: one rank behind `to`, seen from the capturing side. Meaningful
/// where [`has_rank_behind`] holds.
pub open spec fn passed_pawn_square(color: PieceColor, to: Coord) -> Coord {
    match color {
        PieceColor::White => Coord { x: to.x, y: (to.y + 1) as usize },
        PieceColor::Black => Coord { x: to.x, y: (to.y - 1) as usize },
    }
}

impl Board {
    /// The recorded square of the king of `color`.
    pub open spec fn king_of(&self, color: PieceColor) -> Coord {
        match color {
            PieceColor::White => self.white_king,
            PieceColor::Black => self.black_king,
        }
    }

    /// Some square strictly between `from` and `to` is occupied.
    pub open spec fn spec_move_blocked(&self, from: Coord, to: Coord) -> bool {
        exists|k: int|
            0 < k < span(from, to) && self.square(#[trigger] toward(from, to, k)) != Square::Empty
    }

    /// Whether a piece stands strictly between two squares. The squares must
    /// share a file, a rank or a diagonal.
    #[verifier::when_used_as_spec(spec_move_blocked)]
    pub fn move_blocked(&self, from: Coord, to: Coord) -> (blocked: bool)
        requires
            from.on_board(),
            to.on_board(),
            aligned(from, to),
        ensures
            blocked == self.spec_move_blocked(from, to),
    {
        let dx: usize = gap(from.x, to.x);
        let dy: usize = gap(from.y, to.y);
        let steps: usize = if dx >= dy {
            dx
        } else {
            dy
        };
        let mut k: usize = 1;
        while k < steps
            invariant
                from.on_board(),
                to.on_board(),
                aligned(from, to),
                steps == span(from, to),
                1 <= k,
                forall|j: int|
                    0 < j < k ==> self.square(#[trigger] toward(from, to, j)) == Square::Empty,
            decreases steps - k,
        {
            let x: usize = if to.x > from.x {
                from.x + k
            } else if to.x < from.x {
                from.x - k
            } else {
                from.x
            };
            let y: usize = if to.y > from.y {
                from.y + k
            } else if to.y < from.y {
                from.y - k
            } else {
                from.y
            };
            assert(Coord { x, y } == toward(from, to, k as int));
            match self.board[y][x] {
                Square::Occupied(_) => {
                    return true;
                },
                Square::Empty => {},
            }
            k = k + 1;
        }
        false
    }

    /// The piece on `from` could move to `to` if its own king's safety were
    /// no concern: the geometry fits, `to` holds no piece of the same colour,
    /// a pawn moves diagonally only onto an enemy or onto the en-passant
    /// target and straight only onto an empty square, and, but for a knight,
    /// nothing stands in between.
    pub open spec fn spec_can_attack_square(&self, from: Coord, to: Coord) -> bool {
        match self.spec_piece_at(from) {
            None => false,
            Some(piece) => {
                &&& piece.spec_is_valid_piece_move(from, to)
                &&& match self.spec_piece_at(to) {
                    Some(target) => target.color != piece.color && !(piece.kind == PieceKind::Pawn
                        && to.x == from.x),
                    None => piece.kind == PieceKind::Pawn && to.x != from.x ==> self.en_passant
                        == Some(to),
                }
                &&& piece.kind != PieceKind::Knight ==> !self.spec_move_blocked(from, to)
            },
        }
    }

    /// Whether the piece on `from` reaches `to`, by a move or a capture,
    /// leaving aside whose turn it is and whether the mover's king is safe.
    #[verifier::when_used_as_spec(spec_can_attack_square)]
    pub fn can_attack_square(&self, from: Coord, to: Coord) -> (can: bool)
        requires
            from.on_board(),
        ensures
            can == self.spec_can_attack_square(from, to),
    {
        let piece = match self.piece_at(from) {
            Some(piece) => piece,
            None => {
                return false;
            },
        };
        if !piece.is_valid_piece_move(from, to) {
            return false;
        }
        let is_pawn: bool = match piece.kind {
            PieceKind::Pawn => true,
            _ => false,
        };
        match self.piece_at(to) {
            Some(target) => {
                if target.color == piece.color {
                    return false;
                }
                if is_pawn && to.x == from.x {
                    return false;
                }
            },
            None => {
                if is_pawn && to.x != from.x {
                    match self.en_passant {
                        Some(target) => {
                            if target != to {
                                return false;
                            }
                        },
                        None => {
                            return false;
                        },
                    }
                }
            },
        }
        let is_knight: bool = match piece.kind {
            PieceKind::Knight => true,
            _ => false,
        };
        if !is_knight && self.move_blocked(from, to) {
            return false;
        }
        true
    }

    /// The piece on `c` is an enemy of `color` that reaches the recorded
    /// square of the king of `color`.
    pub open spec fn threatens(&self, c: Coord, color: PieceColor) -> bool {
        &&& c.on_board()
        &&& self.spec_piece_at(c) is Some
        &&& self.spec_piece_at(c)->0.color != color
        &&& self.spec_can_attack_square(c, self.king_of(color))
    }

    /// Some enemy piece reaches the king of `color`.
    pub open spec fn spec_is_in_check(&self, color: PieceColor) -> bool {
        exists|c: Coord| #[trigger] self.threatens(c, color)
    }

    /// Whether the king of `color` stands attacked.
    #[verifier::when_used_as_spec(spec_is_in_check)]
    pub fn is_in_check(&self, color: PieceColor) -> (attacked: bool)
        ensures
            attacked == self.spec_is_in_check(color),
    {
        let king = match color {
            PieceColor::White => self.white_king,
            PieceColor::Black => self.black_king,
        };
        let mut y: usize = 0;
        while y < 8
            invariant
                y <= 8,
                king == self.king_of(color),
                forall|c: Coord| c.y < y ==> !#[trigger] self.threatens(c, color),
            decreases 8 - y,
        {
            let mut x: usize = 0;
            while x < 8
                invariant
                    y < 8,
                    x <= 8,
                    king == self.king_of(color),
                    forall|c: Coord| c.y < y ==> !#[trigger] self.threatens(c, color),
                    forall|c: Coord| c.y == y && c.x < x ==> !#[trigger] self.threatens(c, color),
                decreases 8 - x,
            {
                let coord = Coord { x, y };
                match self.piece_at(coord) {
                    Some(piece) => {
                        if piece.color != color && self.can_attack_square(coord, king) {
                            assert(self.threatens(coord, color));
                            return true;
                        }
                    },
                    None => {},
                }
                x = x + 1;
            }
            y = y + 1;
        }
        false
    }

    /// The position after an en-passant capture: the pawn relocated from
    /// `from` to `to`, and the square of the passed pawn, one rank behind
    /// `to`, cleared. Where the board has no rank behind `to`, nothing is
    /// cleared.
    pub open spec fn spec_captured_in_passing(&self, from: Coord, to: Coord) -> Board {
        let color = self.spec_piece_at(from)->0.color;
        let moved = self.spec_move_piece(Move { from, to, promote: None });
        if has_rank_behind(color, to) {
            moved.with_square(passed_pawn_square(color, to), Square::Empty)
        } else {
            moved
        }
    }

    /// After `mv` has been played in its shape (an en-passant capture also
    /// removes the passed pawn), the mover's own king stands attacked. A
    /// castle is judged by its king's move: the rook's move that follows
    /// opens no line to the king. Meaningful where `mv.from` is occupied.
    pub open spec fn spec_would_be_in_check(&self, mv: Move) -> bool {
        (if self.spec_is_en_passant(mv.from, mv.to) {
            self.spec_captured_in_passing(mv.from, mv.to)
        } else {
            self.spec_move_piece(mv)
        }).spec_is_in_check(self.turn)
    }

    /// Tries the move on a copy, removing the passed pawn too where the move
    /// is an en-passant capture, and looks whether the king of the side to
    /// move is attacked there.
    #[verifier::when_used_as_spec(spec_would_be_in_check)]
    pub fn would_be_in_check(&self, mv: Move) -> (exposed: bool)
        requires
            mv.from.on_board(),
            mv.to.on_board(),
            self.spec_piece_at(mv.from) is Some,
        ensures
            exposed == self.spec_would_be_in_check(mv),
    {
        let mut board = *self;
        let in_passing: bool = self.is_en_passant(mv.from, mv.to);
        let _moved = board.move_piece(mv);
        if in_passing {
            match self.board[mv.from.y][mv.from.x] {
                Square::Occupied(pawn) => {
                    match pawn.color {
                        PieceColor::White => {
                            if mv.to.y < 7 {
                                board.board[mv.to.y + 1][mv.to.x] = Square::Empty;
                            }
                        },
                        PieceColor::Black => {
                            if mv.to.y > 0 {
                                board.board[mv.to.y - 1][mv.to.x] = Square::Empty;
                            }
                        },
                    }
                },
                Square::Empty => {},
            }
        }
        board.is_in_check(self.turn)
    }

    /// The move has the shape of a castle: a king leaves file e for file g or c.
    pub open spec fn spec_is_castle(&self, from: Coord, to: Coord) -> bool {
        &&& self.spec_piece_at(from) matches Some(piece)
        &&& piece.kind == PieceKind::King
        &&& from.x == 4
        &&& to.x == 6 || to.x == 2
    }

    #[verifier::when_used_as_spec(spec_is_castle)]
    pub fn is_castle(&self, from: Coord, to: Coord) -> (castle: bool)
        requires
            from.on_board(),
        ensures
            castle == self.spec_is_castle(from, to),
    {
        match self.piece_at(from) {
            Some(piece) => {
                let is_king: bool = match piece.kind {
                    PieceKind::King => true,
                    _ => false,
                };
                is_king && from.x == 4 && (to.x == 6 || to.x == 2)
            },
            None => false,
        }
    }

    /// The piece on `mv.from` belongs to the side to move, reaches `mv.to`,
    /// and the move, played in its shape, leaves the mover's king unattacked.
    pub open spec fn spec_is_safe_step(&self, mv: Move) -> bool {
        &&& self.spec_piece_at(mv.from) matches Some(piece)
        &&& piece.color == self.turn
        &&& self.spec_can_attack_square(mv.from, mv.to)
        &&& !self.spec_would_be_in_check(mv)
    }

    #[verifier::when_used_as_spec(spec_is_safe_step)]
    pub fn is_safe_step(&self, mv: Move) -> (safe: bool)
        requires
            mv.from.on_board(),
        ensures
            safe == self.spec_is_safe_step(mv),
    {
        match self.piece_at(mv.from) {
            Some(piece) => {
                if piece.color != self.turn {
                    return false;
                }
                if !self.can_attack_square(mv.from, mv.to) {
                    return false;
                }
                !self.would_be_in_check(mv)
            },
            None => false,
        }
    }

    /// What a castle needs beyond the king's own two-square move: the king
    /// belongs to the side to move, which is not flagged as in check; the rook
    /// of the same colour stands on its corner of the king's rank; the right
    /// on that side is intact; and the king's single step onto the square it
    /// crosses is itself a safe step.
    pub open spec fn spec_is_valid_castle(&self, from: Coord, to: Coord) -> bool {
        &&& self.spec_is_castle(from, to)
        &&& self.spec_piece_at(from)->0.color == self.turn
        &&& !self.spec_get_check()
        &&& self.spec_piece_at(rook_corner(from, to)) == Some(
            Piece { color: self.turn, kind: PieceKind::Rook },
        )
        &&& match self.turn {
            PieceColor::White => if to.x == 6 {
                self.white_castle.0
            } else {
                self.white_castle.1
            },
            PieceColor::Black => if to.x == 6 {
                self.black_castle.0
            } else {
                self.black_castle.1
            },
        }
        &&& self.spec_is_safe_step(Move { from, to: transit_square(from, to), promote: None })
    }

    #[verifier::when_used_as_spec(spec_is_valid_castle)]
    pub fn is_valid_castle(&self, from: Coord, to: Coord) -> (valid: bool)
        requires
            from.on_board(),
        ensures
            valid == self.spec_is_valid_castle(from, to),
    {
        let king = match self.piece_at(from) {
            Some(king) => king,
            None => {
                return false;
            },
        };
        let is_king: bool = match king.kind {
            PieceKind::King => true,
            _ => false,
        };
        if !is_king || king.color != self.turn || from.x != 4 || !(to.x == 6 || to.x == 2) {
            return false;
        }
        if self.get_check() {
            return false;
        }
        let kingside: bool = to.x == 6;
        let rook_square = if kingside {
            self.board[from.y][7]
        } else {
            self.board[from.y][0]
        };
        let rook = match rook_square {
            Square::Occupied(rook) => rook,
            Square::Empty => {
                return false;
            },
        };
        let is_rook: bool = match rook.kind {
            PieceKind::Rook => true,
            _ => false,
        };
        if !is_rook || king.color != rook.color {
            return false;
        }
        let right: bool = match king.color {
            PieceColor::White => if kingside {
                self.white_castle.0
            } else {
                self.white_castle.1
            },
            PieceColor::Black => if kingside {
                self.black_castle.0
            } else {
                self.black_castle.1
            },
        };
        if !right {
            return false;
        }
        let transit = Coord { x: if kingside { 5 } else { 3 }, y: from.y };
        self.is_safe_step(Move { from, to: transit, promote: None })
    }

    /// The move is an en-passant capture: a pawn changes file onto the
    /// recorded en-passant target.
    pub open spec fn spec_is_en_passant(&self, from: Coord, to: Coord) -> bool {
        &&& self.spec_piece_at(from) matches Some(piece)
        &&& piece.kind == PieceKind::Pawn
        &&& to.x != from.x
        &&& self.en_passant == Some(to)
    }

    #[verifier::when_used_as_spec(spec_is_en_passant)]
    pub fn is_en_passant(&self, from: Coord, to: Coord) -> (capture: bool)
        requires
            from.on_board(),
        ensures
            capture == self.spec_is_en_passant(from, to),
    {
        match self.piece_at(from) {
            Some(piece) => {
                let is_pawn: bool = match piece.kind {
                    PieceKind::Pawn => true,
                    _ => false,
                };
                if is_pawn && to.x != from.x {
                    match self.en_passant {
                        Some(target) => target == to,
                        None => false,
                    }
                } else {
                    false
                }
            },
            None => false,
        }
    }

    /// The move is legal: a piece of the side to move stands on `mv.from`; if
    /// the move has the shape of a castle, the castle's own conditions hold;
    /// the piece reaches `mv.to`; and the move, played in its shape, leaves the
    /// mover's king unattacked. The promotion field plays no part.
    pub open spec fn spec_is_valid_move(&self, mv: Move) -> bool {
        &&& self.spec_is_castle(mv.from, mv.to) ==> self.spec_is_valid_castle(mv.from, mv.to)
        &&& self.spec_is_safe_step(mv)
    }

    /// Whether `mv` is a legal move for the side to move. A move that is
    /// legal leaves the mover's king unattacked in the position it brings
    /// about.
    #[verifier::when_used_as_spec(spec_is_valid_move)]
    pub fn is_valid_move(&self, mv: Move) -> (valid: bool)
        requires
            mv.from.on_board(),
        ensures
            valid == self.spec_is_valid_move(mv),
            valid ==> !self.spec_relocated(mv).spec_is_in_check(self.turn),
    {
        if self.is_castle(mv.from, mv.to) && !self.is_valid_castle(mv.from, mv.to) {
            return false;
        }
        let valid = self.is_safe_step(mv);
        proof {
            if valid {
                crate::laws::lemma_mover_is_safe_after_move(*self, mv);
            }
        }
        valid
    }
}

} // verus!
