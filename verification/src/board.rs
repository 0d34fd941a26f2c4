//! The position: the grid, whose turn it is, castling rights, the en-passant
//! target and the check flags, with the relocation of pieces.

use crate::pieces::{Piece, PieceColor, PieceKind};
use vstd::array::{spec_array_fill_for_copy_type, spec_array_update};
use vstd::prelude::*;
use vstd::string::StringExecFns;

verus! {

/// Why a request was turned down.
#[derive(Debug)]
pub enum BoardError {
    /// Malformed square notation or position description.
    ParseError(String),
    /// Well-formed coordinates that are no legal move in the position.
    MoveError(String),
}

impl BoardError {
    /// This is a parse error with the given reason.
    pub open spec fn is_parse_error(self, reason: Seq<char>) -> bool {
        match self {
            BoardError::ParseError(text) => text@ == reason,
            BoardError::MoveError(_) => false,
        }
    }

    /// The message of the error: what kind it is, then the reason.
    pub open spec fn spec_to_string(&self) -> Seq<char> {
        match self {
            BoardError::ParseError(text) => "Error parsing input: "@ + text@,
            BoardError::MoveError(text) => "Error making move: "@ + text@,
        }
    }

    /// The message of the error.
    pub fn to_string(&self) -> (message: String)
        ensures
            message@ == self.spec_to_string(),
    {
        match self {
            BoardError::ParseError(text) => {
                let mut message = String::from_str("Error parsing input: ");
                message.append(text.as_str());
                message
            },
            BoardError::MoveError(text) => {
                let mut message = String::from_str("Error making move: ");
                message.append(text.as_str());
                message
            },
        }
    }

    /// This is a move error with the given reason.
    pub open spec fn is_move_error(self, reason: Seq<char>) -> bool {
        match self {
            BoardError::MoveError(text) => text@ == reason,
            BoardError::ParseError(_) => false,
        }
    }
}

/// What one cell of the grid holds.
#[derive(Copy, Clone, PartialEq, Eq, Structural, Debug)]
pub enum Square {
    Empty,
    Occupied(Piece),
}

/// A square of the board: `x` is the file (0 is file a), `y` the row counted
/// from Black's back rank (0 is rank 8, 7 is rank 1).
#[derive(Copy, Clone, PartialEq, Eq, Structural, Debug, Hash)]
pub struct Coord {
    pub x: usize,
    pub y: usize,
}

impl Coord {
    /// Both components lie in `0..8`.
    pub open spec fn on_board(self) -> bool {
        self.x < 8 && self.y < 8
    }
}

/// A proposed move. Whether it is legal depends on the position.
#[derive(PartialEq, Debug, Copy, Clone)]
pub struct Move {
    pub from: Coord,
    pub to: Coord,
    pub promote: Option<PieceKind>,
}

impl Move {
    pub fn new(from: Coord, to: Coord, promote: Option<PieceKind>) -> (mv: Move)
        ensures
            mv == (Move { from, to, promote }),
    {
        Move { from, to, promote }
    }
}

/// The authoritative position. A plain value: it is copied freely, and the
/// search explores futures on copies.
#[derive(PartialEq, Debug, Clone, Copy)]
pub struct Board {
    /// The grid, indexed `[y][x]`.
    pub board: [[Square; 8]; 8],
    pub turn: PieceColor,
    /// Where each king stands, kept in step with the grid by every move.
    pub white_king: Coord,
    pub black_king: Coord,
    /// Castling rights as (kingside, queenside).
    pub white_castle: (bool, bool),
    pub black_castle: (bool, bool),
    /// Flags as (White, Black).
    pub in_check: (bool, bool),
    pub in_checkmate: (bool, bool),
    pub in_stalemate: (bool, bool),
    /// The square a pawn has just passed over in a two-square advance.
    pub en_passant: Option<Coord>,
    pub halfmove_clock: u8,
    pub fullmove_number: u8,
}

/// The kind of piece that starts on file `x` of a back rank.
pub open spec fn back_rank_kind(x: int) -> PieceKind {
    if x == 0 || x == 7 {
        PieceKind::Rook
    } else if x == 1 || x == 6 {
        PieceKind::Knight
    } else if x == 2 || x == 5 {
        PieceKind::Bishop
    } else if x == 3 {
        PieceKind::Queen
    } else {
        PieceKind::King
    }
}

/// What stands on `c` at the start of a game.
pub open spec fn start_square(c: Coord) -> Square {
    if c.y == 0 {
        Square::Occupied(Piece { color: PieceColor::Black, kind: back_rank_kind(c.x as int) })
    } else if c.y == 1 {
        Square::Occupied(Piece { color: PieceColor::Black, kind: PieceKind::Pawn })
    } else if c.y == 6 {
        Square::Occupied(Piece { color: PieceColor::White, kind: PieceKind::Pawn })
    } else if c.y == 7 {
        Square::Occupied(Piece { color: PieceColor::White, kind: back_rank_kind(c.x as int) })
    } else {
        Square::Empty
    }
}

impl Board {
    /// What the grid holds at `c`.
    pub open spec fn square(&self, c: Coord) -> Square {
        self.board[c.y as int][c.x as int]
    }

    /// The position with the content of one cell replaced.
    pub open spec fn with_square(self, c: Coord, content: Square) -> Board {
        Board {
            board: spec_array_update(
                self.board,
                c.y as int,
                spec_array_update(self.board[c.y as int], c.x as int, content),
            ),
            ..self
        }
    }

    /// A replaced cell reads as its new content; every other cell is unchanged.
    pub proof fn lemma_with_square(self, c: Coord, content: Square, d: Coord)
        requires
            c.on_board(),
            d.on_board(),
        ensures
            self.with_square(c, content).square(d) == if d == c {
                content
            } else {
                self.square(d)
            },
    {
    }

    /// Everything but the grid is as at the start of a game: White to move,
    /// the kings recorded on their home squares, all castling rights, no flag
    /// raised, no en-passant target, clocks at 0 and 1.
    pub open spec fn fresh_state(&self) -> bool {
        &&& self.turn == PieceColor::White
        &&& self.white_king == Coord { x: 4, y: 7 }
        &&& self.black_king == Coord { x: 4, y: 0 }
        &&& self.white_castle == (true, true)
        &&& self.black_castle == (true, true)
        &&& self.in_check == (false, false)
        &&& self.in_checkmate == (false, false)
        &&& self.in_stalemate == (false, false)
        &&& self.en_passant is None
        &&& self.halfmove_clock == 0
        &&& self.fullmove_number == 1
    }

    /// The board without pieces, otherwise in the starting state.
    pub open spec fn spec_empty() -> Board {
        Board {
            board: spec_array_fill_for_copy_type::<[Square; 8], 8>(
                spec_array_fill_for_copy_type::<Square, 8>(Square::Empty),
            ),
            turn: PieceColor::White,
            white_king: Coord { x: 4, y: 7 },
            black_king: Coord { x: 4, y: 0 },
            white_castle: (true, true),
            black_castle: (true, true),
            in_check: (false, false),
            in_checkmate: (false, false),
            in_stalemate: (false, false),
            en_passant: None,
            halfmove_clock: 0,
            fullmove_number: 1,
        }
    }

    /// A board without pieces, otherwise in the starting state.
    #[verifier::when_used_as_spec(spec_empty)]
    pub fn empty() -> (b: Board)
        ensures
            b == Self::spec_empty(),
            b.fresh_state(),
            forall|c: Coord| c.on_board() ==> b.square(c) == Square::Empty,
    {
        Board {
            board: [[Square::Empty; 8]; 8],
            turn: PieceColor::White,
            white_king: Coord { x: 4, y: 7 },
            black_king: Coord { x: 4, y: 0 },
            white_castle: (true, true),
            black_castle: (true, true),
            in_check: (false, false),
            in_checkmate: (false, false),
            in_stalemate: (false, false),
            en_passant: None,
            halfmove_clock: 0,
            fullmove_number: 1,
        }
    }

    /// The standard starting position.
    pub fn default() -> (b: Board)
        ensures
            b.fresh_state(),
            forall|c: Coord| c.on_board() ==> b.square(c) == start_square(c),
            b.kings_in_place(),
            b.settled(),
    {
        let mut board = Board::empty();
        let black = PieceColor::Black;
        let white = PieceColor::White;
        board.board =
        [
            [
                Square::Occupied(Piece::rook(black)),
                Square::Occupied(Piece::knight(black)),
                Square::Occupied(Piece::bishop(black)),
                Square::Occupied(Piece::queen(black)),
                Square::Occupied(Piece::king(black)),
                Square::Occupied(Piece::bishop(black)),
                Square::Occupied(Piece::knight(black)),
                Square::Occupied(Piece::rook(black)),
            ],
            [Square::Occupied(Piece::pawn(black)); 8],
            [Square::Empty; 8],
            [Square::Empty; 8],
            [Square::Empty; 8],
            [Square::Empty; 8],
            [Square::Occupied(Piece::pawn(white)); 8],
            [
                Square::Occupied(Piece::rook(white)),
                Square::Occupied(Piece::knight(white)),
                Square::Occupied(Piece::bishop(white)),
                Square::Occupied(Piece::queen(white)),
                Square::Occupied(Piece::king(white)),
                Square::Occupied(Piece::bishop(white)),
                Square::Occupied(Piece::knight(white)),
                Square::Occupied(Piece::rook(white)),
            ],
        ];
        proof {
            crate::laws::lemma_start_is_in_order(board);
        }
        board
    }

    /// The piece on `coord`, if the square is on the board and occupied.
    pub open spec fn spec_piece_at(&self, coord: Coord) -> Option<Piece> {
        if coord.on_board() {
            match self.square(coord) {
                Square::Occupied(piece) => Some(piece),
                Square::Empty => None,
            }
        } else {
            None
        }
    }

    /// The piece on `coord`, if any.
    #[verifier::when_used_as_spec(spec_piece_at)]
    pub fn piece_at(&self, coord: Coord) -> (occupant: Option<Piece>)
        requires
            coord.on_board(),
        ensures
            occupant == self.spec_piece_at(coord),
    {
        match self.board[coord.y][coord.x] {
            Square::Occupied(piece) => Some(piece),
            Square::Empty => None,
        }
    }

    /// What arrives on `to` when `piece` is moved there from `from`: a pawn
    /// that reaches the farthest rank (other than by a two-rank jump) arrives
    /// as a queen, every other piece as itself.
    pub open spec fn arriving(piece: Piece, from: Coord, to: Coord) -> Piece {
        if piece.kind == PieceKind::Pawn && crate::pieces::distance(from.y as int, to.y as int)
            != 2 && ((piece.color == PieceColor::White && to.y == 0) || (piece.color
            == PieceColor::Black && to.y == 7)) {
            Piece { color: piece.color, kind: PieceKind::Queen }
        } else {
            piece
        }
    }

    /// The en-passant target after `piece` has moved: the square passed over
    /// by a pawn's two-rank advance, nothing after any other move.
    pub open spec fn target_after(piece: Piece, from: Coord, to: Coord) -> Option<Coord> {
        if piece.kind == PieceKind::Pawn && crate::pieces::distance(from.y as int, to.y as int)
            == 2 {
            Some(Coord { x: from.x, y: ((from.y + to.y) / 2) as usize })
        } else {
            None
        }
    }

    /// The castling rights of `color` after `piece` has left `from`: a king's
    /// move revokes both rights of its colour, a rook's move from a home corner
    /// the right on that side; nothing is ever restored.
    pub open spec fn rights_after(&self, color: PieceColor, piece: Piece, from: Coord) -> (
        bool,
        bool,
    ) {
        let rights = match color {
            PieceColor::White => self.white_castle,
            PieceColor::Black => self.black_castle,
        };
        let home: int = match color {
            PieceColor::White => 7,
            PieceColor::Black => 0,
        };
        if piece.color != color {
            rights
        } else if piece.kind == PieceKind::King {
            (false, false)
        } else if piece.kind == PieceKind::Rook && from.y == home && from.x == 0 {
            (rights.0, false)
        } else if piece.kind == PieceKind::Rook && from.y == home && from.x == 7 {
            (false, rights.1)
        } else {
            rights
        }
    }

    /// The position after the piece on `mv.from` has been relocated to
    /// `mv.to`, whatever stood there. Meaningful where `mv.from` is occupied.
    pub open spec fn spec_move_piece(&self, mv: Move) -> Board {
        let piece = self.spec_piece_at(mv.from)->0;
        let grid = self.with_square(mv.from, Square::Empty).with_square(
            mv.to,
            Square::Occupied(Self::arriving(piece, mv.from, mv.to)),
        );
        Board {
            board: grid.board,
            en_passant: Self::target_after(piece, mv.from, mv.to),
            white_castle: self.rights_after(PieceColor::White, piece, mv.from),
            black_castle: self.rights_after(PieceColor::Black, piece, mv.from),
            white_king: if piece.kind == PieceKind::King && piece.color == PieceColor::White {
                mv.to
            } else {
                self.white_king
            },
            black_king: if piece.kind == PieceKind::King && piece.color == PieceColor::Black {
                mv.to
            } else {
                self.black_king
            },
            ..*self
        }
    }

    /// After a relocation the destination holds what arrived, the origin is
    /// empty (unless it is the destination), and every other cell is as before.
    pub proof fn lemma_move_piece_squares(&self, mv: Move, c: Coord)
        requires
            mv.from.on_board(),
            mv.to.on_board(),
            c.on_board(),
        ensures
            self.spec_move_piece(mv).square(c) == if c == mv.to {
                Square::Occupied(Self::arriving(self.spec_piece_at(mv.from)->0, mv.from, mv.to))
            } else if c == mv.from {
                Square::Empty
            } else {
                self.square(c)
            },
    {
        let lifted = self.with_square(mv.from, Square::Empty);
        let landed = lifted.with_square(
            mv.to,
            Square::Occupied(Self::arriving(self.spec_piece_at(mv.from)->0, mv.from, mv.to)),
        );
        self.lemma_with_square(mv.from, Square::Empty, c);
        lifted.lemma_with_square(
            mv.to,
            Square::Occupied(Self::arriving(self.spec_piece_at(mv.from)->0, mv.from, mv.to)),
            c,
        );
    }

    /// Relocates the piece on `mv.from` to `mv.to`, overwriting any occupant,
    /// and updates the en-passant target, the castling rights and the recorded
    /// king squares. Fails, changing nothing, when `mv.from` is empty. Neither
    /// the turn nor the check flags are touched.
    pub fn move_piece(&mut self, mv: Move) -> (done: Result<(), BoardError>)
        requires
            mv.from.on_board(),
            mv.to.on_board(),
        ensures
            done is Ok <==> old(self).spec_piece_at(mv.from) is Some,
            done is Ok ==> *final(self) == old(self).spec_move_piece(mv),
            done matches Err(e) ==> *final(self) == *old(self) && e.is_move_error(
                "No piece to move"@,
            ),
    {
        let from = mv.from;
        let to = mv.to;
        match self.board[from.y][from.x] {
            Square::Occupied(piece) => {
                let two_ranks: bool = from.y == to.y + 2 || to.y == from.y + 2;
                let is_pawn: bool = match piece.kind {
                    PieceKind::Pawn => true,
                    _ => false,
                };
                let farthest: usize = match piece.color {
                    PieceColor::White => 0,
                    PieceColor::Black => 7,
                };
                let placed = if is_pawn && !two_ranks && to.y == farthest {
                    Piece::queen(piece.color)
                } else {
                    piece
                };
                self.board[from.y][from.x] = Square::Empty;
                self.board[to.y][to.x] = Square::Occupied(placed);
                self.en_passant = None;
                match piece.kind {
                    PieceKind::Pawn => {
                        if two_ranks {
                            self.en_passant = Some(Coord { x: from.x, y: (from.y + to.y) / 2 });
                        }
                    },
                    PieceKind::King => {
                        if piece.color == PieceColor::White {
                            self.white_castle = (false, false);
                            self.white_king = to;
                        } else {
                            self.black_castle = (false, false);
                            self.black_king = to;
                        }
                    },
                    PieceKind::Rook => {
                        if piece.color == PieceColor::White {
                            if from.y == 7 && from.x == 0 {
                                self.white_castle.1 = false;
                            } else if from.y == 7 && from.x == 7 {
                                self.white_castle.0 = false;
                            }
                        } else if from.y == 0 && from.x == 0 {
                            self.black_castle.1 = false;
                        } else if from.y == 0 && from.x == 7 {
                            self.black_castle.0 = false;
                        }
                    },
                    _ => {},
                }
                Ok(())
            },
            Square::Empty => Err(BoardError::MoveError(String::from_str("No piece to move"))),
        }
    }

    /// Whether the side to move is flagged as in check.
    pub open spec fn spec_get_check(&self) -> bool {
        match self.turn {
            PieceColor::White => self.in_check.0,
            PieceColor::Black => self.in_check.1,
        }
    }

    #[verifier::when_used_as_spec(spec_get_check)]
    pub fn get_check(&self) -> (flag: bool)
        ensures
            flag == self.spec_get_check(),
    {
        match self.turn {
            PieceColor::White => self.in_check.0,
            PieceColor::Black => self.in_check.1,
        }
    }

    /// Whether the side to move is flagged as checkmated.
    pub open spec fn spec_get_checkmate(&self) -> bool {
        match self.turn {
            PieceColor::White => self.in_checkmate.0,
            PieceColor::Black => self.in_checkmate.1,
        }
    }

    #[verifier::when_used_as_spec(spec_get_checkmate)]
    pub fn get_checkmate(&self) -> (flag: bool)
        ensures
            flag == self.spec_get_checkmate(),
    {
        match self.turn {
            PieceColor::White => self.in_checkmate.0,
            PieceColor::Black => self.in_checkmate.1,
        }
    }

    /// Whether the side to move is flagged as stalemated.
    pub open spec fn spec_get_stalemate(&self) -> bool {
        match self.turn {
            PieceColor::White => self.in_stalemate.0,
            PieceColor::Black => self.in_stalemate.1,
        }
    }

    #[verifier::when_used_as_spec(spec_get_stalemate)]
    pub fn get_stalemate(&self) -> (flag: bool)
        ensures
            flag == self.spec_get_stalemate(),
    {
        match self.turn {
            PieceColor::White => self.in_stalemate.0,
            PieceColor::Black => self.in_stalemate.1,
        }
    }
}

} // verus!
