//! What a front end needs besides the board: the computer's two ways of
//! choosing a move, the letters for the pieces, and the course of a game
//! between a player who points at squares and the computer.

use crate::board::{Board, Coord, Move};
use crate::engine::{make_best_move, spec_make_best_move};
use crate::pieces::{Piece, PieceColor, PieceKind};
use rand::seq::SliceRandom;
use vstd::prelude::*;
use vstd::string::StringExecFns;

verus! {

/// How deep the computer searches when it plays its best move.
pub const AI_DEPTH: u8 = 5;

/// The letter a front end shows for a piece.
pub open spec fn spec_get_symbol(piece: Piece) -> Seq<char> {
    match piece.kind {
        PieceKind::Pawn => "P"@,
        PieceKind::Knight => "N"@,
        PieceKind::Bishop => "B"@,
        PieceKind::Rook => "R"@,
        PieceKind::Queen => "Q"@,
        PieceKind::King => "K"@,
    }
}

/// The letter a front end shows for `piece`.
pub fn get_symbol(piece: &Piece) -> (symbol: &'static str)
    ensures
        symbol@ == spec_get_symbol(*piece),
{
    match piece.kind {
        PieceKind::Pawn => "P",
        PieceKind::Knight => "N",
        PieceKind::Bishop => "B",
        PieceKind::Rook => "R",
        PieceKind::Queen => "Q",
        PieceKind::King => "K",
    }
}

/// The move that a search of depth [`AI_DEPTH`] chooses. The side to move
/// must have a legal move.
pub fn best_move(board: &Board) -> (mv: Move)
    requires
        board.spec_has_valid_moves(),
    ensures
        Some(mv) == spec_make_best_move(AI_DEPTH, *board),
        board.spec_is_valid_move(mv),
        mv.from.on_board(),
        mv.to.on_board(),
{
    match make_best_move(AI_DEPTH, board) {
        Some(mv) => mv,
        None => vstd::pervasive::unreached(),
    }
}

/// Draws one of the moves with `rand::seq::SliceRandom::choose` and the
/// generator of `rand::thread_rng`. For an empty slice `choose` returns
/// nothing; otherwise it returns the element at an index that it draws below
/// the length. So what comes back is one of the moves handed in; which one is
/// left open, and two calls may differ. Initialising the generator panics
/// where the operating system can supply no randomness.
#[verifier::external_body]
fn choose_move(moves: &Vec<Move>) -> (chosen: Option<Move>)
    ensures
        moves@.len() == 0 ==> chosen is None,
        moves@.len() > 0 ==> chosen is Some && moves@.contains(chosen->0),
{
    let mut rng = rand::thread_rng();
    moves.choose(&mut rng).copied()
}

/// A legal move drawn at random. The side to move must have a legal move.
pub fn random_move(board: &Board) -> (mv: Move)
    requires
        board.spec_has_valid_moves(),
    ensures
        board.spec_list_all_valid_moves().contains(mv),
        board.spec_is_valid_move(mv),
        mv.from.on_board(),
        mv.to.on_board(),
{
    let moves = board.list_all_valid_moves();
    let mv = match choose_move(&moves) {
        Some(mv) => mv,
        None => moves[0],
    };
    assert(board.lists(mv));
    mv
}

/// How a game stands.
#[derive(Clone, Copy, Debug, PartialEq)]
pub enum GameResult {
    /// The game is still in play.
    Continuing,
    /// The game ended in checkmate. The colour is that of the side to move
    /// in the final position.
    Victory(PieceColor),
    /// The side to move has no legal move and is not in check.
    Stalemate,
    /// The last move asked for was not legal; the position is unchanged.
    IllegalMove(Move),
}

/// What the player did.
#[derive(Debug, Clone, Copy)]
pub enum Message {
    SelectSquare(Coord),
}

/// A game between a player, who selects an origin and then a destination
/// square, and the computer, which replies after each legal move.
#[derive(Clone, Copy, Debug)]
pub struct ChessBoard {
    /// The position that each new game starts from.
    pub starting_board: Board,
    pub result: GameResult,
    /// The origin square the player has selected, if any.
    pub from_square: Option<Coord>,
    pub board: Board,
}

/// How the game stands after a move was tried on the board that is now
/// `board`: an illegal move is reported as such; after a legal one the game
/// is won if the side to move is flagged as checkmated, drawn if it is
/// flagged as stalemated, and goes on otherwise.
pub open spec fn outcome(board: Board, mv: Move, legal: bool) -> GameResult {
    if !legal {
        GameResult::IllegalMove(mv)
    } else if board.spec_get_checkmate() {
        GameResult::Victory(board.turn)
    } else if board.spec_get_stalemate() {
        GameResult::Stalemate
    } else {
        GameResult::Continuing
    }
}

impl GameResult {
    /// The game has ended in checkmate or stalemate.
    pub open spec fn is_over(self) -> bool {
        self is Victory || self is Stalemate
    }
}

impl ChessBoard {
    /// A game about to start from `starting_board`.
    pub fn new(starting_board: Board) -> (game: ChessBoard)
        ensures
            game == (ChessBoard {
                starting_board,
                result: GameResult::Continuing,
                from_square: None,
                board: starting_board,
            }),
            starting_board.settled() ==> game.in_order(),
    {
        ChessBoard {
            starting_board,
            result: GameResult::Continuing,
            from_square: None,
            board: starting_board,
        }
    }

    /// The flags of the board in play and of the starting board tell the
    /// truth about their positions, and a selected square is on the board.
    pub open spec fn in_order(self) -> bool {
        &&& self.board.settled()
        &&& self.starting_board.settled()
        &&& self.from_square matches Some(from) ==> from.on_board()
    }

    /// The game after `mv` has been tried on its board.
    pub open spec fn after_try(self, mv: Move) -> ChessBoard {
        let legal = self.board.spec_is_valid_move(mv);
        let board = if legal {
            self.board.spec_do_move(mv)
        } else {
            self.board
        };
        ChessBoard { board, result: outcome(board, mv, legal), ..self }
    }

    /// The game after the player has pointed at `pos`, before any reply of
    /// the computer. Once a game is over, the next selection starts a new one.
    /// Otherwise the first selection marks the origin; a second selection of
    /// the same square marks it again; a second selection of another square
    /// tries the move between the two and clears the selection, and if that
    /// move ends the game the board is set up anew while the result stays on
    /// show.
    pub open spec fn spec_select(self, pos: Coord) -> ChessBoard {
        if self.result.is_over() {
            ChessBoard { board: self.starting_board, result: GameResult::Continuing, ..self }
        } else {
            match self.from_square {
                None => ChessBoard { from_square: Some(pos), ..self },
                Some(from) => if from == pos {
                    ChessBoard { from_square: Some(pos), ..self }
                } else {
                    let tried = (ChessBoard { from_square: None, ..self }).after_try(
                        Move { from, to: pos, promote: None },
                    );
                    if tried.result.is_over() {
                        ChessBoard { board: self.starting_board, ..tried }
                    } else {
                        tried
                    }
                },
            }
        }
    }

    /// The computer is to move after the player has pointed at `pos`: the
    /// selection completed a legal move that did not end the game.
    pub open spec fn reply_due(self, pos: Coord) -> bool {
        &&& !self.result.is_over()
        &&& self.from_square matches Some(from)
        &&& from != pos
        &&& self.spec_select(pos).result is Continuing
    }

    fn try_move(&mut self, mv: Move)
        requires
            mv.from.on_board(),
            mv.to.on_board(),
        ensures
            *final(self) == old(self).after_try(mv),
            old(self).board.settled() ==> final(self).board.settled(),
    {
        self.result = match self.board.do_move_from_coord(mv) {
            Ok(_) => {
                if self.board.get_checkmate() {
                    GameResult::Victory(self.board.turn)
                } else if self.board.get_stalemate() {
                    GameResult::Stalemate
                } else {
                    GameResult::Continuing
                }
            },
            Err(_) => GameResult::IllegalMove(mv),
        };
    }

    /// Takes the player's selection of `pos` and says whether the computer
    /// is to reply. A game that was in order stays in order, and where a reply
    /// is due in such a game the computer has a legal move.
    pub fn select(&mut self, pos: Coord) -> (reply_due: bool)
        requires
            pos.on_board(),
            old(self).from_square matches Some(from) ==> from.on_board(),
        ensures
            *final(self) == old(self).spec_select(pos),
            reply_due == old(self).reply_due(pos),
            final(self).from_square matches Some(from) ==> from.on_board(),
            old(self).in_order() ==> final(self).in_order(),
            reply_due && old(self).in_order() ==> final(self).board.spec_has_valid_moves(),
    {
        match self.result {
            GameResult::Victory(_) | GameResult::Stalemate => {
                self.board = self.starting_board;
                self.result = GameResult::Continuing;
                false
            },
            _ => {
                match self.from_square {
                    None => {
                        self.from_square = Some(pos);
                        false
                    },
                    Some(from) => {
                        if from != pos {
                            let mv = Move { from, to: pos, promote: None };
                            self.from_square = None;
                            self.try_move(mv);
                            match self.result {
                                GameResult::Continuing => true,
                                GameResult::Victory(_) | GameResult::Stalemate => {
                                    self.board = self.starting_board;
                                    false
                                },
                                _ => false,
                            }
                        } else {
                            self.from_square = Some(pos);
                            false
                        }
                    },
                }
            },
        }
    }

    /// Takes the computer's reply: the move is tried on the board and the
    /// result says how the game stands after it. A game that was in order
    /// stays in order.
    pub fn reply(&mut self, cpu_move: Move)
        requires
            cpu_move.from.on_board(),
            cpu_move.to.on_board(),
        ensures
            *final(self) == old(self).after_try(cpu_move),
            old(self).in_order() ==> final(self).in_order(),
    {
        self.try_move(cpu_move);
    }

    /// The caption of the game.
    pub open spec fn spec_title(self) -> Seq<char> {
        match self.result {
            GameResult::Victory(color) => color.spec_to_string() + " wins"@,
            GameResult::Stalemate => "Stalemate"@,
            GameResult::IllegalMove(m) => "Illegal move by "@ + self.board.turn.spec_to_string()
                + ", '("@ + m.from.spec_to_notation() + ","@ + m.to.spec_to_notation() + ")'"@,
            GameResult::Continuing => "Chess"@,
        }
    }

    /// The caption a front end shows for the game.
    pub fn title(&self) -> (caption: String)
        requires
            self.result matches GameResult::IllegalMove(m) ==> m.from.on_board() && m.to.on_board(),
        ensures
            caption@ == self.spec_title(),
    {
        match self.result {
            GameResult::Victory(color) => {
                let mut caption = color.to_string();
                caption.append(" wins");
                caption
            },
            GameResult::Stalemate => String::from_str("Stalemate"),
            GameResult::IllegalMove(m) => {
                let mut caption = String::from_str("Illegal move by ");
                caption.append(self.board.turn.to_string().as_str());
                caption.append(", '(");
                caption.append(m.from.to_notation().as_str());
                caption.append(",");
                caption.append(m.to.to_notation().as_str());
                caption.append(")'");
                caption
            },
            GameResult::Continuing => String::from_str("Chess"),
        }
    }
}

} // verus!
