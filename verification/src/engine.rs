//! The opponent: a material and position heuristic, and a minimax search
//! with alpha-beta pruning over copies of the board.

use crate::board::{Board, Coord, Move};
use crate::movegen::nth_square;
use crate::pieces::{Piece, PieceColor, PieceKind};
use vstd::prelude::*;

verus! {

/// Positional bonus of a white king, indexed `[y][x]`.
pub const WHITE_KING_POSITION_WEIGHTS: [[i32; 8]; 8] = [
    [-30, -40, -40, -50, -50, -40, -40, -30],
    [-30, -40, -40, -50, -50, -40, -40, -30],
    [-30, -40, -40, -50, -50, -40, -40, -30],
    [-30, -40, -40, -50, -50, -40, -40, -30],
    [-20, -30, -30, -40, -40, -30, -30, -20],
    [-10, -20, -20, -20, -20, -20, -20, -10],
    [20, 20, 0, 0, 0, 0, 20, 20],
    [20, 30, 10, 0, 0, 10, 30, 20],
];

/// Positional bonus of a black king, indexed `[y][x]`.
pub const BLACK_KING_POSITION_WEIGHTS: [[i32; 8]; 8] = [
    [20, 30, 10, 0, 0, 10, 30, 20],
    [20, 20, 0, 0, 0, 0, 20, 20],
    [-10, -20, -20, -20, -20, -20, -20, -10],
    [-20, -30, -30, -40, -40, -30, -30, -20],
    [-30, -40, -40, -50, -50, -40, -40, -30],
    [-30, -40, -40, -50, -50, -40, -40, -30],
    [-30, -40, -40, -50, -50, -40, -40, -30],
    [-30, -40, -40, -50, -50, -40, -40, -30],
];

/// Positional bonus of a white queen, indexed `[y][x]`.
pub const WHITE_QUEEN_POSITION_WEIGHTS: [[i32; 8]; 8] = [
    [-20, -10, -10, -5, -5, -10, -10, -20],
    [-10, 0, 0, 0, 0, 0, 0, -10],
    [-10, 0, 5, 5, 5, 5, 0, -10],
    [-5, 0, 5, 5, 5, 5, 0, -5],
    [0, 0, 5, 5, 5, 5, 0, -5],
    [-10, 5, 5, 5, 5, 5, 0, -10],
    [-10, 0, 5, 0, 0, 0, 0, -10],
    [-10, 0, -10, -5, -5, -5, -10, -20],
];

/// Positional bonus of a black queen, indexed `[y][x]`.
pub const BLACK_QUEEN_POSITION_WEIGHTS: [[i32; 8]; 8] = [
    [-10, 0, -10, -5, -5, -5, -10, -20],
    [-10, 0, 5, 0, 0, 0, 0, -10],
    [-10, 5, 5, 5, 5, 5, 0, -10],
    [0, 0, 5, 5, 5, 5, 0, -5],
    [-5, 0, 5, 5, 5, 5, 0, -5],
    [-10, 0, 5, 5, 5, 5, 0, -10],
    [-10, 0, 0, 0, 0, 0, 0, -10],
    [-20, -10, -10, -5, -5, -10, -10, -20],
];

/// Positional bonus of a white rook, indexed `[y][x]`.
pub const WHITE_ROOK_POSITION_WEIGHTS: [[i32; 8]; 8] = [
    [0, 0, 0, 0, 0, 0, 0, 0],
    [5, 10, 10, 10, 10, 10, 10, 5],
    [-5, 0, 0, 0, 0, 0, 0, -5],
    [-5, 0, 0, 0, 0, 0, 0, -5],
    [-5, 0, 0, 0, 0, 0, 0, -5],
    [-5, 0, 0, 0, 0, 0, 0, -5],
    [-5, 0, 0, 0, 0, 0, 0, -5],
    [0, 0, 0, 5, 5, 0, 0, 0],
];

/// Positional bonus of a black rook, indexed `[y][x]`.
pub const BLACK_ROOK_POSITION_WEIGHTS: [[i32; 8]; 8] = [
    [0, 0, 0, 5, 5, 0, 0, 0],
    [-5, 0, 0, 0, 0, 0, 0, -5],
    [-5, 0, 0, 0, 0, 0, 0, -5],
    [-5, 0, 0, 0, 0, 0, 0, -5],
    [-5, 0, 0, 0, 0, 0, 0, -5],
    [-5, 0, 0, 0, 0, 0, 0, -5],
    [5, 10, 10, 10, 10, 10, 10, 5],
    [0, 0, 0, 0, 0, 0, 0, 0],
];

/// Positional bonus of a white bishop, indexed `[y][x]`.
pub const WHITE_BISHOP_POSITION_WEIGHTS: [[i32; 8]; 8] = [
    [-20, -10, -10, -10, -10, -10, -10, -20],
    [-10, 0, 0, 0, 0, 0, 0, -10],
    [-10, 0, 5, 10, 10, 5, 0, -10],
    [-10, 5, 5, 10, 10, 5, 5, -10],
    [-10, 0, 10, 10, 10, 10, 0, -10],
    [-10, 10, 10, 10, 10, 10, 10, -10],
    [-10, 5, 0, 0, 0, 0, 5, -10],
    [-20, -10, -10, -10, -10, -10, -10, -20],
];

/// Positional bonus of a black bishop, indexed `[y][x]`.
pub const BLACK_BISHOP_POSITION_WEIGHTS: [[i32; 8]; 8] = [
    [-20, -10, -10, -10, -10, -10, -10, -20],
    [-10, 5, 0, 0, 0, 0, 5, -10],
    [-10, 10, 10, 10, 10, 10, 10, -10],
    [-10, 0, 10, 10, 10, 10, 0, -10],
    [-10, 5, 5, 10, 10, 5, 5, -10],
    [-10, 0, 5, 10, 10, 5, 0, -10],
    [-10, 0, 0, 0, 0, 0, 0, -10],
    [-20, -10, -10, -10, -10, -10, -10, -20],
];

/// Positional bonus of a white knight, indexed `[y][x]`.
pub const WHITE_KNIGHT_POSITION_WEIGHTS: [[i32; 8]; 8] = [
    [-50, -40, -30, -30, -30, -30, -40, -50],
    [-40, -20, 0, 0, 0, 0, -20, -40],
    [-30, 0, 10, 15, 15, 10, 0, -30],
    [-30, 5, 15, 20, 20, 15, 5, -30],
    [-30, 0, 15, 20, 20, 15, 0, -30],
    [-30, 5, 10, 15, 15, 10, 5, -30],
    [-40, -20, 0, 5, 5, 0, -20, -40],
    [-50, -40, -30, -30, -30, -30, -40, -50],
];

/// Positional bonus of a black knight, indexed `[y][x]`.
pub const BLACK_KNIGHT_POSITION_WEIGHTS: [[i32; 8]; 8] = [
    [-50, -40, -30, -30, -30, -30, -40, -50],
    [-40, -20, 0, 5, 5, 0, -20, -40],
    [-30, 5, 10, 15, 15, 10, 5, -30],
    [-30, 0, 15, 20, 20, 15, 0, -30],
    [-30, 5, 15, 20, 20, 15, 5, -30],
    [-30, 0, 10, 15, 15, 10, 0, -30],
    [-40, -20, 0, 0, 0, 0, -20, -40],
    [-50, -40, -30, -30, -30, -30, -40, -50],
];

/// Positional bonus of a white pawn, indexed `[y][x]`.
pub const WHITE_PAWN_POSITION_WEIGHTS: [[i32; 8]; 8] = [
    [0, 0, 0, 0, 0, 0, 0, 0],
    [50, 50, 50, 50, 50, 50, 50, 50],
    [10, 10, 20, 30, 30, 20, 10, 10],
    [5, 5, 10, 25, 25, 10, 5, 5],
    [0, 0, 0, 20, 20, 0, 0, 0],
    [5, -5, -10, 0, 0, -10, -5, 5],
    [5, 15, -10, -20, -20, 10, 15, 5],
    [0, 0, 0, 0, 0, 0, 0, 0],
];

/// Positional bonus of a black pawn, indexed `[y][x]`.
pub const BLACK_PAWN_POSITION_WEIGHTS: [[i32; 8]; 8] = [
    [0, 0, 0, 0, 0, 0, 0, 0],
    [5, 15, -10, -20, -20, 10, 15, 5],
    [5, -5, -10, 0, 0, -10, -5, 5],
    [0, 0, 0, 20, 20, 0, 0, 0],
    [5, 5, 10, 25, 25, 10, 5, 5],
    [10, 10, 20, 30, 30, 20, 10, 10],
    [50, 50, 50, 50, 50, 50, 50, 50],
    [0, 0, 0, 0, 0, 0, 0, 0],
];

/// The material worth of a kind of piece.
pub open spec fn spec_piece_score(piece: PieceKind) -> int {
    match piece {
        PieceKind::Pawn => 100,
        PieceKind::Knight => 300,
        PieceKind::Bishop => 300,
        PieceKind::Rook => 500,
        PieceKind::Queen => 900,
        PieceKind::King => 10000,
    }
}

pub fn piece_score(piece: PieceKind) -> (score: i32)
    ensures
        score == spec_piece_score(piece),
{
    match piece {
        PieceKind::Pawn => 100,
        PieceKind::Knight => 300,
        PieceKind::Bishop => 300,
        PieceKind::Rook => 500,
        PieceKind::Queen => 900,
        PieceKind::King => 10000,
    }
}

/// The table of positional bonuses for a piece.
pub open spec fn position_weights(piece: Piece) -> [[i32; 8]; 8] {
    match piece.kind {
        PieceKind::King => match piece.color {
            PieceColor::White => WHITE_KING_POSITION_WEIGHTS,
            PieceColor::Black => BLACK_KING_POSITION_WEIGHTS,
        },
        PieceKind::Queen => match piece.color {
            PieceColor::White => WHITE_QUEEN_POSITION_WEIGHTS,
            PieceColor::Black => BLACK_QUEEN_POSITION_WEIGHTS,
        },
        PieceKind::Rook => match piece.color {
            PieceColor::White => WHITE_ROOK_POSITION_WEIGHTS,
            PieceColor::Black => BLACK_ROOK_POSITION_WEIGHTS,
        },
        PieceKind::Bishop => match piece.color {
            PieceColor::White => WHITE_BISHOP_POSITION_WEIGHTS,
            PieceColor::Black => BLACK_BISHOP_POSITION_WEIGHTS,
        },
        PieceKind::Knight => match piece.color {
            PieceColor::White => WHITE_KNIGHT_POSITION_WEIGHTS,
            PieceColor::Black => BLACK_KNIGHT_POSITION_WEIGHTS,
        },
        PieceKind::Pawn => match piece.color {
            PieceColor::White => WHITE_PAWN_POSITION_WEIGHTS,
            PieceColor::Black => BLACK_PAWN_POSITION_WEIGHTS,
        },
    }
}

/// What a piece is worth on a square: its material plus the bonus of the
/// square.
pub open spec fn spec_get_weighted_value(piece: Piece, position: Coord) -> int {
    position_weights(piece)[position.y as int][position.x as int] + spec_piece_score(piece.kind)
}

/// What `piece` is worth on `position`.
pub fn get_weighted_value(piece: Piece, position: Coord) -> (value: i32)
    requires
        position.on_board(),
    ensures
        value == spec_get_weighted_value(piece, position),
        50 <= value <= 10050,
{
    let weights: [[i32; 8]; 8] = match piece.kind {
        PieceKind::King => match piece.color {
            PieceColor::White => WHITE_KING_POSITION_WEIGHTS,
            PieceColor::Black => BLACK_KING_POSITION_WEIGHTS,
        },
        PieceKind::Queen => match piece.color {
            PieceColor::White => WHITE_QUEEN_POSITION_WEIGHTS,
            PieceColor::Black => BLACK_QUEEN_POSITION_WEIGHTS,
        },
        PieceKind::Rook => match piece.color {
            PieceColor::White => WHITE_ROOK_POSITION_WEIGHTS,
            PieceColor::Black => BLACK_ROOK_POSITION_WEIGHTS,
        },
        PieceKind::Bishop => match piece.color {
            PieceColor::White => WHITE_BISHOP_POSITION_WEIGHTS,
            PieceColor::Black => BLACK_BISHOP_POSITION_WEIGHTS,
        },
        PieceKind::Knight => match piece.color {
            PieceColor::White => WHITE_KNIGHT_POSITION_WEIGHTS,
            PieceColor::Black => BLACK_KNIGHT_POSITION_WEIGHTS,
        },
        PieceKind::Pawn => match piece.color {
            PieceColor::White => WHITE_PAWN_POSITION_WEIGHTS,
            PieceColor::Black => BLACK_PAWN_POSITION_WEIGHTS,
        },
    };
    weights[position.y][position.x] + piece_score(piece.kind)
}

/// What the content of one square adds to the score of `color`: the worth
/// of an own piece, minus the worth of an enemy piece, nothing for an empty
/// square.
pub open spec fn square_worth(board: Board, color: PieceColor, c: Coord) -> int {
    match board.spec_piece_at(c) {
        Some(piece) => if piece.color == color {
            spec_get_weighted_value(piece, c)
        } else {
            -spec_get_weighted_value(piece, c)
        },
        None => 0,
    }
}

/// The sum of [`square_worth`] over the first `n` squares in reading order.
pub open spec fn material_before(board: Board, color: PieceColor, n: nat) -> int
    decreases n,
{
    if n == 0 {
        0
    } else {
        material_before(board, color, (n - 1) as nat) + square_worth(board, color, nth_square(n - 1))
    }
}

/// The score of a position seen by `color`: the least value if `color` is
/// flagged as checkmated, the greatest if the opponent is, zero if either
/// side is flagged as stalemated, and otherwise own material and position
/// minus the opponent's.
pub open spec fn spec_eval_position(board: Board, color: PieceColor) -> int {
    let (own_mated, other_mated) = match color {
        PieceColor::White => (board.in_checkmate.0, board.in_checkmate.1),
        PieceColor::Black => (board.in_checkmate.1, board.in_checkmate.0),
    };
    if own_mated {
        i32::MIN as int
    } else if other_mated {
        i32::MAX as int
    } else if board.in_stalemate.0 || board.in_stalemate.1 {
        0
    } else {
        material_before(board, color, 64)
    }
}

/// The score of the position from the point of view of `color`.
pub fn eval_position(board: &Board, color: PieceColor) -> (score: i32)
    ensures
        score == spec_eval_position(*board, color),
{
    let (own_mated, other_mated) = match color {
        PieceColor::White => (board.in_checkmate.0, board.in_checkmate.1),
        PieceColor::Black => (board.in_checkmate.1, board.in_checkmate.0),
    };
    if own_mated {
        return i32::MIN;
    }
    if other_mated {
        return i32::MAX;
    }
    if board.in_stalemate.0 || board.in_stalemate.1 {
        return 0;
    }
    let mut score: i32 = 0;
    let mut y: usize = 0;
    while y < 8
        invariant
            y <= 8,
            score == material_before(*board, color, (y * 8) as nat),
            -10050 * (y * 8) <= score <= 10050 * (y * 8),
        decreases 8 - y,
    {
        let mut x: usize = 0;
        while x < 8
            invariant
                y < 8,
                x <= 8,
                score == material_before(*board, color, (y * 8 + x) as nat),
                -10050 * (y * 8 + x) <= score <= 10050 * (y * 8 + x),
            decreases 8 - x,
        {
            let coord = Coord { x, y };
            match board.piece_at(coord) {
                Some(piece) => {
                    let weighted_value: i32 = get_weighted_value(piece, coord);
                    if piece.color == color {
                        score = score + weighted_value;
                    } else {
                        score = score - weighted_value;
                    }
                },
                None => {},
            }
            x = x + 1;
        }
        y = y + 1;
    }
    score
}

/// The value of a position by plain minimax, `depth` plies deep, for the
/// fixed point of view of `color`. At depth zero, or where the side to move
/// has no legal move, it is the score of the position. Otherwise it is the
/// best of the values of the positions after each legal move, one ply
/// shallower and with the roles exchanged: the greatest (but at least
/// `i32::MIN + 1`) where `maximizing`, the least (but at most `i32::MAX - 1`)
/// where not.
pub open spec fn spec_minimax(board: Board, depth: nat, maximizing: bool, color: PieceColor) -> int
    decreases depth, 1nat, 0nat,
{
    if depth == 0 || !board.spec_has_valid_moves() {
        spec_eval_position(board, color)
    } else {
        best_of(board, depth, maximizing, color, board.spec_list_all_valid_moves().len())
    }
}

/// The best value among the first `n` legal moves of `board`.
pub open spec fn best_of(
    board: Board,
    depth: nat,
    maximizing: bool,
    color: PieceColor,
    n: nat,
) -> int
    decreases depth, 0nat, n,
{
    if depth == 0 {
        0
    } else if n == 0 {
        if maximizing {
            i32::MIN + 1
        } else {
            i32::MAX - 1
        }
    } else {
        let mv = board.spec_list_all_valid_moves()[n - 1];
        let child = spec_minimax(board.spec_do_move(mv), (depth - 1) as nat, !maximizing, color);
        let rest = best_of(board, depth, maximizing, color, (n - 1) as nat);
        if maximizing {
            if child > rest {
                child
            } else {
                rest
            }
        } else {
            if child < rest {
                child
            } else {
                rest
            }
        }
    }
}

/// What a search within the window `(alpha, beta)` tells of the exact
/// value: a result inside the window is exact, a result at or below `alpha`
/// is an upper bound, a result at or above `beta` a lower bound.
pub open spec fn within_window(value: int, exact: int, alpha: int, beta: int) -> bool {
    &&& value <= alpha ==> exact <= value
    &&& value >= beta ==> exact >= value
    &&& alpha < value < beta ==> exact == value
}

/// A search whose window holds the exact value returns it; one whose
/// window lies above the exact value returns at most `alpha`, one whose
/// window lies below it at least `beta`.
pub proof fn lemma_window_reading(value: int, exact: int, alpha: int, beta: int)
    requires
        alpha < beta,
        within_window(value, exact, alpha, beta),
    ensures
        alpha < exact < beta ==> value == exact,
        exact <= alpha ==> value <= alpha,
        exact >= beta ==> value >= beta,
{
}

/// The sum over the squares stays far inside the range of `i32`.
pub proof fn lemma_material_bounded(board: Board, color: PieceColor, n: nat)
    requires
        n <= 64,
    ensures
        -10050 * n <= material_before(board, color, n) <= 10050 * n,
    decreases n,
{
    if n > 0 {
        lemma_material_bounded(board, color, (n - 1) as nat);
        let c = nth_square(n - 1);
        match board.spec_piece_at(c) {
            Some(piece) => {
                lemma_weighted_value_bounded(piece, c);
            },
            None => {},
        }
    }
}

/// Every piece is worth between 50 and 10050 wherever it stands.
pub proof fn lemma_weighted_value_bounded(piece: Piece, c: Coord)
    requires
        c.on_board(),
    ensures
        50 <= spec_get_weighted_value(piece, c) <= 10050,
{
    let table = position_weights(piece);
}

/// The plain minimax value is a value of `i32`.
pub proof fn lemma_minimax_in_range(board: Board, depth: nat, maximizing: bool, color: PieceColor)
    ensures
        i32::MIN <= spec_minimax(board, depth, maximizing, color) <= i32::MAX,
    decreases depth, 1nat, 0nat,
{
    if depth == 0 || !board.spec_has_valid_moves() {
        lemma_material_bounded(board, color, 64);
    } else {
        lemma_best_of_in_range(
            board,
            depth,
            maximizing,
            color,
            board.spec_list_all_valid_moves().len(),
        );
    }
}

proof fn lemma_best_of_in_range(
    board: Board,
    depth: nat,
    maximizing: bool,
    color: PieceColor,
    n: nat,
)
    ensures
        i32::MIN <= best_of(board, depth, maximizing, color, n) <= i32::MAX,
    decreases depth, 0nat, n,
{
    if depth > 0 && n > 0 {
        let mv = board.spec_list_all_valid_moves()[n - 1];
        lemma_minimax_in_range(board.spec_do_move(mv), (depth - 1) as nat, !maximizing, color);
        lemma_best_of_in_range(board, depth, maximizing, color, (n - 1) as nat);
    }
}

/// Looking at more moves can only raise the best value of the maximizing
/// side and only lower that of the minimizing side.
proof fn lemma_best_of_monotone(
    board: Board,
    depth: nat,
    maximizing: bool,
    color: PieceColor,
    few: nat,
    many: nat,
)
    requires
        depth > 0,
        few <= many,
    ensures
        maximizing ==> best_of(board, depth, maximizing, color, few) <= best_of(
            board,
            depth,
            maximizing,
            color,
            many,
        ),
        !maximizing ==> best_of(board, depth, maximizing, color, few) >= best_of(
            board,
            depth,
            maximizing,
            color,
            many,
        ),
    decreases many,
{
    if few < many {
        lemma_best_of_monotone(board, depth, maximizing, color, few, (many - 1) as nat);
    }
}

/// Minimax with alpha-beta pruning. The moves are tried in the order of
/// [`Board::list_all_valid_moves`], each on a copy of the board; once the
/// window has closed (`beta <= alpha`) the remaining moves are skipped. For
/// a window that is open (`alpha < beta`) the result stands to the plain
/// minimax value as [`within_window`] says, and with the full window it is
/// that value.
pub fn minimax(
    board: &Board,
    depth: u8,
    alpha: i32,
    beta: i32,
    is_maximizing: bool,
    getting_move_for: PieceColor,
) -> (value: i32)
    ensures
        alpha < beta ==> within_window(
            value as int,
            spec_minimax(*board, depth as nat, is_maximizing, getting_move_for),
            alpha as int,
            beta as int,
        ),
        alpha == i32::MIN && beta == i32::MAX ==> value == spec_minimax(
            *board,
            depth as nat,
            is_maximizing,
            getting_move_for,
        ),
    decreases depth,
{
    proof {
        lemma_minimax_in_range(*board, depth as nat, is_maximizing, getting_move_for);
    }
    if depth == 0 {
        return eval_position(board, getting_move_for);
    }
    let legal_moves = board.list_all_valid_moves();
    if legal_moves.len() == 0 {
        return eval_position(board, getting_move_for);
    }
    let ghost all = board.spec_list_all_valid_moves();
    let mut low: i32 = alpha;
    let mut high: i32 = beta;
    let mut best_move_value: i32 = if is_maximizing {
        i32::MIN + 1
    } else {
        i32::MAX - 1
    };
    let mut i: usize = 0;
    while i < legal_moves.len()
        invariant
            depth > 0,
            i <= legal_moves.len(),
            all == board.spec_list_all_valid_moves(),
            legal_moves@ == all,
            forall|mv: Move| all.contains(mv) ==> board.lists(mv),
            alpha < beta ==> low < high,
            alpha < beta && is_maximizing ==> high == beta && alpha <= low && (low <= alpha || low
                <= best_move_value),
            alpha < beta && !is_maximizing ==> low == alpha && high <= beta && (high >= beta
                || high >= best_move_value),
            alpha < beta ==> within_window(
                best_move_value as int,
                best_of(*board, depth as nat, is_maximizing, getting_move_for, i as nat),
                alpha as int,
                beta as int,
            ),
        decreases legal_moves.len() - i,
    {
        let m: Move = legal_moves[i];
        assert(all.contains(m));
        assert(board.lists(m));
        let mut child: Board = *board;
        let _played = child.do_move_from_coord(m);
        let child_board_value: i32 = minimax(
            &child,
            depth - 1,
            low,
            high,
            !is_maximizing,
            getting_move_for,
        );
        if is_maximizing {
            if child_board_value > best_move_value {
                best_move_value = child_board_value;
            }
            if best_move_value > low {
                low = best_move_value;
            }
        } else {
            if child_board_value < best_move_value {
                best_move_value = child_board_value;
            }
            if best_move_value < high {
                high = best_move_value;
            }
        }
        if high <= low {
            proof {
                lemma_minimax_in_range(*board, depth as nat, is_maximizing, getting_move_for);
                lemma_best_of_monotone(
                    *board,
                    depth as nat,
                    is_maximizing,
                    getting_move_for,
                    (i + 1) as nat,
                    all.len(),
                );
            }
            return best_move_value;
        }
        i = i + 1;
    }
    best_move_value
}

/// The index of the first greatest among the first `n` scores.
pub open spec fn first_best(scores: Seq<int>, n: nat) -> int
    decreases n,
{
    if n <= 1 {
        0
    } else {
        let k = first_best(scores, (n - 1) as nat);
        if scores[n - 1] > scores[k] {
            n - 1
        } else {
            k
        }
    }
}

/// [`first_best`] names a score that none exceeds and that none before it
/// equals.
pub proof fn lemma_first_best(scores: Seq<int>, n: nat)
    requires
        1 <= n <= scores.len(),
    ensures
        0 <= first_best(scores, n) < n,
        forall|j: int| 0 <= j < n ==> #[trigger] scores[j] <= scores[first_best(scores, n)],
        forall|j: int|
            0 <= j < first_best(scores, n) ==> #[trigger] scores[j] < scores[first_best(scores, n)],
    decreases n,
{
    if n > 1 {
        lemma_first_best(scores, (n - 1) as nat);
    }
}

/// The scores of a list of scored moves.
pub open spec fn scores_of(results: Seq<(Move, i32)>) -> Seq<int> {
    Seq::new(results.len(), |i: int| results[i].1 as int)
}

/// Of a list of scored moves, the move with the greatest score; among
/// equals, the one that comes first. `None` for an empty list.
pub fn best_scored_move(results: &Vec<(Move, i32)>) -> (best: Option<Move>)
    ensures
        results@.len() == 0 ==> best is None,
        results@.len() > 0 ==> best == Some(
            results@[first_best(scores_of(results@), results@.len())].0,
        ),
{
    if results.len() == 0 {
        return None;
    }
    let ghost scores = scores_of(results@);
    let mut best_move: Move = results[0].0;
    let mut best_score: i32 = results[0].1;
    let mut i: usize = 1;
    while i < results.len()
        invariant
            1 <= i <= results.len(),
            scores == scores_of(results@),
            0 <= first_best(scores, i as nat) < i,
            best_move == results@[first_best(scores, i as nat)].0,
            best_score == scores[first_best(scores, i as nat)],
        decreases results.len() - i,
    {
        let (m, score) = results[i];
        if score > best_score {
            best_score = score;
            best_move = m;
        }
        i = i + 1;
    }
    Some(best_move)
}

/// How many plies the search looks beyond a root move: one less than the
/// depth asked for, and none for depth 0.
pub open spec fn plies_after_root(depth: u8) -> nat {
    if depth == 0 {
        0
    } else {
        (depth - 1) as nat
    }
}

/// The score of playing the legal move `mv` on `board`, for the side that
/// plays it: the plain minimax value of the position that follows, with the
/// opponent to move and minimizing.
pub open spec fn spec_score_root_move(depth: u8, board: Board, mv: Move) -> int {
    spec_minimax(board.spec_do_move(mv), plies_after_root(depth), false, board.turn)
}

/// Plays `mv` on a copy of `board` and searches the position that follows.
pub fn score_root_move(depth: u8, board: &Board, mv: Move) -> (score: i32)
    requires
        mv.from.on_board(),
        mv.to.on_board(),
        board.spec_is_valid_move(mv),
    ensures
        score == spec_score_root_move(depth, *board, mv),
{
    let mut child: Board = *board;
    let _played = child.do_move_from_coord(mv);
    let plies: u8 = if depth == 0 {
        0
    } else {
        depth - 1
    };
    minimax(&child, plies, i32::MIN, i32::MAX, false, board.turn)
}

/// The scores of all legal moves of `board`, in the order of the list.
pub open spec fn root_scores(depth: u8, board: Board) -> Seq<int> {
    Seq::new(
        board.spec_list_all_valid_moves().len(),
        |i: int| spec_score_root_move(depth, board, board.spec_list_all_valid_moves()[i]),
    )
}

/// The move that the search chooses: the legal move with the greatest
/// score, the first such in the order of the list; none where the side to
/// move has no legal move.
pub open spec fn spec_make_best_move(depth: u8, board: Board) -> Option<Move> {
    let moves = board.spec_list_all_valid_moves();
    if moves.len() == 0 {
        None
    } else {
        Some(moves[first_best(root_scores(depth, board), moves.len())])
    }
}

/// Chooses a move for the side to move by searching `depth` plies ahead:
/// each legal move is played on a copy of the board and the position that
/// follows is valued by minimax. Returns `None` exactly when there is no
/// legal move; a move that is returned is legal.
pub fn make_best_move(depth: u8, board: &Board) -> (best: Option<Move>)
    ensures
        best == spec_make_best_move(depth, *board),
        best is None <==> !board.spec_has_valid_moves(),
        best matches Some(mv) ==> board.spec_list_all_valid_moves().contains(mv)
            && board.spec_is_valid_move(mv),
{
    let possible_moves = board.list_all_valid_moves();
    let ghost all = board.spec_list_all_valid_moves();
    let mut results: Vec<(Move, i32)> = Vec::new();
    let mut i: usize = 0;
    while i < possible_moves.len()
        invariant
            i <= possible_moves.len(),
            all == board.spec_list_all_valid_moves(),
            possible_moves@ == all,
            forall|mv: Move| all.contains(mv) ==> board.lists(mv),
            results@.len() == i,
            forall|j: int|
                0 <= j < i ==> (#[trigger] results@[j]).0 == all[j] && results@[j].1
                    == spec_score_root_move(depth, *board, all[j]),
        decreases possible_moves.len() - i,
    {
        let m: Move = possible_moves[i];
        assert(all.contains(m));
        assert(board.lists(m));
        let score: i32 = score_root_move(depth, board, m);
        results.push((m, score));
        i = i + 1;
    }
    let best = best_scored_move(&results);
    proof {
        if all.len() > 0 {
            assert(scores_of(results@) =~= root_scores(depth, *board));
            lemma_first_best(root_scores(depth, *board), all.len());
            let k = first_best(root_scores(depth, *board), all.len());
            assert(all.contains(all[k]));
        }
    }
    best
}

} // verus!
