//! Reading a position from its six-field description: piece placement, side
//! to move, castling rights, en-passant target, halfmove clock and fullmove
//! number, separated by white space.

use crate::board::{Board, BoardError, Coord, Square};
use crate::laws::lemma_flags_settle;
use crate::notation::{chars_of, parse_square};
use crate::pieces::{Piece, PieceColor, PieceKind};
use vstd::prelude::*;
use vstd::string::StringExecFns;

verus! {

/// The characters that separate fields: Unicode white space.
pub open spec fn is_space(c: char) -> bool {
    let n = c as u32;
    ||| 0x09 <= n <= 0x0D
    ||| n == 0x20
    ||| n == 0x85
    ||| n == 0xA0
    ||| n == 0x1680
    ||| 0x2000 <= n <= 0x200A
    ||| n == 0x2028
    ||| n == 0x2029
    ||| n == 0x202F
    ||| n == 0x205F
    ||| n == 0x3000
}

/// The first index at or after `pos` that holds no white space, or the
/// length of the text.
pub open spec fn field_start(text: Seq<char>, pos: int) -> int
    decreases text.len() - pos,
{
    if pos < 0 || pos >= text.len() {
        text.len() as int
    } else if !is_space(text[pos]) {
        pos
    } else {
        field_start(text, pos + 1)
    }
}

/// The first index at or after `pos` that holds white space, or the length
/// of the text.
pub open spec fn field_end(text: Seq<char>, pos: int) -> int
    decreases text.len() - pos,
{
    if pos < 0 || pos >= text.len() {
        text.len() as int
    } else if is_space(text[pos]) {
        pos
    } else {
        field_end(text, pos + 1)
    }
}

/// Where the `n`-th field begins and ends. A field that is missing begins at
/// the end of the text.
pub open spec fn field_bounds(text: Seq<char>, n: nat) -> (int, int)
    decreases n,
{
    let after = if n == 0 {
        0
    } else {
        field_bounds(text, (n - 1) as nat).1
    };
    let start = field_start(text, after);
    (start, field_end(text, start))
}

/// The `n`-th run of characters between white space, if the text has that
/// many.
pub open spec fn fen_field(text: Seq<char>, n: nat) -> Option<Seq<char>> {
    let (start, end) = field_bounds(text, n);
    if start < text.len() {
        Some(text.subrange(start, end))
    } else {
        None
    }
}

/// The piece that a placement letter stands for: lower case is Black, upper
/// case White.
pub open spec fn piece_of_letter(c: char) -> Option<Piece> {
    if c == 'p' {
        Some(Piece { color: PieceColor::Black, kind: PieceKind::Pawn })
    } else if c == 'n' {
        Some(Piece { color: PieceColor::Black, kind: PieceKind::Knight })
    } else if c == 'b' {
        Some(Piece { color: PieceColor::Black, kind: PieceKind::Bishop })
    } else if c == 'r' {
        Some(Piece { color: PieceColor::Black, kind: PieceKind::Rook })
    } else if c == 'q' {
        Some(Piece { color: PieceColor::Black, kind: PieceKind::Queen })
    } else if c == 'k' {
        Some(Piece { color: PieceColor::Black, kind: PieceKind::King })
    } else if c == 'P' {
        Some(Piece { color: PieceColor::White, kind: PieceKind::Pawn })
    } else if c == 'N' {
        Some(Piece { color: PieceColor::White, kind: PieceKind::Knight })
    } else if c == 'B' {
        Some(Piece { color: PieceColor::White, kind: PieceKind::Bishop })
    } else if c == 'R' {
        Some(Piece { color: PieceColor::White, kind: PieceKind::Rook })
    } else if c == 'Q' {
        Some(Piece { color: PieceColor::White, kind: PieceKind::Queen })
    } else if c == 'K' {
        Some(Piece { color: PieceColor::White, kind: PieceKind::King })
    } else {
        None
    }
}

/// The state of reading a placement field: the board filled so far and the
/// cell that the next character speaks of.
pub struct Placing {
    pub board: Board,
    pub x: usize,
    pub y: usize,
}

/// One character of the placement field. A `/` starts the next row; a letter
/// puts its piece on the current cell (and records a king's square) and moves
/// one cell on; a digit `0` to `8` leaves that many cells empty. A character
/// met when the row already holds more than eight cells or the board more
/// than eight rows, or a letter or digit met when the row is full, means the
/// board is too big; any other character is invalid.
pub open spec fn place_one(at: Placing, c: char) -> Result<Placing, Seq<char>> {
    let here = Coord { x: at.x, y: at.y };
    if at.x > 8 || at.y > 7 {
        Err("Board too big"@)
    } else if c == '/' {
        Ok(Placing { board: at.board, x: 0, y: (at.y + 1) as usize })
    } else if piece_of_letter(c) is Some {
        if at.x == 8 {
            Err("Board too big"@)
        } else {
            let piece = piece_of_letter(c)->0;
            let filled = at.board.with_square(here, Square::Occupied(piece));
            Ok(
                Placing {
                    board: Board {
                        white_king: if piece == (Piece {
                            color: PieceColor::White,
                            kind: PieceKind::King,
                        }) {
                            here
                        } else {
                            at.board.white_king
                        },
                        black_king: if piece == (Piece {
                            color: PieceColor::Black,
                            kind: PieceKind::King,
                        }) {
                            here
                        } else {
                            at.board.black_king
                        },
                        ..filled
                    },
                    x: (at.x + 1) as usize,
                    y: at.y,
                },
            )
        }
    } else if '0' <= c <= '8' {
        if at.x == 8 {
            Err("Board too big"@)
        } else {
            Ok(
                Placing {
                    board: at.board.with_square(here, Square::Empty),
                    x: (at.x + (c as int - '0' as int)) as usize,
                    y: at.y,
                },
            )
        }
    } else {
        Err("Invalid character in lines"@)
    }
}

/// The placement field read character by character, starting from `start`;
/// the first character that fails decides the error.
pub open spec fn place_all(start: Placing, lines: Seq<char>) -> Result<Placing, Seq<char>>
    decreases lines.len(),
{
    if lines.len() == 0 {
        Ok(start)
    } else {
        match place_all(start, lines.drop_last()) {
            Ok(at) => place_one(at, lines.last()),
            Err(reason) => Err(reason),
        }
    }
}

/// The value of a run of decimal digits.
pub open spec fn decimal_value(digits: Seq<char>) -> nat
    decreases digits.len(),
{
    if digits.len() == 0 {
        0
    } else {
        (decimal_value(digits.drop_last()) * 10 + (digits.last() as int - '0' as int)) as nat
    }
}

/// Every character is a decimal digit.
pub open spec fn all_digits(text: Seq<char>) -> bool {
    forall|i: int| 0 <= i < text.len() ==> '0' <= #[trigger] text[i] <= '9'
}

/// The number that a clock field holds: an optional `+`, then one or more
/// decimal digits whose value is at most 255.
pub open spec fn parse_clock(text: Seq<char>) -> Option<u8> {
    let digits = if text.len() > 0 && text[0] == '+' {
        text.skip(1)
    } else {
        text
    };
    if digits.len() > 0 && all_digits(digits) && decimal_value(digits) <= 255 {
        Some(decimal_value(digits) as u8)
    } else {
        None
    }
}

/// The board that a position description stands for, or the reason why it
/// stands for none. The fields are read in order and the first fault found
/// decides the reason.
pub open spec fn spec_from_fen(text: Seq<char>) -> Result<Board, Seq<char>> {
    let lines = fen_field(text, 0);
    let turn = fen_field(text, 1);
    let castle = fen_field(text, 2);
    let target = fen_field(text, 3);
    let halfmove = fen_field(text, 4);
    let fullmove = fen_field(text, 5);
    let placed = place_all(Placing { board: Board::spec_empty(), x: 0, y: 0 }, lines->0);
    if lines is None {
        Err("Lines not provided"@)
    } else if placed is Err {
        Err(placed->Err_0)
    } else if turn is None {
        Err("Invalid length of FEN"@)
    } else if turn->0 != seq!['w'] && turn->0 != seq!['b'] {
        Err("Invalid turn character"@)
    } else if castle is None || target is None {
        Err("Invalid length of FEN"@)
    } else if target->0 != seq!['-'] && parse_square(target->0) is None {
        Err("Invalid notation"@)
    } else if halfmove is None {
        Err("Missing halfmove clock"@)
    } else if parse_clock(halfmove->0) is None {
        Err("Invalid halfmove clock"@)
    } else if fullmove is None {
        Err("Missing fullmove clock"@)
    } else if parse_clock(fullmove->0) is None || parse_clock(fullmove->0) == Some(0u8) {
        Err("Invalid fullmove clock"@)
    } else {
        Ok(
            (Board {
                turn: if turn->0 == seq!['w'] {
                    PieceColor::White
                } else {
                    PieceColor::Black
                },
                white_castle: (castle->0.contains('K'), castle->0.contains('Q')),
                black_castle: (castle->0.contains('k'), castle->0.contains('q')),
                en_passant: if target->0 == seq!['-'] {
                    None
                } else {
                    parse_square(target->0)
                },
                halfmove_clock: parse_clock(halfmove->0)->0,
                fullmove_number: parse_clock(fullmove->0)->0,
                ..placed->Ok_0.board
            }).spec_set_check().spec_check_end_conditions(),
        )
    }
}

fn is_separator(c: char) -> (space: bool)
    ensures
        space == is_space(c),
{
    let n: u32 = c as u32;
    (0x09 <= n && n <= 0x0D) || n == 0x20 || n == 0x85 || n == 0xA0 || n == 0x1680 || (0x2000 <= n
        && n <= 0x200A) || n == 0x2028 || n == 0x2029 || n == 0x202F || n == 0x205F || n == 0x3000
}

fn letter_piece(c: char) -> (piece: Option<Piece>)
    ensures
        piece == piece_of_letter(c),
{
    if c == 'p' {
        Some(Piece::pawn(PieceColor::Black))
    } else if c == 'n' {
        Some(Piece::knight(PieceColor::Black))
    } else if c == 'b' {
        Some(Piece::bishop(PieceColor::Black))
    } else if c == 'r' {
        Some(Piece::rook(PieceColor::Black))
    } else if c == 'q' {
        Some(Piece::queen(PieceColor::Black))
    } else if c == 'k' {
        Some(Piece::king(PieceColor::Black))
    } else if c == 'P' {
        Some(Piece::pawn(PieceColor::White))
    } else if c == 'N' {
        Some(Piece::knight(PieceColor::White))
    } else if c == 'B' {
        Some(Piece::bishop(PieceColor::White))
    } else if c == 'R' {
        Some(Piece::rook(PieceColor::White))
    } else if c == 'Q' {
        Some(Piece::queen(PieceColor::White))
    } else if c == 'K' {
        Some(Piece::king(PieceColor::White))
    } else {
        None
    }
}

fn parse_error(reason: &str) -> (e: BoardError)
    ensures
        e.is_parse_error(reason@),
{
    BoardError::ParseError(String::from_str(reason))
}

/// Finds the field that begins at or after `pos`.
fn next_field(chars: &Vec<char>, pos: usize) -> (bounds: (usize, usize))
    requires
        pos <= chars.len(),
    ensures
        bounds.0 == field_start(chars@, pos as int),
        bounds.1 == field_end(chars@, bounds.0 as int),
        pos <= bounds.0 <= bounds.1 <= chars.len(),
{
    let mut start: usize = pos;
    while start < chars.len() && is_separator(chars[start])
        invariant
            pos <= start <= chars.len(),
            field_start(chars@, pos as int) == field_start(chars@, start as int),
        decreases chars.len() - start,
    {
        start = start + 1;
    }
    let mut end: usize = start;
    while end < chars.len() && !is_separator(chars[end])
        invariant
            start <= end <= chars.len(),
            field_end(chars@, start as int) == field_end(chars@, end as int),
        decreases chars.len() - end,
    {
        end = end + 1;
    }
    (start, end)
}

/// Once a character has failed, the rest of the field changes nothing.
proof fn lemma_placement_error_sticks(start: Placing, lines: Seq<char>, k: int)
    requires
        0 <= k <= lines.len(),
        place_all(start, lines.take(k)) is Err,
    ensures
        place_all(start, lines) == place_all(start, lines.take(k)),
    decreases lines.len() - k,
{
    if k < lines.len() {
        assert(lines.take(k + 1).drop_last() =~= lines.take(k));
        lemma_placement_error_sticks(start, lines, k + 1);
    } else {
        assert(lines.take(k) =~= lines);
    }
}

/// Reads the placement field that `chars` holds from `start` to `end`.
fn place_lines(chars: &Vec<char>, start: usize, end: usize) -> (placed: Result<Board, BoardError>)
    requires
        start <= end <= chars.len(),
    ensures
        ({
            let read = place_all(
                Placing { board: Board::spec_empty(), x: 0, y: 0 },
                chars@.subrange(start as int, end as int),
            );
            match placed {
                Ok(board) => {
                    &&& read is Ok
                    &&& read->Ok_0.board == board
                    &&& board.en_passant is None
                    &&& board.in_checkmate == (false, false)
                    &&& board.in_stalemate == (false, false)
                },
                Err(e) => read is Err && e.is_parse_error(read->Err_0),
            }
        }),
{
    let ghost lines = chars@.subrange(start as int, end as int);
    let ghost first = Placing { board: Board::spec_empty(), x: 0, y: 0 };
    let mut board = Board::empty();
    let mut x: usize = 0;
    let mut y: usize = 0;
    let mut i: usize = start;
    while i < end
        invariant
            start <= i <= end <= chars.len(),
            lines == chars@.subrange(start as int, end as int),
            first == (Placing { board: Board::spec_empty(), x: 0, y: 0 }),
            x <= 16,
            y <= 8,
            board.en_passant is None,
            board.in_checkmate == (false, false),
            board.in_stalemate == (false, false),
            place_all(first, lines.take(i - start)) == Ok::<Placing, Seq<char>>(
                Placing { board, x, y },
            ),
        decreases end - i,
    {
        let c: char = chars[i];
        proof {
            assert(lines.take(i - start + 1).drop_last() =~= lines.take(i - start));
        }
        if x > 8 || y > 7 {
            proof {
                lemma_placement_error_sticks(first, lines, i - start + 1);
            }
            return Err(parse_error("Board too big"));
        }
        if c == '/' {
            x = 0;
            y = y + 1;
        } else {
            match letter_piece(c) {
                Some(piece) => {
                    if x == 8 {
                        proof {
                            lemma_placement_error_sticks(first, lines, i - start + 1);
                        }
                        return Err(parse_error("Board too big"));
                    }
                    board.board[y][x] = Square::Occupied(piece);
                    if piece.color == PieceColor::White && piece.kind == PieceKind::King {
                        board.white_king = Coord { x, y };
                    }
                    if piece.color == PieceColor::Black && piece.kind == PieceKind::King {
                        board.black_king = Coord { x, y };
                    }
                    x = x + 1;
                },
                None => {
                    if '0' <= c && c <= '8' {
                        if x == 8 {
                            proof {
                                lemma_placement_error_sticks(first, lines, i - start + 1);
                            }
                            return Err(parse_error("Board too big"));
                        }
                        board.board[y][x] = Square::Empty;
                        let run: u8 = c as u8 - 48;
                        x = x + run as usize;
                    } else {
                        proof {
                            lemma_placement_error_sticks(first, lines, i - start + 1);
                        }
                        return Err(parse_error("Invalid character in lines"));
                    }
                },
            }
        }
        i = i + 1;
    }
    assert(lines.take(i - start) =~= lines);
    Ok(board)
}

/// A longer run of digits is worth at least as much as its beginning.
proof fn lemma_decimal_grows(digits: Seq<char>, k: int)
    requires
        0 <= k <= digits.len(),
        all_digits(digits),
    ensures
        decimal_value(digits.take(k)) <= decimal_value(digits),
    decreases digits.len() - k,
{
    if k < digits.len() {
        assert(digits.take(k + 1).drop_last() =~= digits.take(k));
        lemma_decimal_grows(digits, k + 1);
    } else {
        assert(digits.take(k) =~= digits);
    }
}

/// Reads the clock field that `chars` holds from `start` to `end`.
fn read_clock(chars: &Vec<char>, start: usize, end: usize) -> (value: Option<u8>)
    requires
        start <= end <= chars.len(),
    ensures
        value == parse_clock(chars@.subrange(start as int, end as int)),
{
    let ghost text = chars@.subrange(start as int, end as int);
    let first: usize = if start < end && chars[start] == '+' {
        start + 1
    } else {
        start
    };
    let ghost digits = chars@.subrange(first as int, end as int);
    assert(digits =~= if text.len() > 0 && text[0] == '+' {
        text.skip(1)
    } else {
        text
    });
    if first == end {
        return None;
    }
    let mut total: u32 = 0;
    let mut i: usize = first;
    while i < end
        invariant
            first <= i <= end <= chars.len(),
            first < end,
            text == chars@.subrange(start as int, end as int),
            digits == chars@.subrange(first as int, end as int),
            digits == (if text.len() > 0 && text[0] == '+' {
                text.skip(1)
            } else {
                text
            }),
            all_digits(digits.take(i - first)),
            total == decimal_value(digits.take(i - first)),
            total <= 255,
        decreases end - i,
    {
        let c: char = chars[i];
        proof {
            assert(digits.take(i - first + 1).drop_last() =~= digits.take(i - first));
        }
        if !('0' <= c && c <= '9') {
            assert(digits[i - first] == c);
            return None;
        }
        let digit: u32 = (c as u8 - 48) as u32;
        let next: u32 = total * 10 + digit;
        assert(all_digits(digits.take(i - first + 1))) by {
            assert forall|j: int| 0 <= j < i - first + 1 implies '0' <= #[trigger] digits.take(
                i - first + 1,
            )[j] <= '9' by {
                if j < i - first {
                }
            }
        }
        if next > 255 {
            proof {
                if all_digits(digits) {
                    lemma_decimal_grows(digits, i - first + 1);
                }
            }
            return None;
        }
        total = next;
        i = i + 1;
    }
    assert(digits.take(i - first) =~= digits);
    Some(total as u8)
}

/// Whether the field that `chars` holds from `start` to `end` has the character `c`.
fn field_has(chars: &Vec<char>, start: usize, end: usize, c: char) -> (found: bool)
    requires
        start <= end <= chars.len(),
    ensures
        found == chars@.subrange(start as int, end as int).contains(c),
{
    let ghost field = chars@.subrange(start as int, end as int);
    let mut i: usize = start;
    while i < end
        invariant
            start <= i <= end <= chars.len(),
            field == chars@.subrange(start as int, end as int),
            forall|j: int| 0 <= j < i - start ==> field[j] != c,
        decreases end - i,
    {
        if chars[i] == c {
            assert(field[i - start] == c);
            return true;
        }
        i = i + 1;
    }
    false
}

/// Whether the field that `chars` holds from `start` to `end` is the one character `c`.
fn field_is(chars: &Vec<char>, start: usize, end: usize, c: char) -> (same: bool)
    requires
        start <= end <= chars.len(),
    ensures
        same == (chars@.subrange(start as int, end as int) == seq![c]),
{
    let ghost field = chars@.subrange(start as int, end as int);
    if end - start == 1 && chars[start] == c {
        assert(field =~= seq![c]);
        true
    } else {
        proof {
            if field == seq![c] {
                assert(seq![c].len() == 1);
                assert(field[0] == seq![c][0]);
            }
        }
        false
    }
}

impl Board {
    /// Reads a position from its description: piece placement from rank 8
    /// down, side to move (`w` or `b`), castling rights (the letters among
    /// `KQkq` that occur), en-passant target (a square or `-`), halfmove
    /// clock (0 to 255) and fullmove number (1 to 255). The check flag of the
    /// side to move and the checkmate and stalemate flags are computed for
    /// the position read. Each fault has its own reason.
    pub fn from_fen(fen: &str) -> (parsed: Result<Board, BoardError>)
        ensures
            match parsed {
                Ok(board) => spec_from_fen(fen@) == Ok::<Board, Seq<char>>(board) && board.settled(),
                Err(e) => spec_from_fen(fen@) is Err && e.is_parse_error(
                    spec_from_fen(fen@)->Err_0,
                ),
            },
    {
        let chars = chars_of(fen);
        let ghost text = chars@;
        let len: usize = chars.len();
        let lines = next_field(&chars, 0);
        let turn = next_field(&chars, lines.1);
        let castle = next_field(&chars, turn.1);
        let target = next_field(&chars, castle.1);
        let halfmove = next_field(&chars, target.1);
        let fullmove = next_field(&chars, halfmove.1);
        if lines.0 >= len {
            return Err(parse_error("Lines not provided"));
        }
        let mut board = match place_lines(&chars, lines.0, lines.1) {
            Ok(board) => board,
            Err(e) => {
                return Err(e);
            },
        };
        if turn.0 >= len {
            return Err(parse_error("Invalid length of FEN"));
        }
        if field_is(&chars, turn.0, turn.1, 'w') {
            board.turn = PieceColor::White;
        } else if field_is(&chars, turn.0, turn.1, 'b') {
            board.turn = PieceColor::Black;
        } else {
            return Err(parse_error("Invalid turn character"));
        }
        if castle.0 >= len {
            return Err(parse_error("Invalid length of FEN"));
        }
        board.white_castle = (
            field_has(&chars, castle.0, castle.1, 'K'),
            field_has(&chars, castle.0, castle.1, 'Q'),
        );
        board.black_castle = (
            field_has(&chars, castle.0, castle.1, 'k'),
            field_has(&chars, castle.0, castle.1, 'q'),
        );
        if target.0 >= len {
            return Err(parse_error("Invalid length of FEN"));
        }
        if !field_is(&chars, target.0, target.1, '-') {
            if target.1 - target.0 != 2 {
                return Err(parse_error("Invalid notation"));
            }
            match crate::notation::name_square(chars[target.0], chars[target.0 + 1]) {
                Some(c) => {
                    board.en_passant = Some(c);
                },
                None => {
                    return Err(parse_error("Invalid notation"));
                },
            }
        }
        if halfmove.0 >= len {
            return Err(parse_error("Missing halfmove clock"));
        }
        match read_clock(&chars, halfmove.0, halfmove.1) {
            Some(n) => {
                board.halfmove_clock = n;
            },
            None => {
                return Err(parse_error("Invalid halfmove clock"));
            },
        }
        if fullmove.0 >= len {
            return Err(parse_error("Missing fullmove clock"));
        }
        match read_clock(&chars, fullmove.0, fullmove.1) {
            Some(n) => {
                if n == 0 {
                    return Err(parse_error("Invalid fullmove clock"));
                }
                board.fullmove_number = n;
            },
            None => {
                return Err(parse_error("Invalid fullmove clock"));
            },
        }
        proof {
            let placed = place_all(
                Placing { board: Board::spec_empty(), x: 0, y: 0 },
                fen_field(text, 0)->0,
            );
            let turn_field = fen_field(text, 1)->0;
            let castle_field = fen_field(text, 2)->0;
            let target_field = fen_field(text, 3)->0;
            assert(board == Board {
                turn: if turn_field == seq!['w'] {
                    PieceColor::White
                } else {
                    PieceColor::Black
                },
                white_castle: (castle_field.contains('K'), castle_field.contains('Q')),
                black_castle: (castle_field.contains('k'), castle_field.contains('q')),
                en_passant: if target_field == seq!['-'] {
                    None
                } else {
                    parse_square(target_field)
                },
                halfmove_clock: parse_clock(fen_field(text, 4)->0)->0,
                fullmove_number: parse_clock(fen_field(text, 5)->0)->0,
                ..placed->Ok_0.board
            });
            lemma_flags_settle(board);
        }
        board.set_check();
        board.check_end_conditions();
        Ok(board)
    }
}

} // verus!
