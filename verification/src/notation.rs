//! Text in and out: algebraic square notation and four-character moves.

use crate::board::{Board, BoardError, Coord, Move};
use vstd::prelude::*;
use vstd::string::StringExecFns;

verus! {

/// `String::push` of the standard library, which its documentation describes
/// as appending the given `char` to the end of the string: afterwards the
/// string reads as before with `c` added at the end.
pub assume_specification[ String::push ](text: &mut String, c: char)
    ensures
        final(text)@ == old(text)@.push(c),
;

/// The characters of a string, in order.
pub fn chars_of(text: &str) -> (chars: Vec<char>)
    ensures
        chars@ == text@,
{
    let mut chars: Vec<char> = Vec::new();
    for c in it: text.chars()
        invariant
            it.seq() == text@,
            chars@.len() == it.index(),
            forall|j: int| 0 <= j < chars@.len() ==> chars@[j] == it.seq()[j],
    {
        chars.push(c);
    }
    chars
}

/// The square that a file letter and a rank digit name, if they name one:
/// files `a` to `h` are columns 0 to 7, ranks `8` down to `1` are rows 0 to 7.
pub open spec fn square_named(file: char, rank: char) -> Option<Coord> {
    if 'a' <= file <= 'h' && '1' <= rank <= '8' {
        Some(Coord { x: (file as int - 'a' as int) as usize, y: ('8' as int - rank as int) as usize })
    } else {
        None
    }
}

/// The square that a text names: exactly two characters, a file letter and a
/// rank digit.
pub open spec fn parse_square(text: Seq<char>) -> Option<Coord> {
    if text.len() == 2 {
        square_named(text[0], text[1])
    } else {
        None
    }
}

/// The move that a text names: its first two characters name the origin, the
/// next two the destination; what follows is not read.
pub open spec fn parse_move_text(text: Seq<char>) -> Option<Move> {
    if text.len() >= 4 && square_named(text[0], text[1]) is Some && square_named(text[2], text[3])
        is Some {
        Some(
            Move {
                from: square_named(text[0], text[1])->0,
                to: square_named(text[2], text[3])->0,
                promote: None,
            },
        )
    } else {
        None
    }
}

/// The reason given when a move is turned down.
pub open spec fn invalid_move_text(from: Coord, to: Coord) -> Seq<char> {
    "Invalid move from "@ + from.spec_to_notation() + " to "@ + to.spec_to_notation()
}

pub(crate) fn name_square(file: char, rank: char) -> (named: Option<Coord>)
    ensures
        named == square_named(file, rank),
        named matches Some(c) ==> c.on_board(),
{
    if 'a' <= file && file <= 'h' && '1' <= rank && rank <= '8' {
        let x: u8 = file as u8 - 97;
        let y: u8 = 56 - rank as u8;
        Some(Coord { x: x as usize, y: y as usize })
    } else {
        None
    }
}

fn invalid_notation() -> (e: BoardError)
    ensures
        e.is_parse_error("Invalid notation"@),
{
    BoardError::ParseError(String::from_str("Invalid notation"))
}

impl Coord {
    /// Reads a square such as `a3`. Anything but a file letter `a` to `h`
    /// followed by a rank digit `1` to `8` is a parse error.
    pub fn from_notation(notation: &str) -> (parsed: Result<Coord, BoardError>)
        ensures
            parsed matches Ok(c) ==> parse_square(notation@) == Some(c) && c.on_board(),
            parsed matches Err(e) ==> parse_square(notation@) is None && e.is_parse_error(
                "Invalid notation"@,
            ),
    {
        let chars = chars_of(notation);
        if chars.len() != 2 {
            return Err(invalid_notation());
        }
        match name_square(chars[0], chars[1]) {
            Some(c) => Ok(c),
            None => Err(invalid_notation()),
        }
    }

    /// The two characters that name this square.
    pub open spec fn spec_to_notation(self) -> Seq<char> {
        seq![('a' as int + self.x) as char, ('8' as int - self.y) as char]
    }

    /// Writes the square as a file letter and a rank digit.
    pub fn to_notation(self) -> (text: String)
        requires
            self.on_board(),
        ensures
            text@ == self.spec_to_notation(),
            parse_square(text@) == Some(self),
    {
        let file: char = (self.x as u8 + 97) as char;
        let rank: char = (56 - self.y as u8) as char;
        let mut text = String::new();
        text.push(file);
        text.push(rank);
        text
    }
}

impl Board {
    /// Reads a move such as `e2e4`: origin square, then destination square.
    /// The position plays no part; the move is not checked for legality.
    pub fn parse_move(&self, notation: &str) -> (parsed: Result<Move, BoardError>)
        ensures
            parsed matches Ok(mv) ==> parse_move_text(notation@) == Some(mv) && mv.from.on_board()
                && mv.to.on_board(),
            parsed matches Err(e) ==> parse_move_text(notation@) is None && e.is_parse_error(
                "Invalid notation"@,
            ),
    {
        let chars = chars_of(notation);
        if chars.len() < 4 {
            return Err(invalid_notation());
        }
        let from = match name_square(chars[0], chars[1]) {
            Some(c) => c,
            None => {
                return Err(invalid_notation());
            },
        };
        let to = match name_square(chars[2], chars[3]) {
            Some(c) => c,
            None => {
                return Err(invalid_notation());
            },
        };
        Ok(Move::new(from, to, None))
    }

    /// Plays the move between two squares given in notation. A square that
    /// does not parse is a parse error (the origin is read first) and an
    /// illegal move a move error; either way the position stays as it was.
    pub fn do_move(&mut self, from: &str, to: &str) -> (done: Result<(), BoardError>)
        ensures
            done is Ok <==> parse_square(from@) is Some && parse_square(to@) is Some && old(
                self,
            ).spec_is_valid_move(
                Move { from: parse_square(from@)->0, to: parse_square(to@)->0, promote: None },
            ),
            done is Ok ==> *final(self) == old(self).spec_do_move(
                Move { from: parse_square(from@)->0, to: parse_square(to@)->0, promote: None },
            ),
            done is Ok ==> final(self).turn == old(self).turn.spec_opposite(),
            done is Ok ==> !final(self).spec_is_in_check(old(self).turn),
            done is Ok && old(self).settled() ==> final(self).settled(),
            done matches Err(e) ==> *final(self) == *old(self) && (if parse_square(from@) is None
                || parse_square(to@) is None {
                e.is_parse_error("Invalid notation"@)
            } else {
                e.is_move_error(
                    invalid_move_text(parse_square(from@)->0, parse_square(to@)->0),
                )
            }),
    {
        let origin = match Coord::from_notation(from) {
            Ok(c) => c,
            Err(e) => {
                return Err(e);
            },
        };
        let target = match Coord::from_notation(to) {
            Ok(c) => c,
            Err(e) => {
                return Err(e);
            },
        };
        self.do_move_from_coord(Move::new(origin, target, None))
    }
}

} // verus!
