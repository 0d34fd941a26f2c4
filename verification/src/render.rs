//! What a renderer draws on each cell of the board. Colours and output are
//! the renderer's own business; which glyph, which ink and which shade go on
//! which cell is decided here.

use crate::board::{Board, Coord, Square};
use crate::pieces::PieceColor;
use vstd::prelude::*;

verus! {

/// How one cell of the text board is drawn.
#[derive(Clone, Copy, Debug, PartialEq)]
pub struct Cell {
    /// The glyph of the piece on the cell, a blank for an empty cell.
    pub glyph: &'static str,
    /// The colour of the glyph: that of the piece, White on an empty cell.
    pub ink: PieceColor,
    /// Whether the cell has the darker of the two backgrounds.
    pub dark: bool,
}

impl Square {
    /// The glyph of the occupant, a blank where there is none.
    pub open spec fn spec_fancy_char(self) -> Seq<char> {
        match self {
            Square::Occupied(piece) => piece.spec_fancy_char(),
            Square::Empty => " "@,
        }
    }

    /// The glyph that the text renderer draws for this cell.
    pub fn fancy_char(self) -> (glyph: &'static str)
        ensures
            glyph@ == self.spec_fancy_char(),
    {
        match self {
            Square::Occupied(piece) => piece.fancy_char(),
            Square::Empty => " ",
        }
    }
}

/// The cells of the text board alternate between two backgrounds; the cell
/// of row 0 and column 0 has the lighter one.
pub open spec fn spec_is_dark_cell(row: int, col: int) -> bool {
    (row + col) % 2 != 0
}

/// The squares of the graphical board alternate between two shades; the
/// square whose two indices are 0 has the darker one.
pub open spec fn spec_is_light_square(row: int, col: int) -> bool {
    (row * 9 + col) % 2 == 1
}

/// Whether the graphical board shows the square with these indices in the
/// lighter shade.
pub fn is_light_square(row: usize, col: usize) -> (light: bool)
    requires
        row < 8,
        col < 8,
    ensures
        light == spec_is_light_square(row as int, col as int),
        light == ((row + col) % 2 == 1),
{
    (row * 9 + col) % 2 == 1
}

/// The number printed beside a row of the text board: 8 for row 0 down to 1
/// for row 7.
pub fn rank_label(row: usize) -> (rank: usize)
    requires
        row < 8,
    ensures
        rank == 8 - row,
{
    8 - row
}

impl Board {
    /// What the text renderer draws in row `row`, column `col`.
    pub fn cell(&self, row: usize, col: usize) -> (cell: Cell)
        requires
            row < 8,
            col < 8,
        ensures
            cell.glyph@ == self.square(Coord { x: col, y: row }).spec_fancy_char(),
            cell.ink == (match self.square(Coord { x: col, y: row }) {
                Square::Occupied(piece) => piece.color,
                Square::Empty => PieceColor::White,
            }),
            cell.dark == spec_is_dark_cell(row as int, col as int),
    {
        let square = self.board[row][col];
        Cell {
            glyph: square.fancy_char(),
            ink: match square {
                Square::Occupied(piece) => piece.color,
                Square::Empty => PieceColor::White,
            },
            dark: (row + col) % 2 != 0,
        }
    }
}

} // verus!
