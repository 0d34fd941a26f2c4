//! Pieces and the geometry of their moves, without regard to what else
//! stands on the board.

use crate::board::Coord;
use vstd::prelude::*;
use vstd::string::StringExecFns;

verus! {

/// The side a piece belongs to.
#[derive(Copy, Clone, PartialEq, Eq, Structural, Debug, Default)]
pub enum PieceColor {
    #[default]
    White,
    Black,
}

impl PieceColor {
    pub open spec fn spec_opposite(&self) -> PieceColor {
        match self {
            PieceColor::White => PieceColor::Black,
            PieceColor::Black => PieceColor::White,
        }
    }

    /// The name of the side.
    pub open spec fn spec_to_string(&self) -> Seq<char> {
        match self {
            PieceColor::White => "White"@,
            PieceColor::Black => "Black"@,
        }
    }

    /// The name of the side, `White` or `Black`.
    pub fn to_string(&self) -> (name: String)
        ensures
            name@ == self.spec_to_string(),
    {
        match self {
            PieceColor::White => String::from_str("White"),
            PieceColor::Black => String::from_str("Black"),
        }
    }

    /// The other side.
    #[verifier::when_used_as_spec(spec_opposite)]
    pub fn opposite(&self) -> (other: PieceColor)
        ensures
            other == self.spec_opposite(),
    {
        match self {
            PieceColor::White => PieceColor::Black,
            PieceColor::Black => PieceColor::White,
        }
    }
}

#[derive(Copy, Clone, PartialEq, Eq, Structural, Debug)]
pub enum PieceKind {
    Pawn,
    Knight,
    Bishop,
    Rook,
    Queen,
    King,
}

#[derive(Copy, Clone, PartialEq, Eq, Structural, Debug)]
pub struct Piece {
    pub color: PieceColor,
    pub kind: PieceKind,
}

/// How far apart two indices are.
pub open spec fn distance(a: int, b: int) -> int {
    if a <= b {
        b - a
    } else {
        a - b
    }
}

/// The index `k` steps from `a` in direction `d` (only the sign of `d` counts).
pub open spec fn shift(a: int, d: int, k: int) -> int {
    if d > 0 {
        a + k
    } else if d < 0 {
        a - k
    } else {
        a
    }
}

/// How many steps fit on the board from index `a` in direction `d`.
pub open spec fn room(a: int, d: int) -> int {
    if d > 0 {
        7 - a
    } else if d < 0 {
        a
    } else {
        7
    }
}

/// The squares met when leaving `from` in direction `(dx, dy)`, nearest
/// first, up to the edge of the board.
pub open spec fn ray(from: Coord, dx: int, dy: int) -> Seq<Coord> {
    let len = if room(from.x as int, dx) <= room(from.y as int, dy) {
        room(from.x as int, dx)
    } else {
        room(from.y as int, dy)
    };
    Seq::new(
        len as nat,
        |k: int|
            Coord {
                x: shift(from.x as int, dx, k + 1) as usize,
                y: shift(from.y as int, dy, k + 1) as usize,
            },
    )
}

/// The square at offset `(dx, dy)` from `from`, if it is on the board.
pub open spec fn hop(from: Coord, dx: int, dy: int) -> Seq<Coord> {
    if 0 <= from.x + dx < 8 && 0 <= from.y + dy < 8 {
        seq![Coord { x: (from.x + dx) as usize, y: (from.y + dy) as usize }]
    } else {
        Seq::empty()
    }
}

pub(crate) fn gap(a: usize, b: usize) -> (d: usize)
    ensures
        d == distance(a as int, b as int),
{
    if a <= b {
        b - a
    } else {
        a - b
    }
}

fn push_hop(moves: &mut Vec<Coord>, from: Coord, dx: i32, dy: i32)
    requires
        from.on_board(),
        -2 <= dx <= 2,
        -2 <= dy <= 2,
    ensures
        final(moves)@ == old(moves)@ + hop(from, dx as int, dy as int),
{
    let x: i32 = from.x as i32 + dx;
    let y: i32 = from.y as i32 + dy;
    if 0 <= x && x < 8 && 0 <= y && y < 8 {
        moves.push(Coord { x: x as usize, y: y as usize });
    }
}

fn push_ray(moves: &mut Vec<Coord>, from: Coord, dx: i32, dy: i32)
    requires
        from.on_board(),
        -1 <= dx <= 1,
        -1 <= dy <= 1,
        dx != 0 || dy != 0,
    ensures
        final(moves)@ == old(moves)@ + ray(from, dx as int, dy as int),
{
    let ghost line = ray(from, dx as int, dy as int);
    let mut x: i32 = from.x as i32 + dx;
    let mut y: i32 = from.y as i32 + dy;
    let mut k: usize = 0;
    while 0 <= x && x < 8 && 0 <= y && y < 8
        invariant
            from.on_board(),
            -1 <= dx <= 1,
            -1 <= dy <= 1,
            dx != 0 || dy != 0,
            line == ray(from, dx as int, dy as int),
            k <= line.len() <= 7,
            x == shift(from.x as int, dx as int, k + 1),
            y == shift(from.y as int, dy as int, k + 1),
            (0 <= x < 8 && 0 <= y < 8) <==> k < line.len(),
            moves@ == old(moves)@ + line.take(k as int),
        decreases line.len() - k,
    {
        moves.push(Coord { x: x as usize, y: y as usize });
        x = x + dx;
        y = y + dy;
        k = k + 1;
    }
}

impl Piece {
    pub fn pawn(color: PieceColor) -> (piece: Piece)
        ensures
            piece == (Piece { color, kind: PieceKind::Pawn }),
    {
        Piece { kind: PieceKind::Pawn, color }
    }

    pub fn knight(color: PieceColor) -> (piece: Piece)
        ensures
            piece == (Piece { color, kind: PieceKind::Knight }),
    {
        Piece { kind: PieceKind::Knight, color }
    }

    pub fn bishop(color: PieceColor) -> (piece: Piece)
        ensures
            piece == (Piece { color, kind: PieceKind::Bishop }),
    {
        Piece { kind: PieceKind::Bishop, color }
    }

    pub fn rook(color: PieceColor) -> (piece: Piece)
        ensures
            piece == (Piece { color, kind: PieceKind::Rook }),
    {
        Piece { kind: PieceKind::Rook, color }
    }

    pub fn queen(color: PieceColor) -> (piece: Piece)
        ensures
            piece == (Piece { color, kind: PieceKind::Queen }),
    {
        Piece { kind: PieceKind::Queen, color }
    }

    pub fn king(color: PieceColor) -> (piece: Piece)
        ensures
            piece == (Piece { color, kind: PieceKind::King }),
    {
        Piece { kind: PieceKind::King, color }
    }

    /// The glyph that the text renderer draws for this kind of piece.
    pub open spec fn spec_fancy_char(&self) -> Seq<char> {
        match self.kind {
            PieceKind::Pawn => "♙"@,
            PieceKind::Knight => "♞"@,
            PieceKind::Bishop => "♝"@,
            PieceKind::Rook => "♜"@,
            PieceKind::Queen => "♛"@,
            PieceKind::King => "♚"@,
        }
    }

    pub fn fancy_char(&self) -> (glyph: &'static str)
        ensures
            glyph@ == self.spec_fancy_char(),
    {
        match self.kind {
            PieceKind::Pawn => "♙",
            PieceKind::Knight => "♞",
            PieceKind::Bishop => "♝",
            PieceKind::Rook => "♜",
            PieceKind::Queen => "♛",
            PieceKind::King => "♚",
        }
    }

    /// A pawn captures one square diagonally forward.
    pub open spec fn pawn_captures(&self, from: Coord, to: Coord) -> bool {
        &&& distance(from.x as int, to.x as int) == 1
        &&& match self.color {
            PieceColor::Black => to.y == from.y + 1,
            PieceColor::White => to.y + 1 == from.y,
        }
    }

    /// A pawn advances one square straight ahead, or two from its starting
    /// rank, or captures diagonally.
    pub open spec fn pawn_reaches(&self, from: Coord, to: Coord) -> bool {
        ||| self.pawn_captures(from, to)
        ||| {
            &&& from.x == to.x
            &&& match self.color {
                PieceColor::Black => to.y == from.y + 1 || (from.y == 1 && to.y == 3),
                PieceColor::White => to.y + 1 == from.y || (from.y == 6 && to.y == 4),
            }
        }
    }

    pub open spec fn knight_reaches(from: Coord, to: Coord) -> bool {
        let dx = distance(from.x as int, to.x as int);
        let dy = distance(from.y as int, to.y as int);
        (dx == 2 && dy == 1) || (dx == 1 && dy == 2)
    }

    pub open spec fn bishop_reaches(from: Coord, to: Coord) -> bool {
        distance(from.x as int, to.x as int) == distance(from.y as int, to.y as int)
    }

    pub open spec fn rook_reaches(from: Coord, to: Coord) -> bool {
        from.x == to.x || from.y == to.y
    }

    pub open spec fn queen_reaches(from: Coord, to: Coord) -> bool {
        Self::rook_reaches(from, to) || Self::bishop_reaches(from, to)
    }

    /// The king steps to an adjacent square, or from its home square two
    /// squares along the back rank toward either rook.
    pub open spec fn king_reaches(from: Coord, to: Coord) -> bool {
        ||| distance(from.x as int, to.x as int) <= 1 && distance(from.y as int, to.y as int) <= 1
        ||| {
            &&& from.x == 4
            &&& from.y == 0 || from.y == 7
            &&& to.y == from.y
            &&& to.x == 6 || to.x == 2
        }
    }

    /// The geometric rule: both squares are on the board, they differ, and the
    /// kind of piece moves that way. Occupancy and check are not considered.
    pub open spec fn spec_is_valid_piece_move(&self, from: Coord, to: Coord) -> bool {
        &&& from.on_board()
        &&& to.on_board()
        &&& from != to
        &&& match self.kind {
            PieceKind::Pawn => self.pawn_reaches(from, to),
            PieceKind::Knight => Self::knight_reaches(from, to),
            PieceKind::Bishop => Self::bishop_reaches(from, to),
            PieceKind::Rook => Self::rook_reaches(from, to),
            PieceKind::Queen => Self::queen_reaches(from, to),
            PieceKind::King => Self::king_reaches(from, to),
        }
    }

    /// Whether this piece moves from `from` to `to` on an empty board.
    /// Squares off the board are rejected.
    #[verifier::when_used_as_spec(spec_is_valid_piece_move)]
    pub fn is_valid_piece_move(&self, from: Coord, to: Coord) -> (valid: bool)
        ensures
            valid == self.spec_is_valid_piece_move(from, to),
    {
        if from.x > 7 || from.y > 7 || to.x > 7 || to.y > 7 {
            return false;
        }
        if from.x == to.x && from.y == to.y {
            return false;
        }
        match self.kind {
            PieceKind::Pawn => self.is_valid_pawn_move(from, to),
            PieceKind::Knight => self.is_valid_knight_move(from, to),
            PieceKind::Bishop => self.is_valid_bishop_move(from, to),
            PieceKind::Rook => self.is_valid_rook_move(from, to),
            PieceKind::Queen => self.is_valid_queen_move(from, to),
            PieceKind::King => self.is_valid_king_move(from, to),
        }
    }

    fn is_valid_pawn_move(&self, from: Coord, to: Coord) -> (valid: bool)
        requires
            from.on_board(),
            to.on_board(),
        ensures
            valid == self.pawn_reaches(from, to),
    {
        if self.is_valid_pawn_capture(from, to) {
            return true;
        }
        if from.x != to.x {
            return false;
        }
        match self.color {
            PieceColor::Black => {
                if from.y == 1 {
                    to.y == 3 || to.y == 2
                } else {
                    to.y == from.y + 1
                }
            },
            PieceColor::White => {
                if from.y == 6 {
                    to.y == 4 || to.y == 5
                } else {
                    to.y + 1 == from.y
                }
            },
        }
    }

    fn is_valid_pawn_capture(&self, from: Coord, to: Coord) -> (valid: bool)
        requires
            from.on_board(),
            to.on_board(),
        ensures
            valid == self.pawn_captures(from, to),
    {
        if gap(from.x, to.x) != 1 {
            return false;
        }
        match self.color {
            PieceColor::Black => to.y == from.y + 1,
            PieceColor::White => to.y + 1 == from.y,
        }
    }

    fn is_valid_knight_move(&self, from: Coord, to: Coord) -> (valid: bool)
        requires
            from.on_board(),
            to.on_board(),
        ensures
            valid == Self::knight_reaches(from, to),
    {
        let dx: usize = gap(from.x, to.x);
        let dy: usize = gap(from.y, to.y);
        (dx == 2 && dy == 1) || (dx == 1 && dy == 2)
    }

    fn is_valid_bishop_move(&self, from: Coord, to: Coord) -> (valid: bool)
        requires
            from.on_board(),
            to.on_board(),
        ensures
            valid == Self::bishop_reaches(from, to),
    {
        gap(from.x, to.x) == gap(from.y, to.y)
    }

    fn is_valid_rook_move(&self, from: Coord, to: Coord) -> (valid: bool)
        requires
            from.on_board(),
            to.on_board(),
        ensures
            valid == Self::rook_reaches(from, to),
    {
        from.x == to.x || from.y == to.y
    }

    fn is_valid_queen_move(&self, from: Coord, to: Coord) -> (valid: bool)
        requires
            from.on_board(),
            to.on_board(),
        ensures
            valid == Self::queen_reaches(from, to),
    {
        self.is_valid_rook_move(from, to) || self.is_valid_bishop_move(from, to)
    }

    fn is_valid_king_move(&self, from: Coord, to: Coord) -> (valid: bool)
        requires
            from.on_board(),
            to.on_board(),
        ensures
            valid == Self::king_reaches(from, to),
    {
        (gap(from.x, to.x) <= 1 && gap(from.y, to.y) <= 1) || (from.x == 4 && (from.y == 0
            || from.y == 7) && to.y == from.y && (to.x == 6 || to.x == 2))
    }

    pub open spec fn pawn_candidates(&self, from: Coord) -> Seq<Coord> {
        match self.color {
            PieceColor::Black => hop(from, 0, 1) + (if from.y == 1 {
                hop(from, 0, 2)
            } else {
                Seq::empty()
            }) + hop(from, -1, 1) + hop(from, 1, 1),
            PieceColor::White => hop(from, 0, -1) + (if from.y == 6 {
                hop(from, 0, -2)
            } else {
                Seq::empty()
            }) + hop(from, -1, -1) + hop(from, 1, -1),
        }
    }

    pub open spec fn knight_candidates(from: Coord) -> Seq<Coord> {
        hop(from, 2, 1) + hop(from, -2, -1) + hop(from, 2, -1) + hop(from, -2, 1) + hop(from, 1, 2)
            + hop(from, -1, -2) + hop(from, 1, -2) + hop(from, -1, 2)
    }

    pub open spec fn bishop_candidates(from: Coord) -> Seq<Coord> {
        ray(from, 1, 1) + ray(from, -1, -1) + ray(from, 1, -1) + ray(from, -1, 1)
    }

    pub open spec fn rook_candidates(from: Coord) -> Seq<Coord> {
        ray(from, 1, 0) + ray(from, -1, 0) + ray(from, 0, 1) + ray(from, 0, -1)
    }

    pub open spec fn queen_candidates(from: Coord) -> Seq<Coord> {
        Self::bishop_candidates(from) + Self::rook_candidates(from)
    }

    pub open spec fn king_candidates(from: Coord) -> Seq<Coord> {
        hop(from, 0, 1) + hop(from, 0, -1) + hop(from, 1, 0) + hop(from, 1, 1) + hop(from, 1, -1)
            + hop(from, -1, 0) + hop(from, -1, 1) + hop(from, -1, -1) + (if from.x == 4 && (from.y
            == 0 || from.y == 7) {
            seq![Coord { x: 6, y: from.y }, Coord { x: 2, y: from.y }]
        } else {
            Seq::empty()
        })
    }

    /// The candidate destinations of this piece from `from`, in the order in
    /// which they are generated.
    pub open spec fn spec_list_possible_moves(&self, from: Coord) -> Seq<Coord> {
        match self.kind {
            PieceKind::Pawn => self.pawn_candidates(from),
            PieceKind::Knight => Self::knight_candidates(from),
            PieceKind::Bishop => Self::bishop_candidates(from),
            PieceKind::Rook => Self::rook_candidates(from),
            PieceKind::Queen => Self::queen_candidates(from),
            PieceKind::King => Self::king_candidates(from),
        }
    }

    /// Every square this piece could move to from `from` on an empty board.
    pub fn list_possible_moves(&self, from: Coord) -> (moves: Vec<Coord>)
        requires
            from.on_board(),
        ensures
            moves@ == self.spec_list_possible_moves(from),
    {
        match self.kind {
            PieceKind::Pawn => self.list_possible_pawn_moves(from),
            PieceKind::Knight => self.list_possible_knight_moves(from),
            PieceKind::Bishop => self.list_possible_bishop_moves(from),
            PieceKind::Rook => self.list_possible_rook_moves(from),
            PieceKind::Queen => self.list_possible_queen_moves(from),
            PieceKind::King => self.list_possible_king_moves(from),
        }
    }

    fn list_possible_pawn_moves(&self, from: Coord) -> (moves: Vec<Coord>)
        requires
            from.on_board(),
        ensures
            moves@ == self.pawn_candidates(from),
    {
        let mut moves: Vec<Coord> = Vec::with_capacity(4);
        match self.color {
            PieceColor::Black => {
                push_hop(&mut moves, from, 0, 1);
                if from.y == 1 {
                    push_hop(&mut moves, from, 0, 2);
                }
                push_hop(&mut moves, from, -1, 1);
                push_hop(&mut moves, from, 1, 1);
            },
            PieceColor::White => {
                push_hop(&mut moves, from, 0, -1);
                if from.y == 6 {
                    push_hop(&mut moves, from, 0, -2);
                }
                push_hop(&mut moves, from, -1, -1);
                push_hop(&mut moves, from, 1, -1);
            },
        }
        moves
    }

    fn list_possible_knight_moves(&self, from: Coord) -> (moves: Vec<Coord>)
        requires
            from.on_board(),
        ensures
            moves@ == Self::knight_candidates(from),
    {
        let mut moves: Vec<Coord> = Vec::with_capacity(8);
        push_hop(&mut moves, from, 2, 1);
        push_hop(&mut moves, from, -2, -1);
        push_hop(&mut moves, from, 2, -1);
        push_hop(&mut moves, from, -2, 1);
        push_hop(&mut moves, from, 1, 2);
        push_hop(&mut moves, from, -1, -2);
        push_hop(&mut moves, from, 1, -2);
        push_hop(&mut moves, from, -1, 2);
        moves
    }

    fn list_possible_bishop_moves(&self, from: Coord) -> (moves: Vec<Coord>)
        requires
            from.on_board(),
        ensures
            moves@ == Self::bishop_candidates(from),
    {
        let mut moves: Vec<Coord> = Vec::new();
        push_ray(&mut moves, from, 1, 1);
        push_ray(&mut moves, from, -1, -1);
        push_ray(&mut moves, from, 1, -1);
        push_ray(&mut moves, from, -1, 1);
        moves
    }

    fn list_possible_rook_moves(&self, from: Coord) -> (moves: Vec<Coord>)
        requires
            from.on_board(),
        ensures
            moves@ == Self::rook_candidates(from),
    {
        let mut moves: Vec<Coord> = Vec::new();
        push_ray(&mut moves, from, 1, 0);
        push_ray(&mut moves, from, -1, 0);
        push_ray(&mut moves, from, 0, 1);
        push_ray(&mut moves, from, 0, -1);
        moves
    }

    fn list_possible_queen_moves(&self, from: Coord) -> (moves: Vec<Coord>)
        requires
            from.on_board(),
        ensures
            moves@ == Self::queen_candidates(from),
    {
        let mut moves: Vec<Coord> = Vec::new();
        let mut diagonal: Vec<Coord> = self.list_possible_bishop_moves(from);
        let mut straight: Vec<Coord> = self.list_possible_rook_moves(from);
        moves.append(&mut diagonal);
        moves.append(&mut straight);
        moves
    }

    fn list_possible_king_moves(&self, from: Coord) -> (moves: Vec<Coord>)
        requires
            from.on_board(),
        ensures
            moves@ == Self::king_candidates(from),
    {
        let mut moves: Vec<Coord> = Vec::new();
        push_hop(&mut moves, from, 0, 1);
        push_hop(&mut moves, from, 0, -1);
        push_hop(&mut moves, from, 1, 0);
        push_hop(&mut moves, from, 1, 1);
        push_hop(&mut moves, from, 1, -1);
        push_hop(&mut moves, from, -1, 0);
        push_hop(&mut moves, from, -1, 1);
        push_hop(&mut moves, from, -1, -1);
        if from.x == 4 && (from.y == 0 || from.y == 7) {
            moves.push(Coord { x: 6, y: from.y });
            moves.push(Coord { x: 2, y: from.y });
        }
        moves
    }
}

/// Whether `to` lies at least one step from `from` in direction `(dx, dy)`.
pub open spec fn on_ray(from: Coord, dx: int, dy: int, to: Coord) -> bool {
    let n = if distance(from.x as int, to.x as int) >= distance(from.y as int, to.y as int) {
        distance(from.x as int, to.x as int)
    } else {
        distance(from.y as int, to.y as int)
    };
    n >= 1 && to.x == shift(from.x as int, dx, n) && to.y == shift(from.y as int, dy, n)
}

/// A concatenation holds what either part holds.
pub proof fn lemma_concat_contains<T>(a: Seq<T>, b: Seq<T>)
    ensures
        forall|x: T| #[trigger] (a + b).contains(x) <==> a.contains(x) || b.contains(x),
{
    assert forall|x: T| #[trigger] (a + b).contains(x) <==> a.contains(x) || b.contains(x) by {
        if a.contains(x) {
            let i = choose|i: int| 0 <= i < a.len() && a[i] == x;
            assert((a + b)[i] == x);
        }
        if b.contains(x) {
            let j = choose|j: int| 0 <= j < b.len() && b[j] == x;
            assert((a + b)[a.len() + j] == x);
        }
        if (a + b).contains(x) {
            let i = choose|i: int| 0 <= i < (a + b).len() && (a + b)[i] == x;
            if i < a.len() {
                assert(a[i] == x);
            } else {
                assert(b[i - a.len()] == x);
            }
        }
    }
}

/// `hop` holds the one square at that offset, if the board has it.
pub proof fn lemma_hop_contains(from: Coord, dx: int, dy: int, to: Coord)
    requires
        from.on_board(),
    ensures
        hop(from, dx, dy).contains(to) <==> to.on_board() && to.x == from.x + dx && to.y == from.y
            + dy,
{
    let h = hop(from, dx, dy);
    if to.on_board() && to.x == from.x + dx && to.y == from.y + dy {
        assert(h[0] == to);
    }
}

/// `ray` holds the squares of the board that lie in that direction.
pub proof fn lemma_ray_contains(from: Coord, dx: int, dy: int, to: Coord)
    requires
        from.on_board(),
        -1 <= dx <= 1,
        -1 <= dy <= 1,
        dx != 0 || dy != 0,
    ensures
        ray(from, dx, dy).contains(to) <==> to.on_board() && on_ray(from, dx, dy, to),
{
    let line = ray(from, dx, dy);
    if to.on_board() && on_ray(from, dx, dy, to) {
        let n = if distance(from.x as int, to.x as int) >= distance(from.y as int, to.y as int) {
            distance(from.x as int, to.x as int)
        } else {
            distance(from.y as int, to.y as int)
        };
        assert(line[n - 1] == to);
    }
}

proof fn lemma_pawn_candidates(piece: Piece, from: Coord, to: Coord)
    requires
        from.on_board(),
    ensures
        piece.pawn_candidates(from).contains(to) <==> to.on_board() && from != to
            && piece.pawn_reaches(from, to),
{
    let dir: int = if piece.color == PieceColor::Black {
        1
    } else {
        -1
    };
    let start: int = if piece.color == PieceColor::Black {
        1
    } else {
        6
    };
    let single = hop(from, 0, dir);
    let double = if from.y == start {
        hop(from, 0, 2 * dir)
    } else {
        Seq::empty()
    };
    let left = hop(from, -1, dir);
    let right = hop(from, 1, dir);
    lemma_hop_contains(from, 0, dir, to);
    lemma_hop_contains(from, 0, 2 * dir, to);
    lemma_hop_contains(from, -1, dir, to);
    lemma_hop_contains(from, 1, dir, to);
    lemma_concat_contains(single, double);
    lemma_concat_contains(single + double, left);
    lemma_concat_contains(single + double + left, right);
}

proof fn lemma_knight_candidates(from: Coord, to: Coord)
    requires
        from.on_board(),
    ensures
        Piece::knight_candidates(from).contains(to) <==> to.on_board() && Piece::knight_reaches(
            from,
            to,
        ),
{
    let a = hop(from, 2, 1);
    let b = a + hop(from, -2, -1);
    let c = b + hop(from, 2, -1);
    let d = c + hop(from, -2, 1);
    let e = d + hop(from, 1, 2);
    let f = e + hop(from, -1, -2);
    let g = f + hop(from, 1, -2);
    lemma_hop_contains(from, 2, 1, to);
    lemma_hop_contains(from, -2, -1, to);
    lemma_hop_contains(from, 2, -1, to);
    lemma_hop_contains(from, -2, 1, to);
    lemma_hop_contains(from, 1, 2, to);
    lemma_hop_contains(from, -1, -2, to);
    lemma_hop_contains(from, 1, -2, to);
    lemma_hop_contains(from, -1, 2, to);
    lemma_concat_contains(a, hop(from, -2, -1));
    lemma_concat_contains(b, hop(from, 2, -1));
    lemma_concat_contains(c, hop(from, -2, 1));
    lemma_concat_contains(d, hop(from, 1, 2));
    lemma_concat_contains(e, hop(from, -1, -2));
    lemma_concat_contains(f, hop(from, 1, -2));
    lemma_concat_contains(g, hop(from, -1, 2));
}

proof fn lemma_bishop_candidates(from: Coord, to: Coord)
    requires
        from.on_board(),
    ensures
        Piece::bishop_candidates(from).contains(to) <==> to.on_board() && from != to
            && Piece::bishop_reaches(from, to),
{
    let a = ray(from, 1, 1);
    let b = a + ray(from, -1, -1);
    let c = b + ray(from, 1, -1);
    lemma_ray_contains(from, 1, 1, to);
    lemma_ray_contains(from, -1, -1, to);
    lemma_ray_contains(from, 1, -1, to);
    lemma_ray_contains(from, -1, 1, to);
    lemma_concat_contains(a, ray(from, -1, -1));
    lemma_concat_contains(b, ray(from, 1, -1));
    lemma_concat_contains(c, ray(from, -1, 1));
}

proof fn lemma_rook_candidates(from: Coord, to: Coord)
    requires
        from.on_board(),
    ensures
        Piece::rook_candidates(from).contains(to) <==> to.on_board() && from != to
            && Piece::rook_reaches(from, to),
{
    let a = ray(from, 1, 0);
    let b = a + ray(from, -1, 0);
    let c = b + ray(from, 0, 1);
    lemma_ray_contains(from, 1, 0, to);
    lemma_ray_contains(from, -1, 0, to);
    lemma_ray_contains(from, 0, 1, to);
    lemma_ray_contains(from, 0, -1, to);
    lemma_concat_contains(a, ray(from, -1, 0));
    lemma_concat_contains(b, ray(from, 0, 1));
    lemma_concat_contains(c, ray(from, 0, -1));
}

proof fn lemma_king_candidates(from: Coord, to: Coord)
    requires
        from.on_board(),
    ensures
        Piece::king_candidates(from).contains(to) <==> to.on_board() && from != to
            && Piece::king_reaches(from, to),
{
    let castles = if from.x == 4 && (from.y == 0 || from.y == 7) {
        seq![Coord { x: 6, y: from.y }, Coord { x: 2, y: from.y }]
    } else {
        Seq::empty()
    };
    let a = hop(from, 0, 1);
    let b = a + hop(from, 0, -1);
    let c = b + hop(from, 1, 0);
    let d = c + hop(from, 1, 1);
    let e = d + hop(from, 1, -1);
    let f = e + hop(from, -1, 0);
    let g = f + hop(from, -1, 1);
    let h = g + hop(from, -1, -1);
    lemma_hop_contains(from, 0, 1, to);
    lemma_hop_contains(from, 0, -1, to);
    lemma_hop_contains(from, 1, 0, to);
    lemma_hop_contains(from, 1, 1, to);
    lemma_hop_contains(from, 1, -1, to);
    lemma_hop_contains(from, -1, 0, to);
    lemma_hop_contains(from, -1, 1, to);
    lemma_hop_contains(from, -1, -1, to);
    lemma_concat_contains(a, hop(from, 0, -1));
    lemma_concat_contains(b, hop(from, 1, 0));
    lemma_concat_contains(c, hop(from, 1, 1));
    lemma_concat_contains(d, hop(from, 1, -1));
    lemma_concat_contains(e, hop(from, -1, 0));
    lemma_concat_contains(f, hop(from, -1, 1));
    lemma_concat_contains(g, hop(from, -1, -1));
    lemma_concat_contains(h, castles);
}

/// The candidate destinations of a piece are exactly the squares that its
/// geometric rule admits: nothing the rule allows is missing from the list,
/// and nothing in the list breaks the rule.
pub proof fn lemma_candidates_are_the_valid_moves(piece: Piece, from: Coord, to: Coord)
    requires
        from.on_board(),
    ensures
        piece.spec_list_possible_moves(from).contains(to) <==> piece.spec_is_valid_piece_move(
            from,
            to,
        ),
{
    match piece.kind {
        PieceKind::Pawn => lemma_pawn_candidates(piece, from, to),
        PieceKind::Knight => lemma_knight_candidates(from, to),
        PieceKind::Bishop => lemma_bishop_candidates(from, to),
        PieceKind::Rook => lemma_rook_candidates(from, to),
        PieceKind::Queen => {
            lemma_bishop_candidates(from, to);
            lemma_rook_candidates(from, to);
            lemma_concat_contains(Piece::bishop_candidates(from), Piece::rook_candidates(from));
        },
        PieceKind::King => lemma_king_candidates(from, to),
    }
}

/// `hop` holds exactly the one square at that offset, if the board has it.
proof fn lemma_hop_holds(from: Coord, dx: int, dy: int)
    requires
        from.on_board(),
    ensures
        forall|to: Coord| #[trigger]
            hop(from, dx, dy).contains(to) <==> to.on_board() && to.x == from.x + dx && to.y
                == from.y + dy,
        hop(from, dx, dy).no_duplicates(),
{
    assert forall|to: Coord| #[trigger]
        hop(from, dx, dy).contains(to) <==> to.on_board() && to.x == from.x + dx && to.y == from.y
            + dy by {
        lemma_hop_contains(from, dx, dy, to);
    }
}

/// `ray` holds exactly the squares of the board in that direction, each once.
proof fn lemma_ray_holds(from: Coord, dx: int, dy: int)
    requires
        from.on_board(),
        -1 <= dx <= 1,
        -1 <= dy <= 1,
        dx != 0 || dy != 0,
    ensures
        forall|to: Coord| #[trigger]
            ray(from, dx, dy).contains(to) <==> to.on_board() && on_ray(from, dx, dy, to),
        ray(from, dx, dy).no_duplicates(),
{
    assert forall|to: Coord| #[trigger]
        ray(from, dx, dy).contains(to) <==> to.on_board() && on_ray(from, dx, dy, to) by {
        lemma_ray_contains(from, dx, dy, to);
    }
}

/// Two sequences without repeats that share no element join into one
/// without repeats.
pub proof fn lemma_concat_no_duplicates<T>(a: Seq<T>, b: Seq<T>)
    requires
        a.no_duplicates(),
        b.no_duplicates(),
        forall|x: T| !(a.contains(x) && b.contains(x)),
    ensures
        (a + b).no_duplicates(),
{
    assert forall|i: int, j: int| 0 <= i < (a + b).len() && 0 <= j < (a + b).len() && i
        != j implies (a + b)[i] != (a + b)[j] by {
        if i < a.len() && j >= a.len() {
            assert(a.contains(a[i]));
            assert(b.contains(b[j - a.len()]));
        }
        if j < a.len() && i >= a.len() {
            assert(a.contains(a[j]));
            assert(b.contains(b[i - a.len()]));
        }
    }
}

proof fn lemma_pawn_candidates_distinct(piece: Piece, from: Coord)
    requires
        from.on_board(),
    ensures
        piece.pawn_candidates(from).no_duplicates(),
{
    let dir: int = if piece.color == PieceColor::Black {
        1
    } else {
        -1
    };
    let start: int = if piece.color == PieceColor::Black {
        1
    } else {
        6
    };
    let single = hop(from, 0, dir);
    let double = if from.y == start {
        hop(from, 0, 2 * dir)
    } else {
        Seq::empty()
    };
    let left = hop(from, -1, dir);
    let right = hop(from, 1, dir);
    lemma_hop_holds(from, 0, dir);
    lemma_hop_holds(from, 0, 2 * dir);
    lemma_hop_holds(from, -1, dir);
    lemma_hop_holds(from, 1, dir);
    lemma_concat_contains(single, double);
    lemma_concat_contains(single + double, left);
    lemma_concat_no_duplicates(single, double);
    lemma_concat_no_duplicates(single + double, left);
    lemma_concat_no_duplicates(single + double + left, right);
}

proof fn lemma_knight_candidates_distinct(from: Coord)
    requires
        from.on_board(),
    ensures
        Piece::knight_candidates(from).no_duplicates(),
{
    let a = hop(from, 2, 1);
    let b = a + hop(from, -2, -1);
    let c = b + hop(from, 2, -1);
    let d = c + hop(from, -2, 1);
    let e = d + hop(from, 1, 2);
    let f = e + hop(from, -1, -2);
    let g = f + hop(from, 1, -2);
    lemma_hop_holds(from, 2, 1);
    lemma_hop_holds(from, -2, -1);
    lemma_hop_holds(from, 2, -1);
    lemma_hop_holds(from, -2, 1);
    lemma_hop_holds(from, 1, 2);
    lemma_hop_holds(from, -1, -2);
    lemma_hop_holds(from, 1, -2);
    lemma_hop_holds(from, -1, 2);
    lemma_concat_contains(a, hop(from, -2, -1));
    lemma_concat_contains(b, hop(from, 2, -1));
    lemma_concat_contains(c, hop(from, -2, 1));
    lemma_concat_contains(d, hop(from, 1, 2));
    lemma_concat_contains(e, hop(from, -1, -2));
    lemma_concat_contains(f, hop(from, 1, -2));
    lemma_concat_no_duplicates(a, hop(from, -2, -1));
    lemma_concat_no_duplicates(b, hop(from, 2, -1));
    lemma_concat_no_duplicates(c, hop(from, -2, 1));
    lemma_concat_no_duplicates(d, hop(from, 1, 2));
    lemma_concat_no_duplicates(e, hop(from, -1, -2));
    lemma_concat_no_duplicates(f, hop(from, 1, -2));
    lemma_concat_no_duplicates(g, hop(from, -1, 2));
}

proof fn lemma_bishop_candidates_distinct(from: Coord)
    requires
        from.on_board(),
    ensures
        Piece::bishop_candidates(from).no_duplicates(),
{
    let a = ray(from, 1, 1);
    let b = a + ray(from, -1, -1);
    let c = b + ray(from, 1, -1);
    lemma_ray_holds(from, 1, 1);
    lemma_ray_holds(from, -1, -1);
    lemma_ray_holds(from, 1, -1);
    lemma_ray_holds(from, -1, 1);
    lemma_concat_contains(a, ray(from, -1, -1));
    lemma_concat_contains(b, ray(from, 1, -1));
    lemma_concat_no_duplicates(a, ray(from, -1, -1));
    lemma_concat_no_duplicates(b, ray(from, 1, -1));
    lemma_concat_no_duplicates(c, ray(from, -1, 1));
}

proof fn lemma_rook_candidates_distinct(from: Coord)
    requires
        from.on_board(),
    ensures
        Piece::rook_candidates(from).no_duplicates(),
{
    let a = ray(from, 1, 0);
    let b = a + ray(from, -1, 0);
    let c = b + ray(from, 0, 1);
    lemma_ray_holds(from, 1, 0);
    lemma_ray_holds(from, -1, 0);
    lemma_ray_holds(from, 0, 1);
    lemma_ray_holds(from, 0, -1);
    lemma_concat_contains(a, ray(from, -1, 0));
    lemma_concat_contains(b, ray(from, 0, 1));
    lemma_concat_no_duplicates(a, ray(from, -1, 0));
    lemma_concat_no_duplicates(b, ray(from, 0, 1));
    lemma_concat_no_duplicates(c, ray(from, 0, -1));
}

proof fn lemma_king_candidates_distinct(from: Coord)
    requires
        from.on_board(),
    ensures
        Piece::king_candidates(from).no_duplicates(),
{
    let castles = if from.x == 4 && (from.y == 0 || from.y == 7) {
        seq![Coord { x: 6, y: from.y }, Coord { x: 2, y: from.y }]
    } else {
        Seq::empty()
    };
    let a = hop(from, 0, 1);
    let b = a + hop(from, 0, -1);
    let c = b + hop(from, 1, 0);
    let d = c + hop(from, 1, 1);
    let e = d + hop(from, 1, -1);
    let f = e + hop(from, -1, 0);
    let g = f + hop(from, -1, 1);
    let h = g + hop(from, -1, -1);
    lemma_hop_holds(from, 0, 1);
    lemma_hop_holds(from, 0, -1);
    lemma_hop_holds(from, 1, 0);
    lemma_hop_holds(from, 1, 1);
    lemma_hop_holds(from, 1, -1);
    lemma_hop_holds(from, -1, 0);
    lemma_hop_holds(from, -1, 1);
    lemma_hop_holds(from, -1, -1);
    lemma_concat_contains(a, hop(from, 0, -1));
    lemma_concat_contains(b, hop(from, 1, 0));
    lemma_concat_contains(c, hop(from, 1, 1));
    lemma_concat_contains(d, hop(from, 1, -1));
    lemma_concat_contains(e, hop(from, -1, 0));
    lemma_concat_contains(f, hop(from, -1, 1));
    lemma_concat_contains(g, hop(from, -1, -1));
    lemma_concat_no_duplicates(a, hop(from, 0, -1));
    lemma_concat_no_duplicates(b, hop(from, 1, 0));
    lemma_concat_no_duplicates(c, hop(from, 1, 1));
    lemma_concat_no_duplicates(d, hop(from, 1, -1));
    lemma_concat_no_duplicates(e, hop(from, -1, 0));
    lemma_concat_no_duplicates(f, hop(from, -1, 1));
    lemma_concat_no_duplicates(g, hop(from, -1, -1));
    assert forall|x: Coord| !(h.contains(x) && castles.contains(x)) by {
        if castles.contains(x) {
            let i = choose|i: int| 0 <= i < castles.len() && castles[i] == x;
            assert(x.x == 6 || x.x == 2);
        }
    }
    lemma_concat_no_duplicates(h, castles);
}

/// No candidate destination is listed twice.
pub proof fn lemma_candidates_are_distinct(piece: Piece, from: Coord)
    requires
        from.on_board(),
    ensures
        piece.spec_list_possible_moves(from).no_duplicates(),
{
    match piece.kind {
        PieceKind::Pawn => lemma_pawn_candidates_distinct(piece, from),
        PieceKind::Knight => lemma_knight_candidates_distinct(from),
        PieceKind::Bishop => lemma_bishop_candidates_distinct(from),
        PieceKind::Rook => lemma_rook_candidates_distinct(from),
        PieceKind::Queen => {
            lemma_bishop_candidates_distinct(from);
            lemma_rook_candidates_distinct(from);
            assert forall|x: Coord|
                !(Piece::bishop_candidates(from).contains(x) && Piece::rook_candidates(
                    from,
                ).contains(x)) by {
                lemma_bishop_candidates(from, x);
                lemma_rook_candidates(from, x);
            }
            lemma_concat_no_duplicates(
                Piece::bishop_candidates(from),
                Piece::rook_candidates(from),
            );
        },
        PieceKind::King => lemma_king_candidates_distinct(from),
    }
}

} // verus!
