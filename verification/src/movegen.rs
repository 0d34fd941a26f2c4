//! The legal moves of the side to move, listed square by square.

use crate::board::{Board, Coord, Move};
use crate::pieces::{
    lemma_candidates_are_distinct, lemma_candidates_are_the_valid_moves, lemma_concat_contains,
    lemma_concat_no_duplicates,
};
use vstd::prelude::*;

verus! {

/// The `n`-th square in reading order: ranks from row 0 down, files from a.
pub open spec fn nth_square(n: int) -> Coord {
    Coord { x: (n % 8) as usize, y: (n / 8) as usize }
}

impl Board {
    /// The legal moves among those from `from` to one of `targets`, in the
    /// order of `targets`.
    pub open spec fn kept(&self, from: Coord, targets: Seq<Coord>) -> Seq<Move>
        decreases targets.len(),
    {
        if targets.len() == 0 {
            Seq::empty()
        } else {
            let mv = Move { from, to: targets.last(), promote: None };
            self.kept(from, targets.drop_last()) + (if self.spec_is_valid_move(mv) {
                seq![mv]
            } else {
                Seq::empty()
            })
        }
    }

    /// The legal moves of the piece on `from`, in the order of its candidate
    /// destinations; none where the square is empty or holds an enemy.
    pub open spec fn moves_from(&self, from: Coord) -> Seq<Move> {
        match self.spec_piece_at(from) {
            Some(piece) => if piece.color == self.turn {
                self.kept(from, piece.spec_list_possible_moves(from))
            } else {
                Seq::empty()
            },
            None => Seq::empty(),
        }
    }

    /// The legal moves that start on one of the first `n` squares.
    pub open spec fn moves_before(&self, n: nat) -> Seq<Move>
        decreases n,
    {
        if n == 0 {
            Seq::empty()
        } else {
            self.moves_before((n - 1) as nat) + self.moves_from(nth_square(n - 1))
        }
    }

    /// All legal moves of the side to move, square by square in reading
    /// order, each without a promotion choice.
    pub open spec fn spec_list_all_valid_moves(&self) -> Seq<Move> {
        self.moves_before(64)
    }

    /// The side to move has a legal move.
    pub open spec fn spec_has_valid_moves(&self) -> bool {
        exists|mv: Move| mv.from.on_board() && #[trigger] self.spec_is_valid_move(mv)
    }

    /// `mv` starts on the board, names no promotion and is legal.
    pub open spec fn lists(&self, mv: Move) -> bool {
        mv.from.on_board() && mv.promote is None && self.spec_is_valid_move(mv)
    }

    proof fn lemma_kept_contains(&self, from: Coord, targets: Seq<Coord>, mv: Move)
        ensures
            self.kept(from, targets).contains(mv) <==> mv.from == from && mv.promote is None
                && targets.contains(mv.to) && self.spec_is_valid_move(mv),
        decreases targets.len(),
    {
        if targets.len() > 0 {
            let last = Move { from, to: targets.last(), promote: None };
            let tail = if self.spec_is_valid_move(last) {
                seq![last]
            } else {
                Seq::empty()
            };
            self.lemma_kept_contains(from, targets.drop_last(), mv);
            lemma_concat_contains(self.kept(from, targets.drop_last()), tail);
            if self.spec_is_valid_move(last) {
                assert(tail[0] == last);
            }
            assert(targets =~= targets.drop_last().push(targets.last()));
            lemma_concat_contains(targets.drop_last(), seq![targets.last()]);
        }
    }

    /// The moves listed for one square are exactly the legal moves from it.
    pub proof fn lemma_moves_from_contains(&self, from: Coord, mv: Move)
        requires
            from.on_board(),
        ensures
            self.moves_from(from).contains(mv) <==> mv.from == from && self.lists(mv),
    {
        match self.spec_piece_at(from) {
            Some(piece) => {
                if piece.color == self.turn {
                    self.lemma_kept_contains(from, piece.spec_list_possible_moves(from), mv);
                    lemma_candidates_are_the_valid_moves(piece, from, mv.to);
                }
            },
            None => {},
        }
    }

    proof fn lemma_moves_before_contains(&self, n: nat, mv: Move)
        requires
            n <= 64,
        ensures
            self.moves_before(n).contains(mv) <==> mv.from.y * 8 + mv.from.x < n && self.lists(mv),
        decreases n,
    {
        if n > 0 {
            let from = nth_square(n - 1);
            self.lemma_moves_before_contains((n - 1) as nat, mv);
            self.lemma_moves_from_contains(from, mv);
            lemma_concat_contains(self.moves_before((n - 1) as nat), self.moves_from(from));
        }
    }

    /// The list of all valid moves holds a move if and only if the move
    /// starts on the board, names no promotion and is legal: every listed move
    /// is legal, and no legal move is missing.
    pub proof fn lemma_listed_moves_are_the_legal_moves(&self, mv: Move)
        ensures
            self.spec_list_all_valid_moves().contains(mv) <==> self.lists(mv),
    {
        self.lemma_moves_before_contains(64, mv);
    }

    /// The side to move has a legal move exactly when the list of all valid
    /// moves is not empty.
    pub proof fn lemma_has_moves_iff_list_not_empty(&self)
        ensures
            self.spec_has_valid_moves() <==> self.spec_list_all_valid_moves().len() > 0,
    {
        let all = self.spec_list_all_valid_moves();
        if all.len() > 0 {
            self.lemma_listed_moves_are_the_legal_moves(all[0]);
        }
        if self.spec_has_valid_moves() {
            let mv = choose|mv: Move| mv.from.on_board() && #[trigger] self.spec_is_valid_move(mv);
            let plain = Move { from: mv.from, to: mv.to, promote: None };
            self.lemma_listed_moves_are_the_legal_moves(plain);
        }
    }

    proof fn lemma_kept_distinct(&self, from: Coord, targets: Seq<Coord>)
        requires
            targets.no_duplicates(),
        ensures
            self.kept(from, targets).no_duplicates(),
        decreases targets.len(),
    {
        if targets.len() > 0 {
            let last = Move { from, to: targets.last(), promote: None };
            let tail = if self.spec_is_valid_move(last) {
                seq![last]
            } else {
                Seq::empty()
            };
            let rest = targets.drop_last();
            self.lemma_kept_distinct(from, rest);
            assert forall|x: Move| !(self.kept(from, rest).contains(x) && tail.contains(x)) by {
                self.lemma_kept_contains(from, rest, x);
                if rest.contains(x.to) && tail.contains(x) {
                    let i = choose|i: int| 0 <= i < rest.len() && rest[i] == x.to;
                    let j = choose|j: int| 0 <= j < tail.len() && tail[j] == x;
                    assert(targets[i] == targets[targets.len() - 1]);
                }
            }
            lemma_concat_no_duplicates(self.kept(from, rest), tail);
        }
    }

    proof fn lemma_moves_before_distinct(&self, n: nat)
        requires
            n <= 64,
        ensures
            self.moves_before(n).no_duplicates(),
        decreases n,
    {
        if n > 0 {
            let from = nth_square(n - 1);
            let earlier = self.moves_before((n - 1) as nat);
            self.lemma_moves_before_distinct((n - 1) as nat);
            match self.spec_piece_at(from) {
                Some(piece) => {
                    lemma_candidates_are_distinct(piece, from);
                    self.lemma_kept_distinct(from, piece.spec_list_possible_moves(from));
                },
                None => {},
            }
            assert forall|x: Move| !(earlier.contains(x) && self.moves_from(from).contains(x)) by {
                self.lemma_moves_before_contains((n - 1) as nat, x);
                self.lemma_moves_from_contains(from, x);
            }
            lemma_concat_no_duplicates(earlier, self.moves_from(from));
        }
    }

    /// No move is listed twice: the length of the list of all valid moves is
    /// the number of legal moves.
    pub proof fn lemma_no_move_is_listed_twice(&self)
        ensures
            self.spec_list_all_valid_moves().no_duplicates(),
    {
        self.lemma_moves_before_distinct(64);
    }

    /// Every legal move of the side to move: for each of its pieces, in
    /// reading order of the squares, the candidate destinations that pass the
    /// full legality test.
    pub fn list_all_valid_moves(&self) -> (moves: Vec<Move>)
        ensures
            moves@ == self.spec_list_all_valid_moves(),
            forall|mv: Move| moves@.contains(mv) <==> self.lists(mv),
            moves@.no_duplicates(),
            moves@.len() > 0 <==> self.spec_has_valid_moves(),
    {
        let mut moves: Vec<Move> = Vec::new();
        let mut y: usize = 0;
        while y < 8
            invariant
                y <= 8,
                moves@ == self.moves_before((y * 8) as nat),
            decreases 8 - y,
        {
            let mut x: usize = 0;
            while x < 8
                invariant
                    y < 8,
                    x <= 8,
                    moves@ == self.moves_before((y * 8 + x) as nat),
                decreases 8 - x,
            {
                let from = Coord { x, y };
                let ghost before = moves@;
                match self.piece_at(from) {
                    Some(piece) => {
                        if piece.color == self.turn {
                            let targets = piece.list_possible_moves(from);
                            let mut i: usize = 0;
                            while i < targets.len()
                                invariant
                                    from.on_board(),
                                    i <= targets.len(),
                                    moves@ == before + self.kept(from, targets@.take(i as int)),
                                decreases targets.len() - i,
                            {
                                let mv = Move::new(from, targets[i], None);
                                assert(targets@.take(i + 1).drop_last() =~= targets@.take(
                                    i as int,
                                ));
                                if self.is_valid_move(mv) {
                                    moves.push(mv);
                                }
                                i = i + 1;
                            }
                            assert(targets@.take(i as int) =~= targets@);
                        }
                    },
                    None => {},
                }
                x = x + 1;
            }
            y = y + 1;
        }
        proof {
            assert forall|mv: Move| moves@.contains(mv) <==> self.lists(mv) by {
                self.lemma_listed_moves_are_the_legal_moves(mv);
            }
            self.lemma_has_moves_iff_list_not_empty();
            self.lemma_no_move_is_listed_twice();
        }
        moves
    }

    /// Whether the side to move has any legal move; the scan of
    /// [`Board::list_all_valid_moves`], stopped at the first hit.
    #[verifier::when_used_as_spec(spec_has_valid_moves)]
    pub fn has_valid_moves(&self) -> (found: bool)
        ensures
            found == self.spec_has_valid_moves(),
    {
        let mut y: usize = 0;
        while y < 8
            invariant
                y <= 8,
                self.moves_before((y * 8) as nat).len() == 0,
            decreases 8 - y,
        {
            let mut x: usize = 0;
            while x < 8
                invariant
                    y < 8,
                    x <= 8,
                    self.moves_before((y * 8 + x) as nat).len() == 0,
                decreases 8 - x,
            {
                let from = Coord { x, y };
                match self.piece_at(from) {
                    Some(piece) => {
                        if piece.color == self.turn {
                            let targets = piece.list_possible_moves(from);
                            let mut i: usize = 0;
                            while i < targets.len()
                                invariant
                                    from.on_board(),
                                    i <= targets.len(),
                                    self.kept(from, targets@.take(i as int)).len() == 0,
                                decreases targets.len() - i,
                            {
                                let mv = Move::new(from, targets[i], None);
                                assert(targets@.take(i + 1).drop_last() =~= targets@.take(
                                    i as int,
                                ));
                                if self.is_valid_move(mv) {
                                    return true;
                                }
                                i = i + 1;
                            }
                            assert(targets@.take(i as int) =~= targets@);
                        }
                    },
                    None => {},
                }
                x = x + 1;
            }
            y = y + 1;
        }
        proof {
            self.lemma_has_moves_iff_list_not_empty();
        }
        false
    }
}

} // verus!
