use vstd::prelude::*;
use crate::board::{
    after_move, at_sq, board_ok, captured_square, executable, holds_king, king_of, Board,
};
use crate::figures::{ChessColor, Figure, FigureType, Square};
use crate::movegen::{friendly, pseudo_legal, strikes};

verus! {

/// The status of the side to move.
#[derive(Debug, Clone, Copy, PartialEq, Eq, Structural)]
pub enum GameOutcome {
    /// Not in check, and a legal move exists.
    InProgress,
    /// The given side is in check and has a legal move.
    Check(ChessColor),
    /// The given side is in check and has no legal move: it has lost.
    Checkmate(ChessColor),
    /// The side to move is not in check and has no legal move: a draw.
    Stalemate,
}

impl GameOutcome {
    pub open spec fn terminal(self) -> bool {
        self is Checkmate || self is Stalemate
    }
}

/// A piece of `by` on `s` attacks `to`: a pawn by striking it diagonally
/// forward, any other piece by having it among its pseudo-legal
/// destinations, so a square held by `by` itself is not attacked by those.
pub open spec fn attacker(cells: Seq<Option<Figure>>, s: Square, to: Square, by: ChessColor) -> bool {
    &&& s.valid()
    &&& at_sq(cells, s) is Some
    &&& at_sq(cells, s)->Some_0.color == by
    &&& strikes(cells, at_sq(cells, s)->Some_0, s, to)
    &&& (at_sq(cells, s)->Some_0.figure_type == FigureType::Pawn || !friendly(
        cells,
        at_sq(cells, s)->Some_0,
        to,
    ))
}

/// Some piece of `by` attacks `to`.
pub open spec fn attacked(cells: Seq<Option<Figure>>, to: Square, by: ChessColor) -> bool {
    exists|s: Square| #[trigger] attacker(cells, s, to, by)
}

/// The king of `color` is attacked by the other side.
pub open spec fn in_check(cells: Seq<Option<Figure>>, color: ChessColor) -> bool {
    exists|s: Square|
        s.valid() && #[trigger] king_of(cells, s, color) && attacked(cells, s, color.opponent())
}

/// A pseudo-legal move that takes no king and leaves the mover's own king
/// unattacked.
pub open spec fn legal(cells: Seq<Option<Figure>>, from: Square, to: Square) -> bool {
    &&& pseudo_legal(cells, from, to)
    &&& !holds_king(cells, to)
    &&& !in_check(after_move(cells, from, to), at_sq(cells, from)->Some_0.color)
}

/// Some piece of `color` has a legal move.
pub open spec fn has_legal_move(cells: Seq<Option<Figure>>, color: ChessColor) -> bool {
    exists|f: Square, t: Square|
        at_sq(cells, f) is Some && at_sq(cells, f)->Some_0.color == color && #[trigger] legal(
            cells,
            f,
            t,
        )
}

/// The status of `color` when it is to move.
pub open spec fn outcome(cells: Seq<Option<Figure>>, color: ChessColor) -> GameOutcome {
    if in_check(cells, color) {
        if has_legal_move(cells, color) {
            GameOutcome::Check(color)
        } else {
            GameOutcome::Checkmate(color)
        }
    } else if has_legal_move(cells, color) {
        GameOutcome::InProgress
    } else {
        GameOutcome::Stalemate
    }
}

/// A pseudo-legal move that takes no king can be executed.
pub proof fn lemma_legal_executable(cells: Seq<Option<Figure>>, from: Square, to: Square)
    requires
        board_ok(cells),
        pseudo_legal(cells, from, to),
        !holds_king(cells, to),
    ensures
        executable(cells, from, to),
{
    let cap = captured_square(cells, from, to);
    if cap != to {
        assert(at_sq(cells, cap)->Some_0.figure_type == FigureType::Pawn);
    }
}

impl Board {
    /// Whether some piece of `by` attacks `to`: a pawn striking it
    /// diagonally forward, or another piece that may move there.
    pub fn is_square_attacked(&self, to: Square, by: ChessColor) -> (r: bool)
        requires
            self.wf(),
            to.valid(),
        ensures
            r == attacked(self@, to, by),
    {
        let mut row: u8 = 0;
        while row < 8
            invariant
                self.wf(),
                to.valid(),
                0 <= row <= 8,
                forall|s: Square| s.row < row ==> !#[trigger] attacker(self@, s, to, by),
            decreases 8 - row,
        {
            let mut col: u8 = 0;
            while col < 8
                invariant
                    self.wf(),
                    to.valid(),
                    0 <= row < 8,
                    0 <= col <= 8,
                    forall|s: Square|
                        s.row < row || (s.row == row && s.col < col) ==> !#[trigger] attacker(
                            self@,
                            s,
                            to,
                            by,
                        ),
                decreases 8 - col,
            {
                let s = Square { col, row };
                if let Some(p) = self.piece_at(s) {
                    if p.color == by && self.strikes_square(p, s, to) && (p.figure_type
                        == FigureType::Pawn || !self.is_occupied_by(to, by)) {
                        assert(attacker(self@, s, to, by));
                        return true;
                    }
                }
                col = col + 1;
            }
            row = row + 1;
        }
        false
    }

    /// Whether the king of `color` is attacked.
    pub fn is_in_check(&self, color: ChessColor) -> (r: bool)
        requires
            self.wf(),
        ensures
            r == in_check(self@, color),
    {
        let k = self.king_square(color);
        let r = self.is_square_attacked(k, color.other());
        if !r {
            assert forall|s: Square|
                s.valid() && #[trigger] king_of(self@, s, color) implies !attacked(
                self@,
                s,
                color.opponent(),
            ) by {
                assert(s == k);
            }
        }
        r
    }

    /// Whether the piece on `from` may legally go to `to`: the move is
    /// pseudo-legal, takes no king, and played on a scratch copy it leaves
    /// the mover's king unattacked.
    pub fn is_legal(&self, from: Square, to: Square) -> (r: bool)
        requires
            self.wf(),
        ensures
            r == legal(self@, from, to),
    {
        if !self.is_pseudo_legal(from, to) {
            return false;
        }
        let p = self.piece_at(from).unwrap();
        match self.piece_at(to) {
            Some(q) => {
                if q.figure_type == FigureType::King {
                    return false;
                }
            },
            None => {},
        }
        proof {
            self.lemma_wf();
            lemma_legal_executable(self@, from, to);
        }
        let mut scratch = self.copy();
        scratch.execute(from, to);
        !scratch.is_in_check(p.color)
    }

    /// The squares the piece on `from` may legally go to, in row-major
    /// order; empty for an empty square.
    pub fn legal_moves(&self, from: Square) -> (r: Vec<Square>)
        requires
            self.wf(),
        ensures
            forall|t: Square| r@.contains(t) <==> legal(self@, from, t),
            r@.no_duplicates(),
    {
        let mut out: Vec<Square> = Vec::new();
        let mut row: u8 = 0;
        while row < 8
            invariant
                self.wf(),
                0 <= row <= 8,
                forall|i: int| 0 <= i < out@.len() ==> (#[trigger] out@[i]).valid(),
                forall|i: int| 0 <= i < out@.len() ==> (#[trigger] out@[i]).index() < 8 * row,
                forall|i: int, j: int|
                    0 <= i < j < out@.len() ==> (#[trigger] out@[i]).index() < (
                    #[trigger] out@[j]).index(),
                forall|t: Square|
                    t.valid() && t.index() < 8 * row ==> (out@.contains(t) <==> legal(
                        self@,
                        from,
                        t,
                    )),
            decreases 8 - row,
        {
            let mut col: u8 = 0;
            while col < 8
                invariant
                    self.wf(),
                    0 <= row < 8,
                    0 <= col <= 8,
                    forall|i: int| 0 <= i < out@.len() ==> (#[trigger] out@[i]).valid(),
                    forall|i: int|
                        0 <= i < out@.len() ==> (#[trigger] out@[i]).index() < 8 * row + col,
                    forall|i: int, j: int|
                        0 <= i < j < out@.len() ==> (#[trigger] out@[i]).index() < (
                        #[trigger] out@[j]).index(),
                    forall|t: Square|
                        t.valid() && t.index() < 8 * row + col ==> (out@.contains(t)
                            <==> legal(self@, from, t)),
                decreases 8 - col,
            {
                let t = Square { col, row };
                let ghost prev = out@;
                if self.is_legal(from, t) {
                    out.push(t);
                }
                proof {
                    assert forall|u: Square|
                        u.valid() && u.index() < 8 * row + col + 1 implies (out@.contains(u)
                        <==> legal(self@, from, u)) by {
                        if u.index() == 8 * row + col {
                            assert(u == t);
                            if legal(self@, from, u) {
                                assert(out@[out@.len() - 1] == t);
                            } else {
                                assert(out@ == prev);
                                if out@.contains(u) {
                                    let i = choose|i: int| 0 <= i < out@.len() && out@[i] == u;
                                    assert(u.index() < 8 * row + col);
                                }
                            }
                        } else {
                            assert(u != t);
                            if out@.contains(u) {
                                let i = choose|i: int| 0 <= i < out@.len() && out@[i] == u;
                                if out@ != prev {
                                    assert(i < prev.len());
                                }
                                assert(prev.contains(u));
                            }
                            if prev.contains(u) {
                                let i = choose|i: int| 0 <= i < prev.len() && prev[i] == u;
                                assert(out@[i] == u);
                            }
                        }
                    }
                }
                col = col + 1;
            }
            row = row + 1;
        }
        proof {
            assert forall|t: Square| out@.contains(t) implies t.valid() by {
            }
            assert forall|i: int, j: int|
                0 <= i < out@.len() && 0 <= j < out@.len() && i != j implies out@[i]
                != out@[j] by {
                if i < j {
                    assert(out@[i].index() < out@[j].index());
                } else {
                    assert(out@[j].index() < out@[i].index());
                }
            }
        }
        out
    }

    /// Whether some piece of `color` has a legal move.
    pub fn has_any_legal_move(&self, color: ChessColor) -> (r: bool)
        requires
            self.wf(),
        ensures
            r == has_legal_move(self@, color),
    {
        let mut row: u8 = 0;
        while row < 8
            invariant
                self.wf(),
                0 <= row <= 8,
                forall|f: Square, t: Square|
                    f.valid() && f.row < row && at_sq(self@, f) is Some && at_sq(self@, f)->Some_0.color
                        == color ==> !#[trigger] legal(self@, f, t),
            decreases 8 - row,
        {
            let mut col: u8 = 0;
            while col < 8
                invariant
                    self.wf(),
                    0 <= row < 8,
                    0 <= col <= 8,
                    forall|f: Square, t: Square|
                        f.valid() && (f.row < row || (f.row == row && f.col < col)) && at_sq(
                            self@,
                            f,
                        ) is Some && at_sq(self@, f)->Some_0.color == color ==> !#[trigger] legal(
                            self@,
                            f,
                            t,
                        ),
                decreases 8 - col,
            {
                let f = Square { col, row };
                if self.is_occupied_by(f, color) {
                    let moves = self.legal_moves(f);
                    if moves.len() > 0 {
                        assert(moves@.contains(moves@[0]));
                        assert(legal(self@, f, moves@[0]));
                        return true;
                    }
                    assert forall|t: Square| !#[trigger] legal(self@, f, t) by {
                        assert(!moves@.contains(t));
                    }
                }
                col = col + 1;
            }
            row = row + 1;
        }
        proof {
            assert forall|f: Square, t: Square|
                at_sq(self@, f) is Some && at_sq(self@, f)->Some_0.color == color implies !#[trigger] legal(
                self@,
                f,
                t,
            ) by {
                if legal(self@, f, t) {
                    assert(f.valid());
                }
            }
        }
        false
    }

    /// The status of `color` when it is to move: checkmate when in check
    /// with no legal move, stalemate when not in check with none, check when
    /// in check with one, and in progress otherwise.
    pub fn game_outcome(&self, color: ChessColor) -> (r: GameOutcome)
        requires
            self.wf(),
        ensures
            r == outcome(self@, color),
    {
        let check = self.is_in_check(color);
        let can_move = self.has_any_legal_move(color);
        if check {
            if can_move {
                GameOutcome::Check(color)
            } else {
                GameOutcome::Checkmate(color)
            }
        } else if can_move {
            GameOutcome::InProgress
        } else {
            GameOutcome::Stalemate
        }
    }
}

} // verus!
