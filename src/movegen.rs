use vstd::prelude::*;
use crate::board::{at, at_sq, captured_square, is_en_passant_capture, promotes, Board};
use crate::figures::{ChessColor, Figure, FigureType, Square};

verus! {

pub open spec fn abs(x: int) -> int {
    if x < 0 {
        -x
    } else {
        x
    }
}

pub open spec fn sign(x: int) -> int {
    if x > 0 {
        1
    } else if x < 0 {
        -1
    } else {
        0
    }
}

/// The coordinate `k` steps from `c` in direction `s` (one of -1, 0, 1).
pub open spec fn step(c: int, s: int, k: int) -> int {
    if s > 0 {
        c + k
    } else if s < 0 {
        c - k
    } else {
        c
    }
}

pub open spec fn dcol(from: Square, to: Square) -> int {
    to.col - from.col
}

pub open spec fn drow(from: Square, to: Square) -> int {
    to.row - from.row
}

/// Along a rank or a file.
pub open spec fn straight(from: Square, to: Square) -> bool {
    (dcol(from, to) == 0) != (drow(from, to) == 0)
}

/// Along a diagonal.
pub open spec fn diagonal(from: Square, to: Square) -> bool {
    abs(dcol(from, to)) == abs(drow(from, to)) && dcol(from, to) != 0
}

/// The number of single steps from `from` to `to` along a line.
pub open spec fn distance(from: Square, to: Square) -> int {
    if abs(dcol(from, to)) >= abs(drow(from, to)) {
        abs(dcol(from, to))
    } else {
        abs(drow(from, to))
    }
}

/// The square `k` steps from `from` towards `to`, as coordinates.
pub open spec fn ray_col(from: Square, to: Square, k: int) -> int {
    step(from.col as int, sign(dcol(from, to)), k)
}

pub open spec fn ray_row(from: Square, to: Square, k: int) -> int {
    step(from.row as int, sign(drow(from, to)), k)
}

/// Every square strictly between `from` and `to` on their line is empty.
pub open spec fn path_clear(cells: Seq<Option<Figure>>, from: Square, to: Square) -> bool {
    forall|k: int|
        0 < k < distance(from, to) ==> #[trigger] at(
            cells,
            ray_col(from, to, k),
            ray_row(from, to, k),
        ) is None
}

pub open spec fn knight_jump(from: Square, to: Square) -> bool {
    let a = abs(dcol(from, to));
    let b = abs(drow(from, to));
    (a == 1 && b == 2) || (a == 2 && b == 1)
}

pub open spec fn king_step(from: Square, to: Square) -> bool {
    abs(dcol(from, to)) <= 1 && abs(drow(from, to)) <= 1 && from != to
}

/// Whether a piece `p` on `from` strikes `to`: the squares it could capture
/// on, ignoring what stands on `to`. Pawns strike diagonally forward only.
pub open spec fn strikes(cells: Seq<Option<Figure>>, p: Figure, from: Square, to: Square) -> bool {
    match p.figure_type {
        FigureType::Pawn => abs(dcol(from, to)) == 1 && drow(from, to) == p.color.forward(),
        FigureType::Knight => knight_jump(from, to),
        FigureType::King => king_step(from, to),
        FigureType::Fort => straight(from, to) && path_clear(cells, from, to),
        FigureType::Bishop => diagonal(from, to) && path_clear(cells, from, to),
        FigureType::Queen => (straight(from, to) || diagonal(from, to)) && path_clear(
            cells,
            from,
            to,
        ),
    }
}

/// `s` holds a pawn of the other side that may be taken en passant.
pub open spec fn en_passant_victim(cells: Seq<Option<Figure>>, p: Figure, s: Square) -> bool {
    &&& at_sq(cells, s) is Some
    &&& at_sq(cells, s)->Some_0.figure_type == FigureType::Pawn
    &&& at_sq(cells, s)->Some_0.color != p.color
    &&& at_sq(cells, s)->Some_0.metadata.is_enpassant_valid
}

pub open spec fn pawn_move(cells: Seq<Option<Figure>>, p: Figure, from: Square, to: Square) -> bool {
    let dir = p.color.forward();
    let dc = dcol(from, to);
    let dr = drow(from, to);
    let target = at_sq(cells, to);
    ||| dc == 0 && dr == dir && target is None
    ||| dc == 0 && dr == 2 * dir && from.row == p.color.pawn_rank() && target is None && at(
        cells,
        from.col as int,
        from.row + dir,
    ) is None
    ||| abs(dc) == 1 && dr == dir && target is Some && target->Some_0.color != p.color
    ||| abs(dc) == 1 && dr == dir && target is None && en_passant_victim(
        cells,
        p,
        Square { col: to.col, row: from.row },
    )
}

/// `to` holds a piece of the same side as `p`.
pub open spec fn friendly(cells: Seq<Option<Figure>>, p: Figure, to: Square) -> bool {
    at_sq(cells, to) is Some && at_sq(cells, to)->Some_0.color == p.color
}

/// The piece on `from` may go to `to` by its movement rules, blocking and
/// capture rules included, leaving aside the safety of its own king.
pub open spec fn pseudo_legal(cells: Seq<Option<Figure>>, from: Square, to: Square) -> bool {
    let p = at_sq(cells, from)->Some_0;
    &&& from.valid()
    &&& to.valid()
    &&& from != to
    &&& at_sq(cells, from) is Some
    &&& !friendly(cells, p, to)
    &&& if p.figure_type == FigureType::Pawn {
        pawn_move(cells, p, from, to)
    } else {
        strikes(cells, p, from, to)
    }
}

/// How a move affects the board beyond relocating the mover.
#[derive(Debug, Clone, Copy, PartialEq, Eq, Structural)]
pub struct MoveTag {
    /// A piece is taken (en passant included); otherwise the move is quiet.
    pub capture: bool,
    /// A pawn takes the pawn beside it by moving diagonally to an empty square.
    pub en_passant: bool,
    /// A pawn reaches the far rank.
    pub promotion: bool,
}

pub open spec fn tag_of(cells: Seq<Option<Figure>>, from: Square, to: Square) -> MoveTag {
    MoveTag {
        capture: at_sq(cells, captured_square(cells, from, to)) is Some,
        en_passant: is_en_passant_capture(cells, from, to),
        promotion: promotes(at_sq(cells, from)->Some_0, to),
    }
}

fn iabs(x: i32) -> (r: i32)
    requires
        -100 < x < 100,
    ensures
        r == abs(x as int),
{
    if x < 0 {
        -x
    } else {
        x
    }
}

fn isign(x: i32) -> (r: i32)
    ensures
        r == sign(x as int),
{
    if x > 0 {
        1
    } else if x < 0 {
        -1
    } else {
        0
    }
}

fn forward_of(c: ChessColor) -> (r: i32)
    ensures
        r == c.forward(),
{
    match c {
        ChessColor::White => 1,
        ChessColor::Black => -1,
    }
}

impl Board {
    /// Whether every square strictly between `from` and `to` is empty;
    /// the two lie on one rank, file or diagonal.
    pub fn path_is_clear(&self, from: Square, to: Square) -> (r: bool)
        requires
            self.wf(),
            from.valid(),
            to.valid(),
            straight(from, to) || diagonal(from, to),
        ensures
            r == path_clear(self@, from, to),
    {
        let dc = to.col as i32 - from.col as i32;
        let dr = to.row as i32 - from.row as i32;
        let sc = isign(dc);
        let sr = isign(dr);
        let ac = iabs(dc);
        let ar = iabs(dr);
        let n = if ac >= ar {
            ac
        } else {
            ar
        };
        let mut k: i32 = 1;
        let mut c: i32 = from.col as i32 + sc;
        let mut r: i32 = from.row as i32 + sr;
        while k < n
            invariant
                self.wf(),
                1 <= k <= n,
                n == distance(from, to),
                n <= 7,
                sc == sign(dcol(from, to)),
                sr == sign(drow(from, to)),
                c == ray_col(from, to, k as int),
                r == ray_row(from, to, k as int),
                straight(from, to) || diagonal(from, to),
                forall|j: int|
                    0 < j < k ==> #[trigger] at(self@, ray_col(from, to, j), ray_row(from, to, j))
                        is None,
            decreases n - k,
        {
            if self.piece_at_xy(c, r).is_some() {
                return false;
            }
            c = c + sc;
            r = r + sr;
            k = k + 1;
        }
        true
    }

    /// Whether the piece `p`, standing on `from`, strikes `to`.
    pub fn strikes_square(&self, p: Figure, from: Square, to: Square) -> (r: bool)
        requires
            self.wf(),
            from.valid(),
            to.valid(),
        ensures
            r == strikes(self@, p, from, to),
    {
        let dc = to.col as i32 - from.col as i32;
        let dr = to.row as i32 - from.row as i32;
        let ac = iabs(dc);
        let ar = iabs(dr);
        let is_straight = (dc == 0) != (dr == 0);
        let is_diagonal = ac == ar && dc != 0;
        match p.figure_type {
            FigureType::Pawn => ac == 1 && dr == forward_of(p.color),
            FigureType::Knight => (ac == 1 && ar == 2) || (ac == 2 && ar == 1),
            FigureType::King => ac <= 1 && ar <= 1 && (dc != 0 || dr != 0),
            FigureType::Fort => is_straight && self.path_is_clear(from, to),
            FigureType::Bishop => is_diagonal && self.path_is_clear(from, to),
            FigureType::Queen => (is_straight || is_diagonal) && self.path_is_clear(from, to),
        }
    }

    /// Whether the pawn `p` on `from` may go to `to`.
    fn pawn_may_move(&self, p: Figure, from: Square, to: Square) -> (r: bool)
        requires
            self.wf(),
            from.valid(),
            to.valid(),
        ensures
            r == pawn_move(self@, p, from, to),
    {
        let dir = forward_of(p.color);
        let dc = to.col as i32 - from.col as i32;
        let dr = to.row as i32 - from.row as i32;
        let target = self.piece_at(to);
        let start: u8 = match p.color {
            ChessColor::White => 1,
            ChessColor::Black => 6,
        };
        if dc == 0 {
            if dr == dir {
                target.is_none()
            } else if dr == 2 * dir {
                from.row == start && target.is_none() && self.piece_at_xy(
                    from.col as i32,
                    from.row as i32 + dir,
                ).is_none()
            } else {
                false
            }
        } else if iabs(dc) == 1 && dr == dir {
            match target {
                Some(q) => q.color != p.color,
                None => {
                    match self.piece_at(Square { col: to.col, row: from.row }) {
                        Some(q) => q.figure_type == FigureType::Pawn && q.color != p.color
                            && q.metadata.is_enpassant_valid,
                        None => false,
                    }
                },
            }
        } else {
            false
        }
    }

    /// Whether the piece on `from` may go to `to` when the safety of its
    /// own king is left aside.
    pub fn is_pseudo_legal(&self, from: Square, to: Square) -> (r: bool)
        requires
            self.wf(),
        ensures
            r == pseudo_legal(self@, from, to),
    {
        if !(from.col < 8 && from.row < 8 && to.col < 8 && to.row < 8) || from == to {
            return false;
        }
        let p = match self.piece_at(from) {
            Some(p) => p,
            None => {
                return false;
            },
        };
        if self.is_occupied_by(to, p.color) {
            return false;
        }
        if p.figure_type == FigureType::Pawn {
            self.pawn_may_move(p, from, to)
        } else {
            self.strikes_square(p, from, to)
        }
    }

    /// The squares the piece on `from` may go to when the safety of its own
    /// king is left aside, in row-major order; empty for an empty square.
    pub fn get_legalmoves(&self, from: Square) -> (r: Vec<Square>)
        requires
            self.wf(),
        ensures
            forall|t: Square| r@.contains(t) <==> pseudo_legal(self@, from, t),
            r@.no_duplicates(),
    {
        let mut out: Vec<Square> = Vec::new();
        let mut row: u8 = 0;
        while row < 8
            invariant
                self.wf(),
                0 <= row <= 8,
                forall|i: int| 0 <= i < out@.len() ==> (#[trigger] out@[i]).valid(),
                forall|i: int| 0 <= i < out@.len() ==> (#[trigger] out@[i]).index() < 8 * row,
                forall|i: int, j: int|
                    0 <= i < j < out@.len() ==> (#[trigger] out@[i]).index() < (
                    #[trigger] out@[j]).index(),
                forall|t: Square|
                    t.valid() && t.index() < 8 * row ==> (out@.contains(t) <==> pseudo_legal(
                        self@,
                        from,
                        t,
                    )),
            decreases 8 - row,
        {
            let mut col: u8 = 0;
            while col < 8
                invariant
                    self.wf(),
                    0 <= row < 8,
                    0 <= col <= 8,
                    forall|i: int| 0 <= i < out@.len() ==> (#[trigger] out@[i]).valid(),
                    forall|i: int|
                        0 <= i < out@.len() ==> (#[trigger] out@[i]).index() < 8 * row + col,
                    forall|i: int, j: int|
                        0 <= i < j < out@.len() ==> (#[trigger] out@[i]).index() < (
                        #[trigger] out@[j]).index(),
                    forall|t: Square|
                        t.valid() && t.index() < 8 * row + col ==> (out@.contains(t)
                            <==> pseudo_legal(self@, from, t)),
                decreases 8 - col,
            {
                let t = Square { col, row };
                let ghost prev = out@;
                if self.is_pseudo_legal(from, t) {
                    out.push(t);
                }
                proof {
                    assert forall|u: Square|
                        u.valid() && u.index() < 8 * row + col + 1 implies (out@.contains(u)
                        <==> pseudo_legal(self@, from, u)) by {
                        if u.index() == 8 * row + col {
                            assert(u == t);
                            if pseudo_legal(self@, from, u) {
                                assert(out@[out@.len() - 1] == t);
                            } else {
                                assert(out@ == prev);
                                if out@.contains(u) {
                                    let i = choose|i: int| 0 <= i < out@.len() && out@[i] == u;
                                    assert(u.index() < 8 * row + col);
                                }
                            }
                        } else {
                            assert(u != t);
                            if out@.contains(u) {
                                let i = choose|i: int| 0 <= i < out@.len() && out@[i] == u;
                                if out@ != prev {
                                    assert(i < prev.len());
                                }
                                assert(prev.contains(u));
                            }
                            if prev.contains(u) {
                                let i = choose|i: int| 0 <= i < prev.len() && prev[i] == u;
                                assert(out@[i] == u);
                            }
                        }
                    }
                }
                col = col + 1;
            }
            row = row + 1;
        }
        proof {
            assert forall|t: Square| out@.contains(t) implies t.valid() by {
            }
            assert forall|i: int, j: int|
                0 <= i < out@.len() && 0 <= j < out@.len() && i != j implies out@[i]
                != out@[j] by {
                if i < j {
                    assert(out@[i].index() < out@[j].index());
                } else {
                    assert(out@[j].index() < out@[i].index());
                }
            }
        }
        out
    }

    /// The tag of the move `from` -> `to` of the piece on `from`.
    pub fn tag_move(&self, from: Square, to: Square) -> (r: MoveTag)
        requires
            self.wf(),
            from.valid(),
            to.valid(),
            at_sq(self@, from) is Some,
        ensures
            r == tag_of(self@, from, to),
    {
        let p = self.piece_at(from).unwrap();
        let target = self.piece_at(to);
        let en_passant = p.figure_type == FigureType::Pawn && from.col != to.col && target.is_none();
        let captured = if en_passant {
            self.piece_at(Square { col: to.col, row: from.row })
        } else {
            target
        };
        let last: u8 = match p.color {
            ChessColor::White => 7,
            ChessColor::Black => 0,
        };
        MoveTag {
            capture: captured.is_some(),
            en_passant,
            promotion: p.figure_type == FigureType::Pawn && to.row == last,
        }
    }

    /// The pseudo-legal destinations of the piece on `from`, each with its
    /// tag, in row-major order.
    pub fn tagged_moves(&self, from: Square) -> (r: Vec<(Square, MoveTag)>)
        requires
            self.wf(),
        ensures
            forall|i: int|
                0 <= i < r@.len() ==> pseudo_legal(self@, from, (#[trigger] r@[i]).0) && r@[i].1
                    == tag_of(self@, from, r@[i].0),
            forall|t: Square|
                pseudo_legal(self@, from, t) ==> exists|i: int|
                    0 <= i < r@.len() && (#[trigger] r@[i]).0 == t,
            forall|i: int, j: int| 0 <= i < j < r@.len() ==> r@[i].0 != r@[j].0,
    {
        let moves = self.get_legalmoves(from);
        let mut out: Vec<(Square, MoveTag)> = Vec::new();
        let mut i: usize = 0;
        while i < moves.len()
            invariant
                self.wf(),
                0 <= i <= moves@.len(),
                out@.len() == i,
                forall|t: Square| moves@.contains(t) <==> pseudo_legal(self@, from, t),
                moves@.no_duplicates(),
                forall|j: int|
                    0 <= j < i ==> (#[trigger] out@[j]).0 == moves@[j] && out@[j].1 == tag_of(
                        self@,
                        from,
                        moves@[j],
                    ),
            decreases moves@.len() - i,
        {
            let t = moves[i];
            assert(moves@.contains(t));
            let tag = self.tag_move(from, t);
            out.push((t, tag));
            i = i + 1;
        }
        proof {
            assert forall|j: int| 0 <= j < out@.len() implies pseudo_legal(
                self@,
                from,
                (#[trigger] out@[j]).0,
            ) by {
                assert(moves@.contains(moves@[j]));
            }
            assert forall|t: Square| pseudo_legal(self@, from, t) implies exists|j: int|
                0 <= j < out@.len() && (#[trigger] out@[j]).0 == t by {
                assert(moves@.contains(t));
                let j = choose|j: int| 0 <= j < moves@.len() && moves@[j] == t;
                assert(out@[j].0 == t);
            }
        }
        out
    }
}

} // verus!
