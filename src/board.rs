use vstd::prelude::*;
use crate::figures::{on_board, ChessColor, Figure, FigureMetadata, FigureType, Square};

verus! {

/// Why a request against the board or the game was refused.
#[derive(Debug, Clone, Copy, PartialEq, Eq, Structural)]
pub enum MoveError {
    /// A coordinate lies outside the board.
    InvalidSquare,
    /// The requested move is not allowed.
    IllegalMove,
    /// The source square holds no piece.
    NoPieceAtSource,
}

/// The occupant of column `c`, row `r`; `None` off the board.
pub open spec fn at(cells: Seq<Option<Figure>>, c: int, r: int) -> Option<Figure> {
    if on_board(c, r) && cells.len() == 64 {
        cells[8 * r + c]
    } else {
        None
    }
}

pub open spec fn at_sq(cells: Seq<Option<Figure>>, s: Square) -> Option<Figure> {
    at(cells, s.col as int, s.row as int)
}

pub open spec fn holds_king(cells: Seq<Option<Figure>>, s: Square) -> bool {
    at_sq(cells, s) is Some && at_sq(cells, s)->Some_0.figure_type == FigureType::King
}

pub open spec fn king_of(cells: Seq<Option<Figure>>, s: Square, color: ChessColor) -> bool {
    holds_king(cells, s) && at_sq(cells, s)->Some_0.color == color
}

pub open spec fn square_of_index(i: int) -> Square {
    Square { col: (i % 8) as u8, row: (i / 8) as u8 }
}

/// Every stored piece records the square it stands on.
pub open spec fn well_placed(cells: Seq<Option<Figure>>) -> bool {
    &&& cells.len() == 64
    &&& forall|i: int|
        0 <= i < 64 && #[trigger] cells[i] is Some ==> {
            let p = cells[i]->Some_0.current_position;
            p.valid() && p.index() == i
        }
}

/// The side has exactly one king on the board.
pub open spec fn unique_king(cells: Seq<Option<Figure>>, color: ChessColor) -> bool {
    &&& exists|s: Square| s.valid() && #[trigger] king_of(cells, s, color)
    &&& forall|s: Square, t: Square|
        s.valid() && t.valid() && #[trigger] king_of(cells, s, color) && #[trigger] king_of(
            cells,
            t,
            color,
        ) ==> s == t
}

/// The board contents are those of a position in play.
pub open spec fn board_ok(cells: Seq<Option<Figure>>) -> bool {
    &&& well_placed(cells)
    &&& unique_king(cells, ChessColor::White)
    &&& unique_king(cells, ChessColor::Black)
}

pub open spec fn with_position(f: Figure, s: Square) -> Figure {
    Figure { current_position: s, ..f }
}

pub open spec fn without_flag(o: Option<Figure>) -> Option<Figure> {
    match o {
        Some(f) => Some(
            Figure { metadata: FigureMetadata { is_enpassant_valid: false, ..f.metadata }, ..f },
        ),
        None => None,
    }
}

/// A pawn moving diagonally onto an empty square takes en passant.
pub open spec fn is_en_passant_capture(cells: Seq<Option<Figure>>, from: Square, to: Square) -> bool {
    &&& at_sq(cells, from) is Some
    &&& at_sq(cells, from)->Some_0.figure_type == FigureType::Pawn
    &&& from.col != to.col
    &&& at_sq(cells, to) is None
}

/// The square whose occupant a move removes.
pub open spec fn captured_square(cells: Seq<Option<Figure>>, from: Square, to: Square) -> Square {
    if is_en_passant_capture(cells, from, to) {
        Square { col: to.col, row: from.row }
    } else {
        to
    }
}

pub open spec fn promotes(p: Figure, to: Square) -> bool {
    p.figure_type == FigureType::Pawn && to.row == p.color.last_rank()
}

pub open spec fn is_double_advance(p: Figure, from: Square, to: Square) -> bool {
    &&& p.figure_type == FigureType::Pawn
    &&& from.col == to.col
    &&& (to.row - from.row == 2 || from.row - to.row == 2)
}

pub open spec fn next_count(n: u16) -> u16 {
    if n < u16::MAX {
        (n + 1) as u16
    } else {
        n
    }
}

/// The piece as it stands after moving from `from` to `to`.
pub open spec fn moved_figure(p: Figure, from: Square, to: Square) -> Figure {
    Figure {
        figure_type: if promotes(p, to) {
            FigureType::Queen
        } else {
            p.figure_type
        },
        color: p.color,
        current_position: to,
        metadata: FigureMetadata {
            number_of_moves: next_count(p.metadata.number_of_moves),
            is_enpassant_valid: is_double_advance(p, from, to),
        },
    }
}

/// The board after the piece on `from` moves to `to`: the captured square
/// is emptied, the mover is relocated (and promoted on the far rank), and
/// every other piece loses its en-passant flag.
pub open spec fn after_move(cells: Seq<Option<Figure>>, from: Square, to: Square) -> Seq<
    Option<Figure>,
> {
    let p = at_sq(cells, from)->Some_0;
    let cap = captured_square(cells, from, to);
    Seq::new(
        64,
        |i: int|
            if i == to.index() {
                Some(moved_figure(p, from, to))
            } else if i == from.index() || i == cap.index() {
                None
            } else {
                without_flag(cells[i])
            },
    )
}


/// The board after `piece` is set down on `s`. A king set down replaces
/// the king of its side, whose square is emptied.
pub open spec fn placed(cells: Seq<Option<Figure>>, s: Square, piece: Figure) -> Seq<Option<Figure>> {
    Seq::new(
        64,
        |i: int|
            if i == s.index() {
                Some(with_position(piece, s))
            } else if piece.figure_type == FigureType::King && cells[i] is Some
                && cells[i]->Some_0.figure_type == FigureType::King && cells[i]->Some_0.color
                == piece.color {
                None
            } else {
                cells[i]
            },
    )
}

/// The board after the piece on `from` is carried to `to` as it is.
pub open spec fn relocated(cells: Seq<Option<Figure>>, from: Square, to: Square) -> Seq<
    Option<Figure>,
> {
    cells.update(from.index(), None).update(
        to.index(),
        Some(with_position(at_sq(cells, from)->Some_0, to)),
    )
}

/// What `execute` asks of a move: a piece on `from`, another square `to`,
/// and no king on the square the move clears.
pub open spec fn executable(cells: Seq<Option<Figure>>, from: Square, to: Square) -> bool {
    &&& from.valid()
    &&& to.valid()
    &&& from != to
    &&& at_sq(cells, from) is Some
    &&& !holds_king(cells, captured_square(cells, from, to))
}

/// The kind standing on column `c` of a back rank at the start.
pub open spec fn back_rank(c: int) -> FigureType {
    if c == 0 || c == 7 {
        FigureType::Fort
    } else if c == 1 || c == 6 {
        FigureType::Knight
    } else if c == 2 || c == 5 {
        FigureType::Bishop
    } else if c == 3 {
        FigureType::Queen
    } else {
        FigureType::King
    }
}

/// The occupant of `s` in the standard starting layout.
pub open spec fn initial_at(s: Square) -> Option<Figure> {
    if s.row == 0 {
        Some(figure(back_rank(s.col as int), ChessColor::White, s))
    } else if s.row == 1 {
        Some(figure(FigureType::Pawn, ChessColor::White, s))
    } else if s.row == 6 {
        Some(figure(FigureType::Pawn, ChessColor::Black, s))
    } else if s.row == 7 {
        Some(figure(back_rank(s.col as int), ChessColor::Black, s))
    } else {
        None
    }
}

pub open spec fn is_initial(cells: Seq<Option<Figure>>) -> bool {
    &&& cells.len() == 64
    &&& forall|s: Square| s.valid() ==> #[trigger] at_sq(cells, s) == initial_at(s)
}

pub proof fn lemma_square_of_index(i: int)
    requires
        0 <= i < 64,
    ensures
        square_of_index(i).valid(),
        square_of_index(i).index() == i,
{
}

fn initial_piece(col: u8, row: u8) -> (r: Option<Figure>)
    requires
        col < 8,
        row < 8,
    ensures
        r == initial_at(Square { col, row }),
{
    let s = Square { col, row };
    let color = if row < 2 {
        ChessColor::White
    } else {
        ChessColor::Black
    };
    let kind = if row == 1 || row == 6 {
        FigureType::Pawn
    } else if col == 0 || col == 7 {
        FigureType::Fort
    } else if col == 1 || col == 6 {
        FigureType::Knight
    } else if col == 2 || col == 5 {
        FigureType::Bishop
    } else if col == 3 {
        FigureType::Queen
    } else {
        FigureType::King
    };
    if row == 0 || row == 1 || row == 6 || row == 7 {
        Some(
            Figure {
                figure_type: kind,
                color,
                current_position: s,
                metadata: FigureMetadata { number_of_moves: 0, is_enpassant_valid: false },
            },
        )
    } else {
        None
    }
}


/// The 32 pieces of the standard starting layout, row by row.
pub fn get_figures() -> (r: Vec<Figure>)
    ensures
        forall|f: Figure|
            r@.contains(f) <==> (f.current_position.valid() && initial_at(f.current_position)
                == Some(f)),
        r@.no_duplicates(),
{
    let mut out: Vec<Figure> = Vec::new();
    let mut row: u8 = 0;
    while row < 8
        invariant
            0 <= row <= 8,
            forall|i: int|
                0 <= i < out@.len() ==> (#[trigger] out@[i]).current_position.valid()
                    && out@[i].current_position.index() < 8 * row && initial_at(
                    out@[i].current_position,
                ) == Some(out@[i]),
            forall|i: int, j: int|
                0 <= i < j < out@.len() ==> (#[trigger] out@[i]).current_position.index() < (
                #[trigger] out@[j]).current_position.index(),
            forall|s: Square|
                s.valid() && s.index() < 8 * row && initial_at(s) is Some ==> out@.contains(
                    initial_at(s)->Some_0,
                ),
        decreases 8 - row,
    {
        let mut col: u8 = 0;
        while col < 8
            invariant
                0 <= row < 8,
                0 <= col <= 8,
                forall|i: int|
                    0 <= i < out@.len() ==> (#[trigger] out@[i]).current_position.valid()
                        && out@[i].current_position.index() < 8 * row + col && initial_at(
                        out@[i].current_position,
                    ) == Some(out@[i]),
                forall|i: int, j: int|
                    0 <= i < j < out@.len() ==> (#[trigger] out@[i]).current_position.index() < (
                    #[trigger] out@[j]).current_position.index(),
                forall|s: Square|
                    s.valid() && s.index() < 8 * row + col && initial_at(s) is Some
                        ==> out@.contains(initial_at(s)->Some_0),
            decreases 8 - col,
        {
            let ghost prev = out@;
            let t = Square { col, row };
            if let Some(f) = initial_piece(col, row) {
                out.push(f);
                proof {
                    assert(out@[out@.len() - 1] == f);
                    assert forall|s: Square|
                        s.valid() && s.index() < 8 * row + col + 1 && initial_at(s) is Some
                            implies out@.contains(initial_at(s)->Some_0) by {
                        if s.index() == 8 * row + col {
                            lemma_index_inj(s, t);
                        } else {
                            let i = choose|i: int| 0 <= i < prev.len() && prev[i] == initial_at(s)->Some_0;
                            assert(out@[i] == prev[i]);
                        }
                    }
                }
            }
            col = col + 1;
        }
        row = row + 1;
    }
    proof {
        assert forall|f: Figure|
            f.current_position.valid() && initial_at(f.current_position) == Some(f) implies out@.contains(
            f,
        ) by {}
        assert forall|i: int, j: int|
            0 <= i < out@.len() && 0 <= j < out@.len() && i != j implies out@[i] != out@[j] by {
            if i < j {
                assert(out@[i].current_position.index() < out@[j].current_position.index());
            } else {
                assert(out@[j].current_position.index() < out@[i].current_position.index());
            }
        }
    }
    out
}

/// The 8x8 grid, with the square of each side's king kept at hand.
pub struct Board {
    cells: Vec<Option<Figure>>,
    white_king: Square,
    black_king: Square,
}

impl View for Board {
    type V = Seq<Option<Figure>>;

    closed spec fn view(&self) -> Seq<Option<Figure>> {
        self.cells@
    }
}

pub open spec fn figure(figure_type: FigureType, color: ChessColor, s: Square) -> Figure {
    Figure {
        figure_type,
        color,
        current_position: s,
        metadata: FigureMetadata { number_of_moves: 0, is_enpassant_valid: false },
    }
}

fn index_of(s: Square) -> (r: usize)
    requires
        s.valid(),
    ensures
        r as int == s.index(),
        r < 64,
{
    (s.row as usize) * 8 + (s.col as usize)
}

proof fn lemma_index_inj(s: Square, t: Square)
    requires
        s.valid(),
        t.valid(),
    ensures
        s.index() == t.index() <==> s == t,
{
}

impl Board {
    pub closed spec fn king_cache(&self, color: ChessColor) -> Square {
        match color {
            ChessColor::White => self.white_king,
            ChessColor::Black => self.black_king,
        }
    }

    pub closed spec fn wf(&self) -> bool {
        &&& board_ok(self@)
        &&& self.white_king.valid()
        &&& self.black_king.valid()
        &&& king_of(self@, self.white_king, ChessColor::White)
        &&& king_of(self@, self.black_king, ChessColor::Black)
    }

    pub proof fn lemma_wf(&self)
        requires
            self.wf(),
        ensures
            board_ok(self@),
    {
    }


    /// A board holding only the two kings, on `white` and `black`; `None`
    /// when either square is off the board or they coincide.
    pub fn with_kings(white: Square, black: Square) -> (r: Option<Board>)
        ensures
            r is Some <==> (white.valid() && black.valid() && white != black),
            r is Some ==> r->Some_0.wf() && forall|s: Square|
                s.valid() ==> #[trigger] at_sq(r->Some_0@, s) == if s == white {
                    Some(figure(FigureType::King, ChessColor::White, white))
                } else if s == black {
                    Some(figure(FigureType::King, ChessColor::Black, black))
                } else {
                    None::<Figure>
                },
    {
        if !(white.col < 8 && white.row < 8 && black.col < 8 && black.row < 8) || white == black {
            return None;
        }
        let wi = index_of(white);
        let bi = index_of(black);
        let mut cells: Vec<Option<Figure>> = Vec::new();
        let mut i: usize = 0;
        while i < 64
            invariant
                0 <= i <= 64,
                cells@.len() == i,
                forall|j: int| 0 <= j < i ==> cells@[j] is None,
            decreases 64 - i,
        {
            cells.push(None);
            i = i + 1;
        }
        let meta = FigureMetadata { number_of_moves: 0, is_enpassant_valid: false };
        cells[wi] = Some(
            Figure {
                figure_type: FigureType::King,
                color: ChessColor::White,
                current_position: white,
                metadata: meta,
            },
        );
        cells[bi] = Some(
            Figure {
                figure_type: FigureType::King,
                color: ChessColor::Black,
                current_position: black,
                metadata: meta,
            },
        );
        let b = Board { cells, white_king: white, black_king: black };
        proof {
            lemma_index_inj(white, black);
            assert forall|s: Square| s.valid() implies #[trigger] at_sq(b@, s) == if s == white {
                Some(figure(FigureType::King, ChessColor::White, white))
            } else if s == black {
                Some(figure(FigureType::King, ChessColor::Black, black))
            } else {
                None::<Figure>
            } by {
                lemma_index_inj(s, white);
                lemma_index_inj(s, black);
            }
            assert(king_of(b@, white, ChessColor::White));
            assert(king_of(b@, black, ChessColor::Black));
            assert forall|s: Square, t: Square|
                s.valid() && t.valid() && #[trigger] king_of(b@, s, ChessColor::White)
                    && #[trigger] king_of(b@, t, ChessColor::White) implies s == t by {
                lemma_index_inj(s, white);
                lemma_index_inj(s, black);
                lemma_index_inj(t, white);
                lemma_index_inj(t, black);
            }
            assert forall|s: Square, t: Square|
                s.valid() && t.valid() && #[trigger] king_of(b@, s, ChessColor::Black)
                    && #[trigger] king_of(b@, t, ChessColor::Black) implies s == t by {
                lemma_index_inj(s, white);
                lemma_index_inj(s, black);
                lemma_index_inj(t, white);
                lemma_index_inj(t, black);
            }
        }
        Some(b)
    }

    /// The standard starting layout: 32 pieces, White on rows 0 and 1.
    pub fn standard() -> (r: Board)
        ensures
            r.wf(),
            is_initial(r@),
    {
        let mut cells: Vec<Option<Figure>> = Vec::new();
        let mut row: u8 = 0;
        while row < 8
            invariant
                0 <= row <= 8,
                cells@.len() == 8 * row,
                forall|s: Square|
                    s.valid() && s.index() < cells@.len() ==> cells@[s.index()] == initial_at(s),
            decreases 8 - row,
        {
            let mut col: u8 = 0;
            while col < 8
                invariant
                    0 <= row < 8,
                    0 <= col <= 8,
                    cells@.len() == 8 * row + col,
                    forall|s: Square|
                        s.valid() && s.index() < cells@.len() ==> cells@[s.index()] == initial_at(
                            s,
                        ),
                decreases 8 - col,
            {
                let p = initial_piece(col, row);
                cells.push(p);
                proof {
                    assert forall|s: Square|
                        s.valid() && s.index() < cells@.len() implies cells@[s.index()]
                        == initial_at(s) by {
                        if s.index() == cells@.len() - 1 {
                            lemma_index_inj(s, Square { col, row });
                        }
                    }
                }
                col = col + 1;
            }
            row = row + 1;
        }
        let b = Board {
            cells,
            white_king: Square { col: 4, row: 0 },
            black_king: Square { col: 4, row: 7 },
        };
        proof {
            assert(is_initial(b@));
            assert forall|i: int| 0 <= i < 64 && #[trigger] b@[i] is Some implies {
                let q = b@[i]->Some_0.current_position;
                q.valid() && q.index() == i
            } by {
                lemma_square_of_index(i);
                assert(at_sq(b@, square_of_index(i)) == initial_at(square_of_index(i)));
            }
            assert(king_of(b@, b.white_king, ChessColor::White));
            assert(king_of(b@, b.black_king, ChessColor::Black));
        }
        b
    }


    /// Sets `piece` down on `s`, recorded at `s`, and returns what stood
    /// there. A king takes the place of the king of its side. Refuses a
    /// square off the board (`InvalidSquare`) and one holding a king
    /// (`IllegalMove`), which would leave a side without its king.
    pub fn place(&mut self, s: Square, piece: Figure) -> (r: Result<Option<Figure>, MoveError>)
        requires
            old(self).wf(),
        ensures
            final(self).wf(),
            !s.valid() ==> r == Err::<Option<Figure>, MoveError>(MoveError::InvalidSquare),
            s.valid() && holds_king(old(self)@, s) ==> r == Err::<Option<Figure>, MoveError>(
                MoveError::IllegalMove,
            ),
            r is Err ==> final(self)@ == old(self)@,
            s.valid() && !holds_king(old(self)@, s) ==> r == Ok::<Option<Figure>, MoveError>(
                at_sq(old(self)@, s),
            ) && final(self)@ == placed(old(self)@, s, piece),
    {
        if !(s.col < 8 && s.row < 8) {
            return Err(MoveError::InvalidSquare);
        }
        let si = index_of(s);
        let prev = self.cells[si];
        if let Some(q) = prev {
            if q.figure_type == FigureType::King {
                return Err(MoveError::IllegalMove);
            }
        }
        let ghost cells0 = self@;
        let put = Figure { current_position: s, ..piece };
        if piece.figure_type == FigureType::King {
            let k = match piece.color {
                ChessColor::White => self.white_king,
                ChessColor::Black => self.black_king,
            };
            let ki = index_of(k);
            self.cells[ki] = None;
            self.cells[si] = Some(put);
            match piece.color {
                ChessColor::White => self.white_king = s,
                ChessColor::Black => self.black_king = s,
            }
            proof {
                assert forall|i: int| 0 <= i < 64 implies #[trigger] self@[i] == placed(
                    cells0,
                    s,
                    piece,
                )[i] by {
                    lemma_square_of_index(i);
                    let t = square_of_index(i);
                    lemma_index_inj(t, k);
                    lemma_index_inj(t, s);
                    assert(at_sq(cells0, t) == cells0[i]);
                    assert(king_of(cells0, k, piece.color));
                    if i != k.index() && cells0[i] is Some && cells0[i]->Some_0.figure_type
                        == FigureType::King && cells0[i]->Some_0.color == piece.color {
                        assert(king_of(cells0, t, piece.color));
                        assert(t == k);
                    }
                }
                assert(self@ =~= placed(cells0, s, piece));
            }
        } else {
            self.cells[si] = Some(put);
            proof {
                assert forall|i: int| 0 <= i < 64 implies #[trigger] self@[i] == placed(
                    cells0,
                    s,
                    piece,
                )[i] by {}
                assert(self@ =~= placed(cells0, s, piece));
            }
        }
        proof {
            let c = piece.color;
            let o = piece.color.opponent();
            assert forall|t: Square| t.valid() implies (king_of(self@, t, o) <==> king_of(
                cells0,
                t,
                o,
            )) && (king_of(self@, t, c) <==> if piece.figure_type == FigureType::King {
                t == s
            } else {
                king_of(cells0, t, c)
            }) by {
                lemma_index_inj(t, s);
            }
            if piece.figure_type != FigureType::King {
                assert(king_of(self@, self.king_cache(c), c));
            }
            assert(king_of(self@, self.king_cache(o), o));
            assert(king_of(self@, self.white_king, ChessColor::White));
            assert(king_of(self@, self.black_king, ChessColor::Black));
        }
        Ok(prev)
    }

    /// Takes the piece off `s` and returns it. Nothing happens, and `None`
    /// comes back, for a square off the board or one holding a king.
    pub fn remove(&mut self, s: Square) -> (r: Option<Figure>)
        requires
            old(self).wf(),
        ensures
            final(self).wf(),
            (!s.valid() || holds_king(old(self)@, s)) ==> r is None && final(self)@ == old(self)@,
            (s.valid() && !holds_king(old(self)@, s)) ==> r == at_sq(old(self)@, s)
                && final(self)@ == old(self)@.update(s.index(), None),
    {
        if !(s.col < 8 && s.row < 8) {
            return None;
        }
        let si = index_of(s);
        let prev = self.cells[si];
        if let Some(q) = prev {
            if q.figure_type == FigureType::King {
                return None;
            }
        }
        let ghost cells0 = self@;
        self.cells[si] = None;
        proof {
            assert forall|t: Square| t.valid() implies (king_of(self@, t, ChessColor::White)
                <==> king_of(cells0, t, ChessColor::White)) && (king_of(self@, t, ChessColor::Black)
                <==> king_of(cells0, t, ChessColor::Black)) by {
                lemma_index_inj(t, s);
            }
            assert(king_of(self@, self.white_king, ChessColor::White));
            assert(king_of(self@, self.black_king, ChessColor::Black));
        }
        prev
    }

    /// Carries the piece on `from` to `to` as it is, and returns what stood
    /// on `to`. Refuses squares off the board (`InvalidSquare`), an empty
    /// `from` (`NoPieceAtSource`), and `to` holding a king (`IllegalMove`),
    /// which would leave a side without its king. `to` equal to `from` is
    /// refused as `IllegalMove` too: the piece would be reported as having
    /// captured itself. No chess rule is checked here.
    pub fn move_piece(&mut self, from: Square, to: Square) -> (r: Result<
        Option<Figure>,
        MoveError,
    >)
        requires
            old(self).wf(),
        ensures
            final(self).wf(),
            r == if !from.valid() || !to.valid() {
                Err::<Option<Figure>, MoveError>(MoveError::InvalidSquare)
            } else if at_sq(old(self)@, from) is None {
                Err(MoveError::NoPieceAtSource)
            } else if from == to || holds_king(old(self)@, to) {
                Err(MoveError::IllegalMove)
            } else {
                Ok(at_sq(old(self)@, to))
            },
            r is Err ==> final(self)@ == old(self)@,
            r is Ok ==> final(self)@ == relocated(old(self)@, from, to),
    {
        if !(from.col < 8 && from.row < 8 && to.col < 8 && to.row < 8) {
            return Err(MoveError::InvalidSquare);
        }
        let fi = index_of(from);
        let ti = index_of(to);
        let p = match self.cells[fi] {
            Some(p) => p,
            None => {
                return Err(MoveError::NoPieceAtSource);
            },
        };
        let prev = self.cells[ti];
        if fi == ti {
            return Err(MoveError::IllegalMove);
        }
        if let Some(q) = prev {
            if q.figure_type == FigureType::King {
                return Err(MoveError::IllegalMove);
            }
        }
        let ghost cells0 = self@;
        self.cells[fi] = None;
        self.cells[ti] = Some(Figure { current_position: to, ..p });
        if p.figure_type == FigureType::King {
            match p.color {
                ChessColor::White => self.white_king = to,
                ChessColor::Black => self.black_king = to,
            }
        }
        proof {
            lemma_index_inj(from, to);
            assert(self@ =~= relocated(cells0, from, to));
            let c = p.color;
            let o = p.color.opponent();
            assert forall|t: Square| t.valid() implies (king_of(self@, t, o) <==> king_of(
                cells0,
                t,
                o,
            )) && (king_of(self@, t, c) <==> if p.figure_type == FigureType::King {
                t == to
            } else {
                king_of(cells0, t, c)
            }) by {
                lemma_index_inj(t, to);
                lemma_index_inj(t, from);
                if p.figure_type == FigureType::King && king_of(cells0, t, c) {
                    assert(king_of(cells0, from, c));
                }
            }
            assert(king_of(self@, self.white_king, ChessColor::White));
            assert(king_of(self@, self.black_king, ChessColor::Black));
            assert forall|i: int| 0 <= i < 64 && #[trigger] self@[i] is Some implies {
                let q = self@[i]->Some_0.current_position;
                q.valid() && q.index() == i
            } by {
                if i != to.index() {
                    assert(cells0[i] is Some);
                }
            }
        }
        Ok(prev)
    }

    /// The occupant of `s`; `None` for an empty square or one off the board.
    pub fn piece_at(&self, s: Square) -> (r: Option<Figure>)
        requires
            self.wf(),
        ensures
            r == at_sq(self@, s),
    {
        if s.col < 8 && s.row < 8 {
            self.cells[index_of(s)]
        } else {
            None
        }
    }


    /// The occupant of column `col`, row `row`; `None` off the board.
    pub fn piece_at_xy(&self, col: i32, row: i32) -> (r: Option<Figure>)
        requires
            self.wf(),
        ensures
            r == at(self@, col as int, row as int),
    {
        if 0 <= col && col < 8 && 0 <= row && row < 8 {
            self.cells[(row * 8 + col) as usize]
        } else {
            None
        }
    }

    /// Whether `s` holds a piece of `color`.
    pub fn is_occupied_by(&self, s: Square, color: ChessColor) -> (r: bool)
        requires
            self.wf(),
        ensures
            r == (at_sq(self@, s) is Some && at_sq(self@, s)->Some_0.color == color),
    {
        match self.piece_at(s) {
            Some(p) => p.color == color,
            None => false,
        }
    }

    /// The square of the king of `color`.
    pub fn king_square(&self, color: ChessColor) -> (r: Square)
        requires
            self.wf(),
        ensures
            r.valid(),
            king_of(self@, r, color),
            forall|s: Square| s.valid() && king_of(self@, s, color) ==> s == r,
    {
        match color {
            ChessColor::White => self.white_king,
            ChessColor::Black => self.black_king,
        }
    }
    /// A scratch copy of the board that shares nothing with it.
    pub fn copy(&self) -> (r: Board)
        requires
            self.wf(),
        ensures
            r.wf(),
            r@ == self@,
            forall|c: ChessColor| r.king_cache(c) == self.king_cache(c),
    {
        let mut cells: Vec<Option<Figure>> = Vec::new();
        let mut i: usize = 0;
        while i < 64
            invariant
                self.cells@.len() == 64,
                0 <= i <= 64,
                cells@ == self.cells@.subrange(0, i as int),
            decreases 64 - i,
        {
            cells.push(self.cells[i]);
            i = i + 1;
        }
        assert(cells@ =~= self.cells@);
        Board { cells, white_king: self.white_king, black_king: self.black_king }
    }

    /// Applies the move `from` -> `to` with all its effects: capture
    /// (en passant included), promotion to a queen on the far rank, the
    /// mover's move count and en-passant flag, and the clearing of every
    /// other en-passant flag. Returns the piece taken off the board, if any.
    pub fn execute(&mut self, from: Square, to: Square) -> (captured: Option<Figure>)
        requires
            old(self).wf(),
            executable(old(self)@, from, to),
        ensures
            final(self).wf(),
            final(self)@ == after_move(old(self)@, from, to),
            captured == at_sq(old(self)@, captured_square(old(self)@, from, to)),
    {
        let ghost cells0 = self@;
        let fi = index_of(from);
        let ti = index_of(to);
        let p = self.cells[fi].unwrap();
        let ep = p.figure_type == FigureType::Pawn && from.col != to.col && self.cells[ti].is_none();
        let cap = if ep {
            Square { col: to.col, row: from.row }
        } else {
            to
        };
        let ci = index_of(cap);
        let captured = self.cells[ci];
        let mut i: usize = 0;
        while i < 64
            invariant
                self.cells@.len() == 64,
                cells0.len() == 64,
                0 <= i <= 64,
                forall|j: int| 0 <= j < i ==> self.cells@[j] == without_flag(cells0[j]),
                forall|j: int| i <= j < 64 ==> self.cells@[j] == cells0[j],
                self.white_king == old(self).white_king,
                self.black_king == old(self).black_king,
            decreases 64 - i,
        {
            if let Some(q) = self.cells[i] {
                let meta = FigureMetadata { is_enpassant_valid: false, ..q.metadata };
                self.cells[i] = Some(Figure { metadata: meta, ..q });
            }
            i = i + 1;
        }
        self.cells[fi] = None;
        self.cells[ci] = None;
        let double = p.figure_type == FigureType::Pawn && from.col == to.col && (to.row
            == from.row + 2 || from.row == to.row + 2);
        let last = match p.color {
            ChessColor::White => 7,
            ChessColor::Black => 0,
        };
        let kind = if p.figure_type == FigureType::Pawn && to.row == last {
            FigureType::Queen
        } else {
            p.figure_type
        };
        let count = if p.metadata.number_of_moves < u16::MAX {
            p.metadata.number_of_moves + 1
        } else {
            p.metadata.number_of_moves
        };
        let moved = Figure {
            figure_type: kind,
            color: p.color,
            current_position: to,
            metadata: FigureMetadata { number_of_moves: count, is_enpassant_valid: double },
        };
        self.cells[ti] = Some(moved);
        if p.figure_type == FigureType::King {
            match p.color {
                ChessColor::White => self.white_king = to,
                ChessColor::Black => self.black_king = to,
            }
        }
        proof {
            let after = after_move(cells0, from, to);
            assert(moved == moved_figure(p, from, to));
            assert(cap == captured_square(cells0, from, to));
            assert(self.cells@ =~= after);
            lemma_after_move_ok(cells0, from, to, old(self).white_king, old(self).black_king);
        }
        captured
    }
}

/// The board after an executable move is still a position in play, and each
/// king stands where it stood unless it was the piece that moved.
pub proof fn lemma_after_move_ok(
    cells: Seq<Option<Figure>>,
    from: Square,
    to: Square,
    wk: Square,
    bk: Square,
)
    requires
        board_ok(cells),
        executable(cells, from, to),
        wk.valid(),
        bk.valid(),
        king_of(cells, wk, ChessColor::White),
        king_of(cells, bk, ChessColor::Black),
    ensures
        board_ok(after_move(cells, from, to)),
        ({
            let p = at_sq(cells, from)->Some_0;
            let after = after_move(cells, from, to);
            &&& king_of(
                after,
                if p.figure_type == FigureType::King && p.color == ChessColor::White {
                    to
                } else {
                    wk
                },
                ChessColor::White,
            )
            &&& king_of(
                after,
                if p.figure_type == FigureType::King && p.color == ChessColor::Black {
                    to
                } else {
                    bk
                },
                ChessColor::Black,
            )
        }),
{
    let after = after_move(cells, from, to);
    let p = at_sq(cells, from)->Some_0;
    let cap = captured_square(cells, from, to);
    assert forall|s: Square| s.valid() implies (king_of(after, s, p.color) <==> (if p.figure_type
        == FigureType::King {
        s == to
    } else {
        king_of(cells, s, p.color)
    })) && (king_of(after, s, p.color.opponent()) <==> king_of(
        cells,
        s,
        p.color.opponent(),
    )) by {
        lemma_index_inj(s, to);
        lemma_index_inj(s, from);
        lemma_index_inj(s, cap);
        if p.figure_type == FigureType::King && s != to {
            if king_of(cells, s, p.color) {
                lemma_index_inj(from, from);
                assert(king_of(cells, from, p.color));
                assert(s == from);
            }
        }
    }
    assert forall|i: int| 0 <= i < 64 && #[trigger] after[i] is Some implies {
        let q = after[i]->Some_0.current_position;
        q.valid() && q.index() == i
    } by {
        if i != to.index() {
            assert(cells[i] is Some);
        }
    }
    let c = p.color;
    let o = p.color.opponent();
    let kc = if c == ChessColor::White { wk } else { bk };
    let ko = if c == ChessColor::White { bk } else { wk };
    assert(king_of(cells, kc, c));
    assert(king_of(cells, ko, o));
    if p.figure_type == FigureType::King {
        assert(king_of(after, to, c));
    } else {
        assert(king_of(after, kc, c));
    }
    assert(king_of(after, ko, o));
}

} // verus!
