use vstd::prelude::*;
use crate::board::{after_move, at_sq, captured_square, promotes, Board, MoveError};
use crate::figures::{ChessColor, Figure, FigureType, Square};
use crate::legality::{legal, outcome, GameOutcome};

verus! {

/// Whose turn it is and how many half-moves have been played.
#[derive(Debug, Clone, Copy, PartialEq, Eq, Structural)]
pub struct TurnState {
    pub active_color: ChessColor,
    pub ply_count: u64,
}

/// What a successful move did, for the host to show.
#[derive(Debug, Clone, Copy, PartialEq, Eq, Structural)]
pub struct MoveOutcome {
    /// The piece as it stood on `from` before moving.
    pub moved_piece: Figure,
    pub from: Square,
    pub to: Square,
    /// The piece taken off the board, if any.
    pub captured_piece: Option<Figure>,
    /// The kind a pawn became on the far rank.
    pub promotion: Option<FigureType>,
    /// The status of the side now to move.
    pub outcome: GameOutcome,
}

/// The abstract state of a match.
pub ghost struct GameView {
    pub cells: Seq<Option<Figure>>,
    pub active: ChessColor,
    pub ply: nat,
    pub status: GameOutcome,
    pub pending: Option<Square>,
}

/// White moves on even plies, Black on odd ones.
pub open spec fn color_for_ply(n: nat) -> ChessColor {
    if n % 2 == 0 {
        ChessColor::White
    } else {
        ChessColor::Black
    }
}

/// The error `apply` gives for the request `from` -> `to`, or `None` when
/// the move is played.
pub open spec fn rejection(g: GameView, from: Square, to: Square) -> Option<MoveError> {
    if !from.valid() || !to.valid() {
        Some(MoveError::InvalidSquare)
    } else if at_sq(g.cells, from) is None {
        Some(MoveError::NoPieceAtSource)
    } else if g.status.terminal() || at_sq(g.cells, from)->Some_0.color != g.active || !legal(
        g.cells,
        from,
        to,
    ) {
        Some(MoveError::IllegalMove)
    } else {
        None
    }
}

/// The state after the accepted move `from` -> `to`.
pub open spec fn played(g: GameView, from: Square, to: Square) -> GameView {
    let cells = after_move(g.cells, from, to);
    GameView {
        cells,
        active: g.active.opponent(),
        ply: g.ply + 1,
        status: outcome(cells, g.active.opponent()),
        pending: None,
    }
}

/// The report of the accepted move `from` -> `to`.
pub open spec fn report(g: GameView, from: Square, to: Square) -> MoveOutcome {
    let p = at_sq(g.cells, from)->Some_0;
    MoveOutcome {
        moved_piece: p,
        from,
        to,
        captured_piece: at_sq(g.cells, captured_square(g.cells, from, to)),
        promotion: if promotes(p, to) {
            Some(FigureType::Queen)
        } else {
            None
        },
        outcome: played(g, from, to).status,
    }
}

/// One match: the board, the turn, the status of the side to move, and
/// the square picked as the source of the next move, if any.
pub struct Game {
    board: Board,
    turn: TurnState,
    status: GameOutcome,
    pending: Option<Square>,
}

impl View for Game {
    type V = GameView;

    closed spec fn view(&self) -> GameView {
        GameView {
            cells: self.board@,
            active: self.turn.active_color,
            ply: self.turn.ply_count as nat,
            status: self.status,
            pending: self.pending,
        }
    }
}

/// A picked source square holds a piece of the side to move.
pub open spec fn pending_ok(g: GameView) -> bool {
    match g.pending {
        Some(s) => s.valid() && at_sq(g.cells, s) is Some && at_sq(g.cells, s)->Some_0.color
            == g.active,
        None => true,
    }
}

/// The invariant of a match: the side to move follows the ply count, the
/// stored status is the status of the side to move, and a picked source
/// holds one of its pieces.
pub open spec fn game_ok(g: GameView) -> bool {
    &&& g.active == color_for_ply(g.ply)
    &&& g.status == outcome(g.cells, g.active)
    &&& pending_ok(g)
}

impl Game {
    pub closed spec fn wf(&self) -> bool {
        &&& self.board.wf()
        &&& game_ok(self@)
    }

    pub proof fn lemma_wf(&self)
        requires
            self.wf(),
        ensures
            game_ok(self@),
            crate::board::board_ok(self@.cells),
    {
        self.board.lemma_wf();
    }

    /// A match in the standard starting layout with White to move.
    pub fn new_game() -> (r: Game)
        ensures
            r.wf(),
            crate::board::is_initial(r@.cells),
            r@.active == ChessColor::White,
            r@.ply == 0,
            r@.pending is None,
    {
        let board = Board::standard();
        let status = board.game_outcome(ChessColor::White);
        Game {
            board,
            turn: TurnState { active_color: ChessColor::White, ply_count: 0 },
            status,
            pending: None,
        }
    }

    /// A match from the position on `board` with `active_color` to move
    /// after `ply_count` half-moves; `None` when `active_color` is not the
    /// side that the ply count gives.
    pub fn from_position(board: Board, active_color: ChessColor, ply_count: u64) -> (r: Option<
        Game,
    >)
        requires
            board.wf(),
        ensures
            r is Some <==> active_color == color_for_ply(ply_count as nat),
            r is Some ==> ({
                let g = r->Some_0;
                &&& g.wf()
                &&& g@.cells == board@
                &&& g@.active == active_color
                &&& g@.ply == ply_count
                &&& g@.pending is None
            }),
    {
        let expected = if ply_count % 2 == 0 {
            ChessColor::White
        } else {
            ChessColor::Black
        };
        if expected != active_color {
            return None;
        }
        let status = board.game_outcome(active_color);
        Some(
            Game {
                board,
                turn: TurnState { active_color, ply_count },
                status,
                pending: None,
            },
        )
    }

    /// Plays `from` -> `to` for the side to move. Refuses off-board squares
    /// (`InvalidSquare`), an empty source (`NoPieceAtSource`), and a move
    /// that is not legal, belongs to the other side, or comes after the
    /// match has ended (`IllegalMove`); a refusal changes nothing.
    pub fn apply(&mut self, from: Square, to: Square) -> (r: Result<MoveOutcome, MoveError>)
        requires
            old(self).wf(),
            old(self)@.ply < u64::MAX,
        ensures
            final(self).wf(),
            match rejection(old(self)@, from, to) {
                Some(e) => r == Err::<MoveOutcome, MoveError>(e) && final(self)@ == old(self)@,
                None => r == Ok::<MoveOutcome, MoveError>(report(old(self)@, from, to))
                    && final(self)@ == played(old(self)@, from, to),
            },
    {
        if !(from.col < 8 && from.row < 8 && to.col < 8 && to.row < 8) {
            return Err(MoveError::InvalidSquare);
        }
        let p = match self.board.piece_at(from) {
            Some(p) => p,
            None => {
                return Err(MoveError::NoPieceAtSource);
            },
        };
        let ended = match self.status {
            GameOutcome::Checkmate(_) => true,
            GameOutcome::Stalemate => true,
            _ => false,
        };
        if ended || p.color != self.turn.active_color || !self.board.is_legal(from, to) {
            return Err(MoveError::IllegalMove);
        }
        proof {
            self.board.lemma_wf();
            crate::legality::lemma_legal_executable(self.board@, from, to);
        }
        let captured = self.board.execute(from, to);
        let next = self.turn.active_color.other();
        let status = self.board.game_outcome(next);
        self.turn = TurnState { active_color: next, ply_count: self.turn.ply_count + 1 };
        self.status = status;
        self.pending = None;
        let last: u8 = match p.color {
            ChessColor::White => 7,
            ChessColor::Black => 0,
        };
        let promotion = if p.figure_type == FigureType::Pawn && to.row == last {
            Some(FigureType::Queen)
        } else {
            None
        };
        Ok(
            MoveOutcome {
                moved_piece: p,
                from,
                to,
                captured_piece: captured,
                promotion,
                outcome: status,
            },
        )
    }

    /// Takes one square pick from the host. With no source picked, a square
    /// holding a piece of the side to move becomes the source and any other
    /// pick is ignored; with a source picked, the pick is the destination:
    /// the move is played (or refused) and the source is cleared either way.
    pub fn select_square(&mut self, s: Square) -> (r: Option<Result<MoveOutcome, MoveError>>)
        requires
            old(self).wf(),
            old(self)@.ply < u64::MAX,
        ensures
            final(self).wf(),
            match old(self)@.pending {
                None => {
                    &&& r is None
                    &&& final(self)@.cells == old(self)@.cells
                    &&& final(self)@.active == old(self)@.active
                    &&& final(self)@.ply == old(self)@.ply
                    &&& final(self)@.status == old(self)@.status
                    &&& final(self)@.pending == if s.valid() && at_sq(old(self)@.cells, s) is Some
                        && at_sq(old(self)@.cells, s)->Some_0.color == old(self)@.active {
                        Some(s)
                    } else {
                        None::<Square>
                    }
                },
                Some(from) => {
                    let g = GameView { pending: None, ..old(self)@ };
                    match rejection(g, from, s) {
                        Some(e) => r == Some(Err::<MoveOutcome, MoveError>(e)) && final(self)@
                            == g,
                        None => r == Some(Ok::<MoveOutcome, MoveError>(report(g, from, s)))
                            && final(self)@ == played(g, from, s),
                    }
                },
            },
    {
        match self.pending {
            None => {
                if self.board.is_occupied_by(s, self.turn.active_color) {
                    self.pending = Some(s);
                }
                None
            },
            Some(from) => {
                self.pending = None;
                Some(self.apply(from, s))
            },
        }
    }

    /// Forgets a picked source square.
    pub fn reset_selection(&mut self)
        requires
            old(self).wf(),
        ensures
            final(self).wf(),
            final(self)@ == (GameView { pending: None, ..old(self)@ }),
    {
        self.pending = None;
    }

    /// The squares the piece on `from` may go to now: its legal moves when
    /// it belongs to the side to move and the match is still on, else none.
    pub fn legal_moves(&self, from: Square) -> (r: Vec<Square>)
        requires
            self.wf(),
        ensures
            forall|t: Square|
                r@.contains(t) <==> (!self@.status.terminal() && at_sq(self@.cells, from) is Some
                    && at_sq(self@.cells, from)->Some_0.color == self@.active && legal(
                    self@.cells,
                    from,
                    t,
                )),
            r@.no_duplicates(),
    {
        let ended = match self.status {
            GameOutcome::Checkmate(_) => true,
            GameOutcome::Stalemate => true,
            _ => false,
        };
        if ended || !self.board.is_occupied_by(from, self.turn.active_color) {
            let r: Vec<Square> = Vec::new();
            assert forall|t: Square| !r@.contains(t) by {}
            return r;
        }
        self.board.legal_moves(from)
    }

    /// The board of the match.
    pub fn board(&self) -> (r: &Board)
        requires
            self.wf(),
        ensures
            r.wf(),
            r@ == self@.cells,
    {
        &self.board
    }

    /// Whose turn it is and the number of half-moves played.
    pub fn turn_state(&self) -> (r: TurnState)
        ensures
            r.active_color == self@.active,
            r.ply_count == self@.ply,
    {
        self.turn
    }

    /// The side to move.
    pub fn active_color(&self) -> (r: ChessColor)
        ensures
            r == self@.active,
    {
        self.turn.active_color
    }

    /// The status of the side to move.
    pub fn outcome(&self) -> (r: GameOutcome)
        ensures
            r == self@.status,
    {
        self.status
    }

    /// The picked source square, if any.
    pub fn selection(&self) -> (r: Option<Square>)
        ensures
            r == self@.pending,
    {
        self.pending
    }
}

} // verus!
