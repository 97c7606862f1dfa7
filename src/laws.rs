use vstd::prelude::*;
use crate::board::{after_move, at_sq, board_ok, captured_square, king_of, without_flag};
use crate::figures::{ChessColor, Figure, FigureType, Square};
use crate::game::{color_for_ply, game_ok, played, rejection, report, GameView, MoveOutcome};
use crate::legality::{attacked, has_legal_move, legal};
use crate::movegen::{diagonal, friendly, path_clear, pseudo_legal, straight};

verus! {

/// The state after playing `moves` in order from `g`, or `None` when one of
/// them is refused.
pub open spec fn play_all(g: GameView, moves: Seq<(Square, Square)>) -> Option<GameView>
    decreases moves.len(),
{
    if moves.len() == 0 {
        Some(g)
    } else {
        match play_all(g, moves.drop_last()) {
            Some(h) => {
                let (from, to) = moves.last();
                if rejection(h, from, to) is None {
                    Some(played(h, from, to))
                } else {
                    None
                }
            },
            None => None,
        }
    }
}

/// After any sequence of accepted moves from a match with White to move
/// at ply 0, the number of plies is the number of moves, and the side to
/// move is White after an even number of them and Black after an odd one.
pub proof fn turn_alternation(g: GameView, moves: Seq<(Square, Square)>)
    requires
        g.ply == 0,
        g.active == ChessColor::White,
        play_all(g, moves) is Some,
    ensures
        play_all(g, moves)->Some_0.ply == moves.len(),
        play_all(g, moves)->Some_0.active == color_for_ply(moves.len()),
    decreases moves.len(),
{
    if moves.len() > 0 {
        turn_alternation(g, moves.drop_last());
    }
}

/// A legal move never leaves the mover's own king attacked.
pub proof fn no_self_check(cells: Seq<Option<Figure>>, from: Square, to: Square)
    requires
        legal(cells, from, to),
    ensures
        ({
            let color = at_sq(cells, from)->Some_0.color;
            let after = after_move(cells, from, to);
            forall|k: Square|
                k.valid() && #[trigger] king_of(after, k, color) ==> !attacked(
                    after,
                    k,
                    color.opponent(),
                )
        }),
{
}

/// A square holding a piece of the mover's side is never a destination,
/// pseudo-legal or legal.
pub proof fn capture_exclusivity(cells: Seq<Option<Figure>>, from: Square, to: Square)
    requires
        at_sq(cells, from) is Some,
        friendly(cells, at_sq(cells, from)->Some_0, to),
    ensures
        !pseudo_legal(cells, from, to),
        !legal(cells, from, to),
{
}

pub open spec fn slides(p: Figure, from: Square, to: Square) -> bool {
    match p.figure_type {
        FigureType::Fort => straight(from, to),
        FigureType::Bishop => diagonal(from, to),
        FigureType::Queen => straight(from, to) || diagonal(from, to),
        _ => false,
    }
}

/// A fort, bishop or queen reaches no square past the first occupied one
/// on its ray, and reaches that first occupied square exactly when it
/// holds a piece of the other side.
pub proof fn ray_blocking(cells: Seq<Option<Figure>>, from: Square, to: Square)
    requires
        from.valid(),
        to.valid(),
        at_sq(cells, from) is Some,
        slides(at_sq(cells, from)->Some_0, from, to),
    ensures
        pseudo_legal(cells, from, to) ==> path_clear(cells, from, to),
        path_clear(cells, from, to) && at_sq(cells, to) is Some ==> (pseudo_legal(cells, from, to)
            <==> at_sq(cells, to)->Some_0.color != at_sq(cells, from)->Some_0.color),
{
}

/// Once the side to move is checkmated (or stalemated), every move request
/// is refused, so no sequence of requests gets past that point; and a
/// checkmated side has no legal move at all.
pub proof fn checkmate_terminal(g: GameView, from: Square, to: Square, moves: Seq<(Square, Square)>)
    requires
        game_ok(g),
        g.status.terminal(),
    ensures
        rejection(g, from, to) is Some,
        moves.len() > 0 ==> play_all(g, moves) is None,
        g.status is Checkmate ==> !has_legal_move(g.cells, g.active),
        at_sq(g.cells, from) is Some && at_sq(g.cells, from)->Some_0.color == g.active
            && g.status is Checkmate ==> !legal(g.cells, from, to),
    decreases moves.len(),
{
    if moves.len() > 1 {
        checkmate_terminal(g, from, to, moves.drop_last());
    } else if moves.len() == 1 {
        assert(moves.drop_last().len() == 0);
        let (f, t) = moves.last();
        checkmate_terminal(g, f, t, moves.drop_last());
    }
}

/// Undoes a reported move on `cells`: empties the destination, puts the
/// captured piece back on the square it stood on, and the moved piece back
/// on its source.
pub open spec fn revert(cells: Seq<Option<Figure>>, m: MoveOutcome) -> Seq<Option<Figure>> {
    let emptied = cells.update(m.to.index(), None);
    let restored = match m.captured_piece {
        Some(q) => emptied.update(q.current_position.index(), Some(q)),
        None => emptied,
    };
    restored.update(m.from.index(), Some(m.moved_piece))
}

/// No piece but those on `from` and on the square the move `from` -> `to`
/// clears carries an en-passant flag.
pub open spec fn flags_only_at_move(cells: Seq<Option<Figure>>, from: Square, to: Square) -> bool {
    forall|i: int|
        0 <= i < 64 && i != from.index() && i != captured_square(cells, from, to).index()
            && #[trigger] cells[i] is Some ==> !cells[i]->Some_0.metadata.is_enpassant_valid
}

proof fn lemma_revert_at(g: GameView, from: Square, to: Square, i: int)
    requires
        board_ok(g.cells),
        rejection(g, from, to) is None,
        flags_only_at_move(g.cells, from, to),
        0 <= i < 64,
    ensures
        revert(played(g, from, to).cells, report(g, from, to))[i] == g.cells[i],
{
    let cells = g.cells;
    let cap = captured_square(cells, from, to);
    let after = after_move(cells, from, to);
    let m = report(g, from, to);
    let emptied = after.update(to.index(), None);
    crate::legality::lemma_legal_executable(cells, from, to);
    if i == from.index() {
    } else if m.captured_piece is Some {
        assert(m.captured_piece->Some_0.current_position == cap);
        if i == cap.index() {
        } else if i == to.index() {
            assert(cells[i] is None);
        } else {
            assert(after[i] == without_flag(cells[i]));
        }
    } else {
        assert(cap == to);
        if i == to.index() {
        } else {
            assert(after[i] == without_flag(cells[i]));
        }
    }
}

/// Reverting an accepted move with what its report holds gives back the
/// board as it was, square for square, when no piece but the mover and
/// the captured one carried an en-passant flag (playing a move clears
/// those flags, and the report does not record them).
pub proof fn round_trip(g: GameView, from: Square, to: Square)
    requires
        game_ok(g),
        board_ok(g.cells),
        rejection(g, from, to) is None,
        flags_only_at_move(g.cells, from, to),
    ensures
        revert(played(g, from, to).cells, report(g, from, to)) == g.cells,
{
    let r = revert(played(g, from, to).cells, report(g, from, to));
    assert forall|i: int| 0 <= i < 64 implies #[trigger] r[i] == g.cells[i] by {
        lemma_revert_at(g, from, to, i);
    }
    assert(r =~= g.cells);
}

} // verus!
