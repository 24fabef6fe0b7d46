use vstd::prelude::*;
use crate::board::{
    Piece, GameEngine, BOARD_SIZE, BOARD_WIDTH, x_of, y_of, idx, in_bounds, board_wf,
};

verus! {

/// One move or edit that can be applied to a board.
#[derive(Clone, Copy, Debug, PartialEq, Eq, Structural)]
pub enum Action {
    /// Place `value` at `index`.
    Put { index: u8, value: Piece },
    /// Slide the piece at `index` along `(dx, dy)`.
    Flick { index: u8, dx: i8, dy: i8 },
    /// Clear the cell at `index` (an editing primitive, not a game move).
    Pick { index: u8 },
}

/// Why an operation was refused.
#[derive(Clone, Copy, Debug, PartialEq, Eq, Structural)]
pub enum EngineError {
    /// A cell index of 25 or more.
    OutOfBounds,
    /// A flick from a cell with no piece.
    EmptyOrigin,
    /// A flick with direction `(0, 0)`.
    ZeroDirection,
    /// The search found no move for the player.
    NoLegalAction,
}

/// How many more steps a cursor at `(cx, cy)` can take along `(dx, dy)`
/// before leaving the board: it shrinks with every step that stays on it.
pub open spec fn walk_measure(cx: int, cy: int, dx: int, dy: int) -> int {
    if dx > 0 {
        5 - cx
    } else if dx < 0 {
        cx + 1
    } else if dy > 0 {
        5 - cy
    } else {
        cy + 1
    }
}

/// The board with cells `i` and `j` exchanged.
pub open spec fn swap_cells(b: Seq<Piece>, i: int, j: int) -> Seq<Piece> {
    b.update(i, b[j]).update(j, b[i])
}

/// The cursor walk of a flick: from `(cx, cy)`, step along `(dx, dy)` while
/// the next cell is on the board; whenever that next cell is empty, swap it
/// with the cursor's cell; advance the cursor either way.
pub open spec fn flick_walk(b: Seq<Piece>, cx: int, cy: int, dx: int, dy: int) -> Seq<Piece>
    decreases walk_measure(cx, cy, dx, dy),
{
    if (dx == 0 && dy == 0) || !in_bounds(cx, cy) || !in_bounds(cx + dx, cy + dy) {
        b
    } else {
        let nx = cx + dx;
        let ny = cy + dy;
        let b2 = if b[idx(nx, ny)] == Piece::Empty {
            swap_cells(b, idx(cx, cy), idx(nx, ny))
        } else {
            b
        };
        flick_walk(b2, nx, ny, dx, dy)
    }
}

/// The board after `a`, or the error that refuses it.
pub open spec fn apply_spec(b: Seq<Piece>, a: Action) -> Result<Seq<Piece>, EngineError> {
    match a {
        Action::Put { index, value } => {
            if index >= 25 {
                Err(EngineError::OutOfBounds)
            } else {
                Ok(b.update(index as int, value))
            }
        },
        Action::Flick { index, dx, dy } => {
            if index >= 25 {
                Err(EngineError::OutOfBounds)
            } else if b[index as int] == Piece::Empty {
                Err(EngineError::EmptyOrigin)
            } else if dx == 0 && dy == 0 {
                Err(EngineError::ZeroDirection)
            } else {
                Ok(flick_walk(b, x_of(index as int), y_of(index as int), dx as int, dy as int))
            }
        },
        Action::Pick { index } => {
            if index >= 25 {
                Err(EngineError::OutOfBounds)
            } else {
                Ok(b.update(index as int, Piece::Empty))
            }
        },
    }
}

proof fn lemma_flick_walk_len(b: Seq<Piece>, cx: int, cy: int, dx: int, dy: int)
    requires
        board_wf(b),
    ensures
        flick_walk(b, cx, cy, dx, dy).len() == b.len(),
    decreases walk_measure(cx, cy, dx, dy),
{
    if (dx == 0 && dy == 0) || !in_bounds(cx, cy) || !in_bounds(cx + dx, cy + dy) {
    } else {
        let nx = cx + dx;
        let ny = cy + dy;
        let b2 = if b[idx(nx, ny)] == Piece::Empty {
            swap_cells(b, idx(cx, cy), idx(nx, ny))
        } else {
            b
        };
        lemma_flick_walk_len(b2, nx, ny, dx, dy);
    }
}

/// A well-formed board stays well-formed under any accepted action.
pub proof fn lemma_apply_keeps_size(b: Seq<Piece>, a: Action)
    requires
        board_wf(b),
    ensures
        apply_spec(b, a) is Ok ==> board_wf(apply_spec(b, a)->Ok_0),
{
    if let Action::Flick { index, dx, dy } = a {
        lemma_flick_walk_len(b, x_of(index as int), y_of(index as int), dx as int, dy as int);
    }
}

/// A flick walk leaves alone every cell behind its cursor.
proof fn lemma_walk_keeps_behind(
    b: Seq<Piece>,
    cx: int,
    cy: int,
    dx: int,
    dy: int,
    qx: int,
    qy: int,
)
    requires
        board_wf(b),
        in_bounds(qx, qy),
        walk_measure(qx, qy, dx, dy) > walk_measure(cx, cy, dx, dy),
    ensures
        flick_walk(b, cx, cy, dx, dy)[idx(qx, qy)] == b[idx(qx, qy)],
    decreases walk_measure(cx, cy, dx, dy),
{
    if (dx == 0 && dy == 0) || !in_bounds(cx, cy) || !in_bounds(cx + dx, cy + dy) {
    } else {
        let nx = cx + dx;
        let ny = cy + dy;
        let b2 = if b[idx(nx, ny)] == Piece::Empty {
            swap_cells(b, idx(cx, cy), idx(nx, ny))
        } else {
            b
        };
        assert(idx(qx, qy) != idx(cx, cy));
        assert(idx(qx, qy) != idx(nx, ny));
        lemma_walk_keeps_behind(b2, nx, ny, dx, dy, qx, qy);
    }
}

/// A flick whose walk from an occupied cell meets an empty cell before the
/// edge changes the board.
pub proof fn lemma_walk_changes(b: Seq<Piece>, cx: int, cy: int, dx: int, dy: int)
    requires
        board_wf(b),
        in_bounds(cx, cy),
        b[idx(cx, cy)] != Piece::Empty,
        crate::movegen::ray_has_empty(b, cx, cy, dx, dy),
    ensures
        flick_walk(b, cx, cy, dx, dy) != b,
    decreases walk_measure(cx, cy, dx, dy),
{
    let nx = cx + dx;
    let ny = cy + dy;
    if b[idx(nx, ny)] == Piece::Empty {
        let b2 = swap_cells(b, idx(cx, cy), idx(nx, ny));
        assert(b2[idx(cx, cy)] == Piece::Empty);
        lemma_walk_keeps_behind(b2, nx, ny, dx, dy, cx, cy);
        assert(flick_walk(b, cx, cy, dx, dy)[idx(cx, cy)] == Piece::Empty);
    } else {
        lemma_walk_changes(b, nx, ny, dx, dy);
    }
}

/// The applier's refusals: a flick with direction `(0, 0)` from an occupied
/// cell is refused for its direction, a flick from an empty cell for its
/// origin, and any action on an index of 25 or more for its bounds.
pub proof fn lemma_apply_refusals(b: Seq<Piece>, a: Action)
    requires
        board_wf(b),
    ensures
        a matches Action::Flick { index, dx, dy } && index < 25 && b[index as int]
            != Piece::Empty && dx == 0 && dy == 0 ==> apply_spec(b, a) == Err::<
            Seq<Piece>,
            EngineError,
        >(EngineError::ZeroDirection),
        a matches Action::Flick { index, .. } && index < 25 && b[index as int] == Piece::Empty
            ==> apply_spec(b, a) == Err::<Seq<Piece>, EngineError>(EngineError::EmptyOrigin),
        index_of(a) >= 25 ==> apply_spec(b, a) == Err::<Seq<Piece>, EngineError>(
            EngineError::OutOfBounds,
        ),
{
}

/// The cell index an action names.
pub open spec fn index_of(a: Action) -> u8 {
    match a {
        Action::Put { index, .. } => index,
        Action::Flick { index, .. } => index,
        Action::Pick { index } => index,
    }
}

impl GameEngine {
    /// Runs the cursor walk of a flick from `index` along `(dx, dy)`.
    fn flick(&mut self, index: usize, dx: i8, dy: i8)
        requires
            old(self).wf(),
            index < 25,
            !(dx == 0 && dy == 0),
        ensures
            final(self).wf(),
            final(self)@ == flick_walk(
                old(self)@,
                x_of(index as int),
                y_of(index as int),
                dx as int,
                dy as int,
            ),
    {
        let mut cx: isize = (index % BOARD_WIDTH) as isize;
        let mut cy: isize = (index / BOARD_WIDTH) as isize;
        assert(cx == x_of(index as int) && cy == y_of(index as int));
        loop
            invariant
                self.wf(),
                in_bounds(cx as int, cy as int),
                !(dx == 0 && dy == 0),
                flick_walk(self@, cx as int, cy as int, dx as int, dy as int) == flick_walk(
                    old(self)@,
                    x_of(index as int),
                    y_of(index as int),
                    dx as int,
                    dy as int,
                ),
            ensures
                self.wf(),
                self@ == flick_walk(
                    old(self)@,
                    x_of(index as int),
                    y_of(index as int),
                    dx as int,
                    dy as int,
                ),
            decreases walk_measure(cx as int, cy as int, dx as int, dy as int),
        {
            let nx: isize = cx + dx as isize;
            let ny: isize = cy + dy as isize;
            if nx < 0 || nx >= 5 || ny < 0 || ny >= 5 {
                assert(flick_walk(self@, cx as int, cy as int, dx as int, dy as int) == self@);
                break;
            }
            let ghost prev = self@;
            let current: usize = (cy * 5 + cx) as usize;
            let next: usize = (ny * 5 + nx) as usize;
            if self.cell(next) == Piece::Empty {
                let moved = self.cell(current);
                self.set_cell(current, Piece::Empty);
                self.set_cell(next, moved);
                assert(self@ =~= swap_cells(prev, current as int, next as int));
            }
            cx = nx;
            cy = ny;
        }
    }

    /// Applies `action` to the board, or leaves the board as it was and
    /// reports why the action is refused.
    pub fn apply_action(&mut self, action: &Action) -> (r: Result<(), EngineError>)
        requires
            old(self).wf(),
        ensures
            final(self).wf(),
            match apply_spec(old(self)@, *action) {
                Ok(b) => r == Ok::<(), EngineError>(()) && final(self)@ == b,
                Err(e) => r == Err::<(), EngineError>(e) && final(self)@ == old(self)@,
            },
    {
        proof {
            lemma_apply_keeps_size(self@, *action);
        }
        match *action {
            Action::Put { index, value } => {
                if index as usize >= BOARD_SIZE {
                    return Err(EngineError::OutOfBounds);
                }
                self.set_cell(index as usize, value);
            },
            Action::Flick { index, dx, dy } => {
                if index as usize >= BOARD_SIZE {
                    return Err(EngineError::OutOfBounds);
                }
                if self.cell(index as usize) == Piece::Empty {
                    return Err(EngineError::EmptyOrigin);
                }
                if dx == 0 && dy == 0 {
                    return Err(EngineError::ZeroDirection);
                }
                self.flick(index as usize, dx, dy);
            },
            Action::Pick { index } => {
                if index as usize >= BOARD_SIZE {
                    return Err(EngineError::OutOfBounds);
                }
                self.set_cell(index as usize, Piece::Empty);
            },
        }
        Ok(())
    }
}

} // verus!
