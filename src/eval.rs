use vstd::prelude::*;
use crate::board::{
    Piece, GameEngine, BOARD_SIZE, BOARD_WIDTH, x_of, y_of, idx, in_bounds, opponent_of,
    board_wf, get_opponent,
};

verus! {

/// Score of a line of three of one's own pieces.
pub const WIN_SCORE: i32 = 1_000_000;

/// Score of a line of two of one's own pieces against none of the opponent's.
pub const REACH_SCORE: i32 = 1_000;

/// Score of each piece on the board.
pub const PIECE_SCORE: i32 = 800;

/// Largest magnitude of one cell's share of the score.
pub const CELL_BOUND: i32 = 4_000_800;

/// +1 for a piece of `p`, -1 for one of its opponent, 0 otherwise.
pub open spec fn piece_sign(c: Piece, p: Piece) -> int {
    (if c == p { 1int } else { 0int }) - (if c == opponent_of(p) { 1int } else { 0int })
}

/// Score of a run of three cells whose signs add up to `s`.
pub open spec fn run_value(s: int) -> int {
    if s == 3 {
        WIN_SCORE as int
    } else if s == 2 {
        REACH_SCORE as int
    } else if s == -2 {
        -REACH_SCORE
    } else if s == -3 {
        -WIN_SCORE
    } else {
        0
    }
}

/// Score of the run of three cells from cell `i` along `(dx, dy)`, or 0
/// where the run leaves the board.
pub open spec fn run_term(b: Seq<Piece>, p: Piece, i: int, dx: int, dy: int) -> int {
    let x = x_of(i);
    let y = y_of(i);
    if in_bounds(x + 2 * dx, y + 2 * dy) {
        run_value(
            piece_sign(b[idx(x, y)], p) + piece_sign(b[idx(x + dx, y + dy)], p) + piece_sign(
                b[idx(x + 2 * dx, y + 2 * dy)],
                p,
            ),
        )
    } else {
        0
    }
}

#[verifier::opaque]
/// Share of cell `i` in the score: its piece, and the four runs it anchors
/// along (1,0), (0,1), (1,1) and (1,-1).
pub open spec fn cell_term(b: Seq<Piece>, p: Piece, i: int) -> int {
    PIECE_SCORE * piece_sign(b[i], p) + run_term(b, p, i, 1, 0) + run_term(b, p, i, 0, 1)
        + run_term(b, p, i, 1, 1) + run_term(b, p, i, 1, -1)
}

/// Sum of the shares of the first `n` cells.
pub open spec fn eval_upto(b: Seq<Piece>, p: Piece, n: int) -> int
    decreases n,
{
    if n <= 0 {
        0
    } else {
        eval_upto(b, p, n - 1) + cell_term(b, p, n - 1)
    }
}

/// Static score of board `b` from the point of view of `p`.
pub open spec fn evaluation(b: Seq<Piece>, p: Piece) -> int {
    eval_upto(b, p, 25)
}

proof fn lemma_run_antisymmetric(b: Seq<Piece>, i: int, dx: int, dy: int)
    ensures
        run_term(b, Piece::Player1, i, dx, dy) == -run_term(b, Piece::Player2, i, dx, dy),
{
    assert(forall|c: Piece| piece_sign(c, Piece::Player1) == -piece_sign(c, Piece::Player2));
}

proof fn lemma_cell_antisymmetric(b: Seq<Piece>, i: int)
    ensures
        cell_term(b, Piece::Player1, i) == -cell_term(b, Piece::Player2, i),
{
    reveal(cell_term);
    lemma_run_antisymmetric(b, i, 1, 0);
    lemma_run_antisymmetric(b, i, 0, 1);
    lemma_run_antisymmetric(b, i, 1, 1);
    lemma_run_antisymmetric(b, i, 1, -1);
    assert(piece_sign(b[i], Piece::Player1) == -piece_sign(b[i], Piece::Player2));
}

proof fn lemma_cell_bounded(b: Seq<Piece>, p: Piece, i: int)
    ensures
        -CELL_BOUND <= cell_term(b, p, i) <= CELL_BOUND,
{
    reveal(cell_term);
}

proof fn lemma_eval_upto_antisymmetric(b: Seq<Piece>, n: int)
    ensures
        eval_upto(b, Piece::Player1, n) == -eval_upto(b, Piece::Player2, n),
    decreases n,
{
    if n > 0 {
        lemma_eval_upto_antisymmetric(b, n - 1);
        lemma_cell_antisymmetric(b, n - 1);
    }
}

/// The score is antisymmetric: what one player gains, the other loses.
pub proof fn lemma_evaluation_antisymmetric(b: Seq<Piece>)
    requires
        board_wf(b),
    ensures
        evaluation(b, Piece::Player1) == -evaluation(b, Piece::Player2),
{
    lemma_eval_upto_antisymmetric(b, 25);
}

/// The score of the first `n` cells lies within `n` cell shares of zero.
pub proof fn lemma_evaluation_bounded(b: Seq<Piece>, p: Piece, n: int)
    requires
        0 <= n <= 25,
    ensures
        -n * CELL_BOUND <= eval_upto(b, p, n) <= n * CELL_BOUND,
    decreases n,
{
    if n > 0 {
        lemma_evaluation_bounded(b, p, n - 1);
        lemma_cell_bounded(b, p, n - 1);
    }
}

/// +1, -1 or 0 as `piece_sign`.
fn sign_of(c: Piece, player: Piece, opponent: Piece) -> (r: i32)
    requires
        opponent == opponent_of(player),
    ensures
        r == piece_sign(c, player),
{
    let mut s: i32 = 0;
    if c == player {
        s += 1;
    }
    if c == opponent {
        s -= 1;
    }
    s
}

impl GameEngine {
    /// Score of the run of three cells from `(x, y)` along `(dx, dy)`.
    fn run_score(&self, player: Piece, opponent: Piece, i: usize, dx: isize, dy: isize) -> (r: i32)
        requires
            self.wf(),
            opponent == opponent_of(player),
            i < 25,
            -1 <= dx <= 1,
            -1 <= dy <= 1,
        ensures
            r == run_term(self@, player, i as int, dx as int, dy as int),
            -WIN_SCORE <= r <= WIN_SCORE,
    {
        let x: isize = (i % BOARD_WIDTH) as isize;
        let y: isize = (i / BOARD_WIDTH) as isize;
        let x2: isize = x + dx;
        let y2: isize = y + dy;
        let x3: isize = x + 2 * dx;
        let y3: isize = y + 2 * dy;
        if x3 < 0 || x3 >= 5 || y3 < 0 || y3 >= 5 {
            return 0;
        }
        let s: i32 = sign_of(self.cell((y * 5 + x) as usize), player, opponent) + sign_of(
            self.cell((y2 * 5 + x2) as usize),
            player,
            opponent,
        ) + sign_of(self.cell((y3 * 5 + x3) as usize), player, opponent);
        if s == 3 {
            WIN_SCORE
        } else if s == 2 {
            REACH_SCORE
        } else if s == -2 {
            -REACH_SCORE
        } else if s == -3 {
            -WIN_SCORE
        } else {
            0
        }
    }

    /// Share of cell `i` in the score.
    fn cell_score(&self, player: Piece, opponent: Piece, i: usize) -> (r: i32)
        requires
            self.wf(),
            opponent == opponent_of(player),
            i < 25,
        ensures
            r == cell_term(self@, player, i as int),
    {
        let piece = sign_of(self.cell(i), player, opponent) * PIECE_SCORE;
        let r: i32 = piece + self.run_score(player, opponent, i, 1, 0)
            + self.run_score(player, opponent, i, 0, 1)
            + self.run_score(player, opponent, i, 1, 1)
            + self.run_score(player, opponent, i, 1, -1);
        proof {
            reveal(cell_term);
        }
        r
    }

    /// Static score of the board from the point of view of `player`:
    /// pieces, plus lines of two and three, less the opponent's.
    pub fn evaluate(&self, player: Piece) -> (r: i32)
        requires
            self.wf(),
        ensures
            r == evaluation(self@, player),
    {
        let opponent = get_opponent(player);
        let mut score: i32 = 0;
        let mut i: usize = 0;
        while i < BOARD_SIZE
            invariant
                self.wf(),
                opponent == opponent_of(player),
                i <= 25,
                score == eval_upto(self@, player, i as int),
            decreases 25 - i,
        {
            proof {
                lemma_evaluation_bounded(self@, player, i as int);
                lemma_cell_bounded(self@, player, i as int);
            }
            let cell = self.cell_score(player, opponent, i);
            score = score + cell;
            i += 1;
        }
        score
    }
}

} // verus!
