use vstd::prelude::*;
use crate::board::{
    Piece, GameEngine, BOARD_SIZE, BOARD_WIDTH, x_of, y_of, idx,
    in_bounds, hand_count, board_wf,
};
use crate::action::{Action, walk_measure, apply_spec, lemma_walk_changes};

verus! {

/// Column step of direction `d`, in the order
/// (-1,-1), (0,-1), (1,-1), (-1,0), (1,0), (-1,1), (0,1), (1,1).
pub open spec fn dir_dx(d: int) -> int {
    if d == 0 || d == 3 || d == 5 {
        -1
    } else if d == 1 || d == 6 {
        0
    } else {
        1
    }
}

/// Row step of direction `d`, in the same order as `dir_dx`.
pub open spec fn dir_dy(d: int) -> int {
    if d <= 2 {
        -1
    } else if d <= 4 {
        0
    } else {
        1
    }
}

/// Whether some on-board neighbour of cell `i` holds `p`.
pub open spec fn has_neighbour(b: Seq<Piece>, p: Piece, i: int) -> bool {
    exists|d: int|
        0 <= d < 8 && in_bounds(x_of(i) + dir_dx(d), y_of(i) + dir_dy(d)) && b[idx(
            x_of(i) + #[trigger] dir_dx(d),
            y_of(i) + dir_dy(d),
        )] == p
}

/// `p` may put a piece on cell `i`: it is empty and no neighbour holds `p`.
pub open spec fn put_ok(b: Seq<Piece>, p: Piece, i: int) -> bool {
    b[i] == Piece::Empty && !has_neighbour(b, p, i)
}

/// Walking from `(cx, cy)` along `(dx, dy)`, an empty cell comes before the edge.
pub open spec fn ray_has_empty(b: Seq<Piece>, cx: int, cy: int, dx: int, dy: int) -> bool
    decreases walk_measure(cx, cy, dx, dy),
{
    if (dx == 0 && dy == 0) || !in_bounds(cx, cy) || !in_bounds(cx + dx, cy + dy) {
        false
    } else {
        b[idx(cx + dx, cy + dy)] == Piece::Empty || ray_has_empty(
            b,
            cx + dx,
            cy + dy,
            dx,
            dy,
        )
    }
}

/// The puts of `p` on the first `n` cells, in index order.
pub open spec fn puts_upto(b: Seq<Piece>, p: Piece, n: int) -> Seq<Action>
    decreases n,
{
    if n <= 0 {
        seq![]
    } else {
        puts_upto(b, p, n - 1) + if put_ok(b, p, n - 1) {
            seq![Action::Put { index: (n - 1) as u8, value: p }]
        } else {
            seq![]
        }
    }
}

/// The flick from cell `i` along direction `d`.
pub open spec fn flick_of(i: int, d: int) -> Action {
    Action::Flick { index: i as u8, dx: dir_dx(d) as i8, dy: dir_dy(d) as i8 }
}

/// Whether the flick from cell `i` along direction `d` is legal.
pub open spec fn flick_ok(b: Seq<Piece>, i: int, d: int) -> bool {
    ray_has_empty(b, x_of(i), y_of(i), dir_dx(d), dir_dy(d))
}

/// The legal flicks from cell `i` along the first `d` directions.
pub open spec fn dir_flicks_upto(b: Seq<Piece>, i: int, d: int) -> Seq<Action>
    decreases d,
{
    if d <= 0 {
        seq![]
    } else {
        dir_flicks_upto(b, i, d - 1) + if flick_ok(b, i, d - 1) {
            seq![flick_of(i, d - 1)]
        } else {
            seq![]
        }
    }
}

/// The legal flicks of `p` from the first `n` cells, by cell then direction.
pub open spec fn flicks_upto(b: Seq<Piece>, p: Piece, n: int) -> Seq<Action>
    decreases n,
{
    if n <= 0 {
        seq![]
    } else {
        flicks_upto(b, p, n - 1) + if b[n - 1] == p {
            dir_flicks_upto(b, n - 1, 8)
        } else {
            seq![]
        }
    }
}

/// Every legal action of `p`: puts (while the hand is not empty) in index
/// order, then flicks by cell and direction. `Empty` has none.
pub open spec fn legal_actions(b: Seq<Piece>, p: Piece) -> Seq<Action> {
    if p == Piece::Empty {
        seq![]
    } else {
        (if hand_count(b, p) > 0 {
            puts_upto(b, p, 25)
        } else {
            seq![]
        }) + flicks_upto(b, p, 25)
    }
}

proof fn lemma_puts_upto_member(b: Seq<Piece>, p: Piece, n: int, a: Action)
    requires
        n <= 25,
        puts_upto(b, p, n).contains(a),
    ensures
        a matches Action::Put { index, value } && value == p && index < n && put_ok(
            b,
            p,
            index as int,
        ),
    decreases n,
{
    if n > 0 {
        let prev = puts_upto(b, p, n - 1);
        let last = if put_ok(b, p, n - 1) {
            seq![Action::Put { index: (n - 1) as u8, value: p }]
        } else {
            seq![]
        };
        let k = choose|k: int| 0 <= k < puts_upto(b, p, n).len() && puts_upto(b, p, n)[k] == a;
        if k < prev.len() {
            assert(prev[k] == a);
            lemma_puts_upto_member(b, p, n - 1, a);
        } else {
            assert(last[k - prev.len()] == a);
        }
    }
}

proof fn lemma_dir_flicks_member(b: Seq<Piece>, i: int, d: int, a: Action)
    requires
        d <= 8,
        dir_flicks_upto(b, i, d).contains(a),
    ensures
        exists|e: int| 0 <= e < d && a == flick_of(i, e) && flick_ok(b, i, e),
    decreases d,
{
    if d > 0 {
        let prev = dir_flicks_upto(b, i, d - 1);
        let last = if flick_ok(b, i, d - 1) {
            seq![flick_of(i, d - 1)]
        } else {
            seq![]
        };
        let k = choose|k: int|
            0 <= k < dir_flicks_upto(b, i, d).len() && dir_flicks_upto(b, i, d)[k] == a;
        if k < prev.len() {
            assert(prev[k] == a);
            lemma_dir_flicks_member(b, i, d - 1, a);
        } else {
            assert(last[k - prev.len()] == a);
        }
    }
}

proof fn lemma_flicks_upto_member(b: Seq<Piece>, p: Piece, n: int, a: Action)
    requires
        n <= 25,
        flicks_upto(b, p, n).contains(a),
    ensures
        exists|i: int, e: int|
            0 <= i < n && 0 <= e < 8 && b[i] == p && a == flick_of(i, e) && flick_ok(b, i, e),
    decreases n,
{
    if n > 0 {
        let prev = flicks_upto(b, p, n - 1);
        let last = if b[n - 1] == p {
            dir_flicks_upto(b, n - 1, 8)
        } else {
            seq![]
        };
        let k = choose|k: int| 0 <= k < flicks_upto(b, p, n).len() && flicks_upto(b, p, n)[k] == a;
        if k < prev.len() {
            assert(prev[k] == a);
            lemma_flicks_upto_member(b, p, n - 1, a);
        } else {
            assert(last[k - prev.len()] == a);
            assert(last.contains(a));
            lemma_dir_flicks_member(b, n - 1, 8, a);
        }
    }
}

/// A put that the generator offers is accepted: its cell was empty with no
/// neighbour of the same player, and afterwards holds the player's piece.
pub proof fn lemma_generated_put_accepted(b: Seq<Piece>, p: Piece, a: Action)
    requires
        board_wf(b),
        legal_actions(b, p).contains(a),
        a is Put,
    ensures
        a matches Action::Put { index, value } && value == p && index < 25 && b[index as int]
            == Piece::Empty && put_ok(b, p, index as int) && apply_spec(b, a) is Ok
            && apply_spec(b, a)->Ok_0[index as int] == p,
{
    let acts = legal_actions(b, p);
    let puts = if hand_count(b, p) > 0 {
        puts_upto(b, p, 25)
    } else {
        seq![]
    };
    let flicks = flicks_upto(b, p, 25);
    assert(p != Piece::Empty);
    assert(acts == puts + flicks);
    let k = choose|k: int| 0 <= k < acts.len() && acts[k] == a;
    if k < puts.len() {
        assert(puts[k] == a);
        lemma_puts_upto_member(b, p, 25, a);
    } else {
        assert(flicks[k - puts.len()] == a);
        lemma_flicks_upto_member(b, p, 25, a);
    }
}

/// A flick that the generator offers is accepted and changes the board.
pub proof fn lemma_generated_flick_changes(b: Seq<Piece>, p: Piece, a: Action)
    requires
        board_wf(b),
        legal_actions(b, p).contains(a),
        a is Flick,
    ensures
        apply_spec(b, a) is Ok,
        apply_spec(b, a)->Ok_0 != b,
{
    let acts = legal_actions(b, p);
    let puts = if hand_count(b, p) > 0 {
        puts_upto(b, p, 25)
    } else {
        seq![]
    };
    let flicks = flicks_upto(b, p, 25);
    assert(acts == puts + flicks);
    let k = choose|k: int| 0 <= k < acts.len() && acts[k] == a;
    if k < puts.len() {
        assert(puts[k] == a);
        lemma_puts_upto_member(b, p, 25, a);
    } else {
        assert(flicks[k - puts.len()] == a);
        lemma_flicks_upto_member(b, p, 25, a);
        let (i, e) = choose|i: int, e: int|
            0 <= i < 25 && 0 <= e < 8 && b[i] == p && a == flick_of(i, e) && flick_ok(b, i, e);
        assert(idx(x_of(i), y_of(i)) == i);
        lemma_walk_changes(b, x_of(i), y_of(i), dir_dx(e), dir_dy(e));
    }
}

/// Column step of direction `d`.
fn step_x(d: usize) -> (r: i8)
    requires
        d < 8,
    ensures
        r == dir_dx(d as int),
{
    if d == 0 || d == 3 || d == 5 {
        -1
    } else if d == 1 || d == 6 {
        0
    } else {
        1
    }
}

/// Row step of direction `d`.
fn step_y(d: usize) -> (r: i8)
    requires
        d < 8,
    ensures
        r == dir_dy(d as int),
{
    if d <= 2 {
        -1
    } else if d <= 4 {
        0
    } else {
        1
    }
}

impl GameEngine {
    /// Whether some on-board neighbour of cell `i` holds `player`.
    fn has_adjacent(&self, i: usize, player: Piece) -> (r: bool)
        requires
            self.wf(),
            i < 25,
        ensures
            r == has_neighbour(self@, player, i as int),
    {
        let x: isize = (i % BOARD_WIDTH) as isize;
        let y: isize = (i / BOARD_WIDTH) as isize;
        let mut d: usize = 0;
        while d < 8
            invariant
                self.wf(),
                i < 25,
                x == x_of(i as int),
                y == y_of(i as int),
                d <= 8,
                forall|e: int|
                    0 <= e < d ==> !(in_bounds(x + dir_dx(e), y + dir_dy(e)) && self@[idx(
                        x + #[trigger] dir_dx(e),
                        y + dir_dy(e),
                    )] == player),
            decreases 8 - d,
        {
            let nx: isize = x + step_x(d) as isize;
            let ny: isize = y + step_y(d) as isize;
            if 0 <= nx && nx < 5 && 0 <= ny && ny < 5 {
                if self.cell((ny * 5 + nx) as usize) == player {
                    return true;
                }
            }
            d += 1;
        }
        false
    }

    /// Whether walking from cell `i` along direction `d` meets an empty cell
    /// before the edge.
    fn can_flick(&self, i: usize, d: usize) -> (r: bool)
        requires
            self.wf(),
            i < 25,
            d < 8,
        ensures
            r == flick_ok(self@, i as int, d as int),
    {
        let dx: isize = step_x(d) as isize;
        let dy: isize = step_y(d) as isize;
        let mut cx: isize = (i % BOARD_WIDTH) as isize;
        let mut cy: isize = (i / BOARD_WIDTH) as isize;
        loop
            invariant
                self.wf(),
                in_bounds(cx as int, cy as int),
                dx == dir_dx(d as int),
                dy == dir_dy(d as int),
                d < 8,
                ray_has_empty(self@, cx as int, cy as int, dx as int, dy as int) == flick_ok(
                    self@,
                    i as int,
                    d as int,
                ),
            decreases walk_measure(cx as int, cy as int, dx as int, dy as int),
        {
            let nx: isize = cx + dx;
            let ny: isize = cy + dy;
            if nx < 0 || nx >= 5 || ny < 0 || ny >= 5 {
                return false;
            }
            if self.cell((ny * 5 + nx) as usize) == Piece::Empty {
                return true;
            }
            cx = nx;
            cy = ny;
        }
    }

    /// Every legal action of `player`: puts in index order while the hand is
    /// not empty, then flicks by cell and direction.
    pub fn generate_legal_actions(&self, player: Piece) -> (r: Vec<Action>)
        requires
            self.wf(),
        ensures
            r@ == legal_actions(self@, player),
    {
        let mut actions: Vec<Action> = Vec::new();
        if player == Piece::Empty {
            return actions;
        }
        let hand = self.get_hand_count(player);
        if hand > 0 {
            let mut i: usize = 0;
            while i < BOARD_SIZE
                invariant
                    self.wf(),
                    i <= 25,
                    actions@ == puts_upto(self@, player, i as int),
                decreases 25 - i,
            {
                if self.cell(i) == Piece::Empty && !self.has_adjacent(i, player) {
                    actions.push(Action::Put { index: i as u8, value: player });
                }
                i += 1;
            }
        }
        let ghost puts = actions@;
        assert(puts == if hand_count(self@, player) > 0 {
            puts_upto(self@, player, 25)
        } else {
            seq![]
        });
        let mut i: usize = 0;
        while i < BOARD_SIZE
            invariant
                self.wf(),
                i <= 25,
                actions@ == puts + flicks_upto(self@, player, i as int),
            decreases 25 - i,
        {
            if self.cell(i) == player {
                let mut d: usize = 0;
                while d < 8
                    invariant
                        self.wf(),
                        i < 25,
                        d <= 8,
                        self@[i as int] == player,
                        actions@ == puts + flicks_upto(self@, player, i as int)
                            + dir_flicks_upto(self@, i as int, d as int),
                    decreases 8 - d,
                {
                    if self.can_flick(i, d) {
                        actions.push(
                            Action::Flick { index: i as u8, dx: step_x(d), dy: step_y(d) },
                        );
                    }
                    proof {
                        assert(actions@ =~= puts + flicks_upto(self@, player, i as int)
                            + dir_flicks_upto(self@, i as int, d + 1));
                    }
                    d += 1;
                }
            }
            proof {
                assert(actions@ =~= puts + flicks_upto(self@, player, i + 1));
            }
            i += 1;
        }
        actions
    }

    /// The legal actions of `player`, for inspection.
    pub fn debug_legal_actions(&self, player: Piece) -> (r: Vec<Action>)
        requires
            self.wf(),
        ensures
            r@ == legal_actions(self@, player),
    {
        self.generate_legal_actions(player)
    }
}

} // verus!
